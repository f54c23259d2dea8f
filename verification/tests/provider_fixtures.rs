use codex_universal::keyed_map::KeyedMap;
use codex_universal::providers::bind::{ExecutionEnvironment, bind};
use codex_universal::providers::error::{FailureKind, ResourceProviderError};
use codex_universal::providers::evidence::EvidenceKind;
use codex_universal::providers::local_containers::{LOCAL_CONTAINERS_PROVIDER_ID, LocalContainersFixture};
use codex_universal::providers::model::{NetworkPolicy, ResourceClass, ResourceSpec, ResourceStatus};
use codex_universal::providers::provider::{LifecycleOp, LifecycleOutcome, ResizeRequest};
use codex_universal::providers::sandbox_cloud::{SANDBOX_CLOUD_PROVIDER_ID, SandboxCloudFixture};

fn spec(class: ResourceClass) -> ResourceSpec {
    ResourceSpec {
        class,
        cpu_millis: None,
        memory_mib: None,
        disk_mib: None,
        gpu: None,
        os: None,
        region: None,
        labels: KeyedMap::new(),
        network: None,
    }
}

fn workspace_spec() -> ResourceSpec {
    ResourceSpec {
        class: ResourceClass::PersistentWorkspace,
        cpu_millis: Some(500),
        memory_mib: Some(1_024),
        disk_mib: Some(4_096),
        gpu: None,
        os: Some("linux".to_owned()),
        region: None,
        labels: KeyedMap::new(),
        network: None,
    }
}

fn resize(cpu: Option<u32>, memory: Option<u32>, disk: Option<u64>) -> LifecycleOp {
    LifecycleOp::Resize(ResizeRequest { cpu_millis: cpu, memory_mib: memory, disk_mib: disk })
}

fn reason(error: &ResourceProviderError) -> String {
    match error {
        ResourceProviderError::InvalidSpec { reason } => reason.clone(),
        other => panic!("expected InvalidSpec, got {other:?}"),
    }
}

#[test]
fn local_failure_modes_and_persistence_are_container_shaped() {
    let mut fixture = LocalContainersFixture::new().expect("fixture");

    let descriptor = fixture.descriptor();
    assert_eq!(descriptor.provider.as_str(), LOCAL_CONTAINERS_PROVIDER_ID);
    assert_eq!(descriptor.health.latency_ms, Some(0));
    assert_eq!(descriptor.regions, vec!["local".to_owned()]);
    assert!(descriptor.cost.is_none());
    assert_eq!(descriptor.capabilities.len(), 1);
    assert!(!descriptor.capabilities[0].lifecycle.fork);
    assert!(!descriptor.capabilities[0].lifecycle.pause_resume);

    let workspace = fixture.create(workspace_spec()).expect("create");
    let released = fixture.release(&workspace).expect("release");
    assert_eq!(released.status, ResourceStatus::Released);
    let spec = fixture.workspace_spec(&workspace.resource).expect("spec kept");
    assert_eq!(spec.cpu_millis, Some(500));
    let unsupported = fixture.lifecycle(&workspace, LifecycleOp::Fork).expect_err("fork is undeclared");
    assert!(matches!(unsupported, ResourceProviderError::Unsupported { .. }));
    assert_eq!(unsupported.failure_kind(), FailureKind::Permanent);
    assert!(!unsupported.rebind_advisable());

    let live = fixture.create(workspace_spec()).expect("second workspace");
    fixture.remove_container(&live.resource);
    assert_eq!(fixture.status(&live).expect("status"), ResourceStatus::Lost);
    let lost = fixture.lifecycle(&live, resize(Some(1_000), None, None)).expect_err("resize on a removed container");
    assert!(matches!(lost, ResourceProviderError::ResourceLost { .. }));

    let resized_workspace = fixture.create(workspace_spec()).expect("third workspace");
    let outcome = fixture.lifecycle(&resized_workspace, resize(Some(2_000), Some(2_048), None)).expect("resize");
    let handle = outcome.handle().expect("transition");
    assert_eq!(handle.status, ResourceStatus::Active);
    assert_eq!(handle.resource, resized_workspace.resource);
    let spec = fixture.workspace_spec(&resized_workspace.resource).expect("spec kept");
    assert_eq!(spec.cpu_millis, Some(2_000));
    assert_eq!(spec.memory_mib, Some(2_048));

    let over = fixture.lifecycle(&resized_workspace, resize(Some(9_999), None, None)).expect_err("over-quota resize");
    assert!(matches!(over, ResourceProviderError::InvalidSpec { .. }));

    let records = fixture.evidence_records();
    assert!(!records.is_empty());
    assert!(records.iter().all(|record| !record.locator.contains("snapshot")));
}

#[test]
fn sandbox_cloud_failure_modes_are_cloud_shaped() {
    let mut fixture = SandboxCloudFixture::new(1).expect("fixture");

    let first = fixture.create(spec(ResourceClass::Sandbox)).expect("first");
    let error = fixture.create(spec(ResourceClass::Sandbox)).expect_err("capacity");
    assert!(matches!(error, ResourceProviderError::CapacityExhausted { .. }));
    assert_eq!(error.failure_kind(), FailureKind::Unavailable);
    assert!(error.rebind_advisable());

    let released = fixture.release(&first).expect("release");
    assert_eq!(released.status, ResourceStatus::Released);
    let second = fixture.create(spec(ResourceClass::Sandbox)).expect("second");
    assert_eq!(fixture.live_count(), 1);

    fixture.set_outage(true);
    let probe = fixture.probe().expect_err("probe during outage");
    assert!(matches!(probe, ResourceProviderError::Unreachable { .. }));
    assert!(matches!(fixture.create(spec(ResourceClass::RemoteDesktop)), Err(ResourceProviderError::Unreachable { .. })));
    fixture.set_outage(false);
    assert!(fixture.probe().is_ok());

    fixture.lose_resource(&second.resource);
    assert_eq!(fixture.status(&second).expect("status"), ResourceStatus::Lost);
    let error = fixture.lifecycle(&second, LifecycleOp::Pause).expect_err("pause on a lost resource");
    assert!(matches!(error, ResourceProviderError::ResourceLost { .. }));
    assert_eq!(error.failure_kind(), FailureKind::Unavailable);

    let live = fixture.create(spec(ResourceClass::Sandbox)).expect("third");
    assert!(matches!(fixture.lifecycle(&live, LifecycleOp::Snapshot).expect("snapshot"), LifecycleOutcome::Snapshotted(_)));
    let forked = fixture.lifecycle(&live, LifecycleOp::Fork).expect("fork");
    let fork_handle = forked.handle().expect("transition").clone();
    assert_ne!(fork_handle.resource, live.resource);

    let records = fixture.evidence_records();
    assert!(!records.is_empty());
    assert!(records.iter().any(|record| record.locator.starts_with("codex-resource-providers/fixture-sandbox-cloud/")));
}

#[test]
fn local_ids_are_zero_padded_and_sequential() {
    let mut fixture = LocalContainersFixture::new().expect("fixture");
    let first = fixture.create(workspace_spec()).expect("first");
    let second = fixture.create(workspace_spec()).expect("second");
    assert_eq!(first.resource, "ws-0000");
    assert_eq!(second.resource, "ws-0001");
    assert_eq!(first.provider.as_str(), LOCAL_CONTAINERS_PROVIDER_ID);
    let recreated = fixture.lifecycle(&first, LifecycleOp::Create).expect("recreate");
    assert_eq!(recreated.handle().expect("transition").resource, "ws-0002");
    let spec = fixture.workspace_spec(&"ws-0002".to_owned()).expect("recreated spec");
    assert_eq!(spec.cpu_millis, Some(500));
    assert_eq!(spec.os, Some("linux".to_owned()));
}

#[test]
fn local_create_rejections_name_the_reason() {
    let mut fixture = LocalContainersFixture::new().expect("fixture");
    let unserved = fixture.create(spec(ResourceClass::Sandbox)).expect_err("unserved");
    assert_eq!(
        reason(&unserved),
        "provider `fixture-local-containers` does not serve resource class `sandbox`"
    );
    let mut networked = workspace_spec();
    networked.network = Some(NetworkPolicy::Isolated);
    assert_eq!(
        reason(&fixture.create(networked).expect_err("network")),
        "provider `fixture-local-containers` does not accept network policy input for class `persistentWorkspace`"
    );
    let mut gpus = workspace_spec();
    gpus.gpu = Some(1);
    assert_eq!(
        reason(&fixture.create(gpus).expect_err("gpu")),
        "provider `fixture-local-containers` does not serve GPU specs for class `persistentWorkspace`"
    );
    let mut big = workspace_spec();
    big.cpu_millis = Some(4_001);
    assert_eq!(reason(&fixture.create(big).expect_err("cpu quota")), "cpuMillis 4001 exceeds the local quota 4000");
    let mut big = workspace_spec();
    big.memory_mib = Some(9_000);
    assert_eq!(reason(&fixture.create(big).expect_err("memory quota")), "memoryMiB 9000 exceeds the local quota 8192");
    let mut big = workspace_spec();
    big.disk_mib = Some(70_000);
    assert_eq!(reason(&fixture.create(big).expect_err("disk quota")), "diskMiB 70000 exceeds the local quota 65536");
    let mut invalid = workspace_spec();
    invalid.cpu_millis = Some(0);
    assert_eq!(reason(&fixture.create(invalid).expect_err("invalid")), "cpuMillis must be 1..=1000000");
    assert!(fixture.evidence_records().is_empty());
}

#[test]
fn local_resize_quota_and_request_errors() {
    let mut fixture = LocalContainersFixture::new().expect("fixture");
    let workspace = fixture.create(workspace_spec()).expect("workspace");
    let over = fixture.lifecycle(&workspace, resize(None, None, Some(65_537))).expect_err("disk");
    assert_eq!(reason(&over), "resize diskMiB 65537 exceeds the local quota 65536");
    let over = fixture.lifecycle(&workspace, resize(None, Some(8_193), None)).expect_err("memory");
    assert_eq!(reason(&over), "resize memoryMiB 8193 exceeds the local quota 8192");
    let empty = fixture.lifecycle(&workspace, resize(None, None, None)).expect_err("empty request");
    assert_eq!(reason(&empty), "resize requests carry at least one new capacity");
    let mut wrong_class = workspace.clone();
    wrong_class.class = ResourceClass::Sandbox;
    assert!(matches!(
        fixture.lifecycle(&wrong_class, LifecycleOp::Create),
        Err(ResourceProviderError::ResourceLost { .. })
    ));
    let pause = fixture.lifecycle(&workspace, LifecycleOp::Pause).expect_err("pause");
    assert!(matches!(pause, ResourceProviderError::Unsupported { operation: LifecycleOp::Pause, .. }));
    assert_eq!(fixture.evidence_records().len(), 1);
}

#[test]
fn local_removal_journals_a_recovery_fact() {
    let mut fixture = LocalContainersFixture::new().expect("fixture");
    let workspace = fixture.create(workspace_spec()).expect("workspace");
    fixture.remove_container(&"ws-9999".to_owned());
    assert_eq!(fixture.evidence_records().len(), 1);
    fixture.remove_container(&workspace.resource);
    let records = fixture.evidence_records();
    assert_eq!(records.len(), 2);
    assert_eq!(records[0].kind, EvidenceKind::Artifact);
    assert_eq!(records[1].kind, EvidenceKind::Recovery);
    assert_eq!(records[1].locator, "codex-resource-providers/fixture-local-containers/1");
    let payload = String::from_utf8(records[1].payload.clone()).expect("utf-8 payload");
    assert!(payload.contains("container_removed"));
    assert!(payload.contains("ws-0000"));
    // A removed container is still re-provisionable through `Create`.
    let recreated = fixture.lifecycle(&workspace, LifecycleOp::Create).expect("recreate");
    assert_eq!(recreated.handle().expect("transition").status, ResourceStatus::Active);
    let binding = bind(recreated.handle().expect("transition")).expect("bind");
    assert_eq!(binding.holder, ExecutionEnvironment::Terminal);
}

#[test]
fn sandbox_ids_and_snapshot_artifacts_are_sequential() {
    let mut fixture = SandboxCloudFixture::new(4).expect("fixture");
    assert_eq!(fixture.descriptor().provider.as_str(), SANDBOX_CLOUD_PROVIDER_ID);
    let first = fixture.create(spec(ResourceClass::Sandbox)).expect("first");
    assert_eq!(first.resource, "sbx-0000");
    match fixture.lifecycle(&first, LifecycleOp::Snapshot).expect("snapshot") {
        LifecycleOutcome::Snapshotted(snapshot) => {
            assert_eq!(snapshot.artifact, "snap-0000");
            assert_eq!(snapshot.resource, "sbx-0000");
        }
        other => panic!("expected a snapshot, got {other:?}"),
    }
    let paused = fixture.lifecycle(&first, LifecycleOp::Pause).expect("pause");
    assert_eq!(paused.handle().expect("transition").status, ResourceStatus::Paused);
    assert_eq!(fixture.live_count(), 1);
    let resized = fixture.lifecycle(&first, resize(Some(100), None, None)).expect_err("resize undeclared");
    assert!(matches!(resized, ResourceProviderError::Unsupported { .. }));
    let mut gpus = spec(ResourceClass::Sandbox);
    gpus.gpu = Some(1);
    assert_eq!(
        reason(&fixture.create(gpus).expect_err("gpu")),
        "provider `fixture-sandbox-cloud` does not serve GPU specs for class `sandbox`"
    );
}
