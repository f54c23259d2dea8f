use codex_universal::providers::descriptor::ResourceLifecycleSupport;
use codex_universal::providers::provider::LifecycleOutcome;
use codex_universal::providers::verdicts::{judge_pause, judge_rejected, judge_status};
use codex_universal::keyed_map::KeyedMap;
use codex_universal::providers::bind::{ExecutionEnvironment, bind};
use codex_universal::providers::conformance::{
    foreign_handle, gpu_spec, networked_spec, oversized_spec, resize_probe,
    assert_provider_conformance, evidence_conforms, first_unserved, minimal_spec, payload_mentions,
};
use codex_universal::providers::evidence::{EvidenceKind, ResourceEvidenceRecord};
use codex_universal::providers::model::ProviderId;
use codex_universal::providers::descriptor::ProviderHealthStatus;
use codex_universal::providers::error::{FailureKind, ResourceProviderError};
use codex_universal::providers::fixture::FixtureProvider;
use codex_universal::providers::local_containers::{LOCAL_CONTAINERS_PROVIDER_ID, LocalContainersFixture};
use codex_universal::providers::model::{NetworkPolicy, ResourceClass, ResourceSpec, ResourceStatus};
use codex_universal::providers::provider::{ExecutionResourceProvider, LifecycleOp, ResizeRequest};
use codex_universal::providers::registry::ProviderRegistry;
use codex_universal::providers::sandbox_cloud::{SANDBOX_CLOUD_PROVIDER_ID, SandboxCloudFixture};

fn sandbox_spec(class: ResourceClass) -> ResourceSpec {
    ResourceSpec {
        class,
        cpu_millis: Some(1_000),
        memory_mib: Some(2_048),
        disk_mib: Some(8_192),
        gpu: None,
        os: None,
        region: None,
        labels: KeyedMap::new(),
        network: None,
    }
}

fn persistent_spec() -> ResourceSpec {
    ResourceSpec {
        class: ResourceClass::PersistentWorkspace,
        cpu_millis: Some(500),
        memory_mib: Some(1_024),
        disk_mib: Some(4_096),
        gpu: None,
        os: Some("linux".to_owned()),
        region: None,
        labels: KeyedMap::new(),
        network: None,
    }
}

#[test]
fn sandbox_cloud_fixture_passes_the_shared_conformance_suite() {
    let mut fixture = SandboxCloudFixture::new(4).expect("fixture");
    assert_eq!(assert_provider_conformance(&mut fixture), Ok(()));
}

#[test]
fn local_containers_fixture_passes_the_shared_conformance_suite() {
    let mut fixture = LocalContainersFixture::new().expect("fixture");
    assert_eq!(assert_provider_conformance(&mut fixture), Ok(()));
}

#[test]
fn e2e_conformance_parity_across_both_fixtures() {
    let mut sandbox = FixtureProvider::SandboxCloud(SandboxCloudFixture::new(4).expect("fixture"));
    let mut local = FixtureProvider::LocalContainers(LocalContainersFixture::new().expect("fixture"));

    // Identical ops, identical assertions, two materially different
    // implementations.
    assert_eq!(assert_provider_conformance(&mut sandbox), Ok(()));
    assert_eq!(assert_provider_conformance(&mut local), Ok(()));

    // The declared capability matrices differ materially.
    let sandbox_descriptor = sandbox.descriptor();
    let local_descriptor = local.descriptor();
    assert!(sandbox_descriptor.serves(ResourceClass::Sandbox));
    assert!(sandbox_descriptor.serves(ResourceClass::RemoteDesktop));
    assert!(!sandbox_descriptor.serves(ResourceClass::PersistentWorkspace));
    assert!(!local_descriptor.serves(ResourceClass::Sandbox));
    assert!(local_descriptor.serves(ResourceClass::PersistentWorkspace));

    // The failure modes differ materially: cloud capacity exhaustion vs
    // container over-quota resize.
    let mut cloud = SandboxCloudFixture::new(1).expect("cloud fixture");
    let _first = cloud.create(sandbox_spec(ResourceClass::Sandbox)).expect("first cloud resource");
    let exhausted = cloud.create(sandbox_spec(ResourceClass::Sandbox)).expect_err("capacity");
    assert!(matches!(exhausted, ResourceProviderError::CapacityExhausted { .. }));
    let mut containers = LocalContainersFixture::new().expect("container fixture");
    let workspace = containers.create(persistent_spec()).expect("workspace");
    let over = containers
        .lifecycle(&workspace, LifecycleOp::Resize(ResizeRequest { cpu_millis: Some(5_000), memory_mib: None, disk_mib: None }))
        .expect_err("over-quota resize");
    assert!(matches!(over, ResourceProviderError::InvalidSpec { .. }));

    // The bind surfaces agree with the peers: sandbox-class under
    // Terminal, remote-desktop-class under Computer.
    let desktop = sandbox.create(sandbox_spec(ResourceClass::RemoteDesktop)).expect("desktop resource");
    let desktop_binding = bind(&desktop).expect("desktop binding");
    assert_eq!(desktop_binding.holder, ExecutionEnvironment::Computer);
    let workspace_handle = local.create(persistent_spec()).expect("workspace");
    let workspace_binding = bind(&workspace_handle).expect("workspace binding");
    assert_eq!(workspace_binding.holder, ExecutionEnvironment::Terminal);

    // Both providers register under distinct identities, and the timings
    // differ materially (cloud latency vs local) with both healthy.
    let mut providers = ProviderRegistry::new();
    let sandbox_id = providers.register(sandbox).expect("register sandbox");
    let local_id = providers.register(local).expect("register local");
    assert_ne!(sandbox_id, local_id);
    assert_eq!(providers.len(), 2);
    let fleet = providers.probe_all();
    assert_eq!(fleet.len(), 2);
    let latencies: Vec<u64> = fleet
        .iter()
        .map(|(_, health)| health.as_ref().expect("healthy").latency_ms.expect("latency"))
        .collect();
    assert_ne!(latencies[0], latencies[1]);
}

#[test]
fn registry_registers_looks_up_and_probes() {
    let mut registry = ProviderRegistry::new();
    assert!(registry.is_empty());
    let sandbox = SandboxCloudFixture::new(4).expect("fixture");
    let id = registry.register(sandbox).expect("register");
    assert_eq!(id.as_str(), SANDBOX_CLOUD_PROVIDER_ID);
    assert_eq!(registry.len(), 1);
    assert!(registry.provider(&id).is_some());
    let provider = registry.provider(&id).expect("registered provider");
    let health = provider.probe().expect("healthy probe");
    assert_eq!(health.status, ProviderHealthStatus::Healthy);

    let fleet = registry.probe_all();
    assert_eq!(fleet.len(), 1);
    let (probed_id, probed) = &fleet[0];
    assert_eq!(*probed_id, id);
    assert!(probed.is_ok());

    let ids = registry.provider_ids();
    assert_eq!(ids, vec![id]);
}

#[test]
fn registry_rejects_duplicates_and_malformed() {
    let mut registry = ProviderRegistry::new();
    let first = FixtureProvider::SandboxCloud(SandboxCloudFixture::new(2).expect("fixture"));
    registry.register(first).expect("register");
    let again = FixtureProvider::SandboxCloud(SandboxCloudFixture::new(2).expect("fixture"));
    let error = registry.register(again).expect_err("duplicate rejected");
    assert!(matches!(error, ResourceProviderError::InvalidSpec { .. }));

    let local = FixtureProvider::LocalContainers(LocalContainersFixture::new().expect("fixture"));
    registry.register(local).expect("distinct provider registers");
    assert_eq!(registry.len(), 2);
}

#[test]
fn registry_duplicate_reason_and_identity_order() {
    let mut registry = ProviderRegistry::new();
    let sandbox_id = registry
        .register(FixtureProvider::SandboxCloud(SandboxCloudFixture::new(1).expect("fixture")))
        .expect("sandbox");
    let local_id = registry
        .register(FixtureProvider::LocalContainers(LocalContainersFixture::new().expect("fixture")))
        .expect("local");
    match registry.register(FixtureProvider::LocalContainers(LocalContainersFixture::new().expect("fixture"))) {
        Err(ResourceProviderError::InvalidSpec { reason }) => {
            assert_eq!(reason, "provider `fixture-local-containers` is already registered")
        }
        other => panic!("expected a duplicate refusal, got {other:?}"),
    }
    // Identity order: "fixture-local-containers" < "fixture-sandbox-cloud".
    let ids = registry.provider_ids();
    assert_eq!(ids, vec![local_id.clone(), sandbox_id.clone()]);
    assert_eq!(ids[0].as_str(), LOCAL_CONTAINERS_PROVIDER_ID);
    let fleet = registry.probe_all();
    assert_eq!(fleet[0].0, local_id);
    assert_eq!(fleet[1].0, sandbox_id);
    assert_eq!(fleet[0].1.as_ref().expect("healthy").latency_ms, Some(0));
    assert_eq!(fleet[1].1.as_ref().expect("healthy").latency_ms, Some(42));
}

#[test]
fn conformance_reports_a_provider_in_outage() {
    let mut fixture = SandboxCloudFixture::new(4).expect("fixture");
    fixture.set_outage(true);
    assert_eq!(assert_provider_conformance(&mut fixture), Err("conformance: probe failed".to_owned()));
}

#[test]
fn conformance_helpers() {
    let spec = minimal_spec(ResourceClass::GpuCompute);
    assert_eq!(spec.class, ResourceClass::GpuCompute);
    assert!(spec.cpu_millis.is_none() && spec.labels.size() == 0);
    let sandbox = SandboxCloudFixture::new(1).expect("fixture");
    assert_eq!(first_unserved(sandbox.descriptor()), Some(ResourceClass::PersistentWorkspace));
    let local = LocalContainersFixture::new().expect("fixture");
    assert_eq!(first_unserved(local.descriptor()), Some(ResourceClass::Sandbox));
    assert!(payload_mentions(&b"{\"Authorization\":\"Bearer x\"}".to_vec(), "bearer"));
    assert!(payload_mentions(&b"API_KEY".to_vec(), "api_key"));
    assert!(!payload_mentions(&b"{\"fact\":\"resource_transition\"}".to_vec(), "token"));
    assert!(!payload_mentions(&b"tok".to_vec(), "token"));
    assert!(payload_mentions(&b"".to_vec(), ""));
}

#[test]
fn e2e_unsupported_lifecycle_operations_are_explicit() {
    let mut provider = LocalContainersFixture::new().expect("fixture");
    let workspace = provider.create(persistent_spec()).expect("workspace");

    // Fork is undeclared for local containers: the error names the
    // provider and the operation, and maps onto the Permanent family so
    // recovery escalates instead of retrying.
    let error = provider.lifecycle(&workspace, LifecycleOp::Fork).expect_err("fork must be unsupported");
    assert!(matches!(error, ResourceProviderError::Unsupported { .. }));
    let rendered = error.message();
    assert!(rendered.contains("fixture-local-containers"));
    assert!(rendered.contains("fork"));
    let failure = error.normalized_failure(1024);
    assert_eq!(failure.kind, FailureKind::Permanent);
    assert!(!failure.message.is_empty());
    assert!(!error.rebind_advisable());

    // Snapshots and pause are equally explicit.
    let rejected = provider.lifecycle(&workspace, LifecycleOp::Snapshot).expect_err("snapshot must be unsupported");
    assert!(matches!(rejected, ResourceProviderError::Unsupported { .. }));
    assert!(matches!(
        provider.lifecycle(&workspace, LifecycleOp::Pause).expect_err("pause must be unsupported"),
        ResourceProviderError::Unsupported { .. }
    ));

    // Resize IS declared and works; the resource state is unchanged by
    // every rejected operation.
    let resized = provider
        .lifecycle(&workspace, LifecycleOp::Resize(ResizeRequest { cpu_millis: Some(1_000), memory_mib: None, disk_mib: None }))
        .expect("resize");
    assert_eq!(resized.handle().expect("handle").status, ResourceStatus::Active);
    assert_eq!(provider.status(&workspace).expect("status"), ResourceStatus::Active);
    assert_eq!(provider.workspace_spec(&workspace.resource).expect("spec kept").cpu_millis, Some(1_000));

    // The provider keeps its state through the wiring registry.
    let mut providers = ProviderRegistry::new();
    let id = providers.register(FixtureProvider::LocalContainers(provider)).expect("register");
    let registered = providers.provider(&id).expect("provider");
    assert_eq!(registered.status(&workspace).expect("status"), ResourceStatus::Active);
}

fn record(locator: &str, digest: &str, payload: &str) -> ResourceEvidenceRecord {
    ResourceEvidenceRecord {
        locator: locator.to_owned(),
        digest_hex: digest.to_owned(),
        kind: EvidenceKind::Artifact,
        payload: payload.as_bytes().to_vec(),
    }
}

#[test]
fn evidence_judgment_names_the_first_failure() {
    let id = ProviderId::parse("fixture-x".to_owned()).expect("provider id");
    let digest = "ab".repeat(32);
    let good = record("codex-resource-providers/fixture-x/0", &digest, "{\"fact\":\"ok\"}");
    assert_eq!(evidence_conforms(&vec![good.clone()], &id), Ok(()));
    assert_eq!(
        evidence_conforms(&vec![], &id),
        Err("conformance: lifecycle operations produced no evidence".to_owned())
    );
    assert_eq!(
        evidence_conforms(&vec![record("codex-resource-providers/other/0", &digest, "{}")], &id),
        Err("conformance: an evidence locator is not provider-scoped".to_owned())
    );
    assert_eq!(
        evidence_conforms(&vec![good.clone(), record("codex-resource-providers/fixture-x/2", &digest, "{}")], &id),
        Err("conformance: an evidence locator is not sequential".to_owned())
    );
    assert_eq!(
        evidence_conforms(&vec![record("codex-resource-providers/fixture-x/0", &"AB".repeat(32), "{}")], &id),
        Err("conformance: an evidence digest is not 64 lowercase hex digits".to_owned())
    );
    assert_eq!(
        evidence_conforms(&vec![record("codex-resource-providers/fixture-x/0", &digest, "{\"Password\":1}")], &id),
        Err("conformance: an evidence payload contains a credential marker".to_owned())
    );
    assert_eq!(
        evidence_conforms(&vec![record("codex-resource-providers/fixture-x/0", &digest, "{\"workflowId\":1}")], &id),
        Err("conformance: provider evidence carries workflow identity".to_owned())
    );
    // A provider's own journal always passes the locator and digest checks.
    let mut fixture = SandboxCloudFixture::new(1).expect("fixture");
    fixture.create(sandbox_spec(ResourceClass::Sandbox)).expect("create");
    let provider = fixture.descriptor().provider.clone();
    assert_eq!(evidence_conforms(&fixture.evidence_records(), &provider), Ok(()));
}

#[test]
fn fixture_provider_answers_as_its_fixture() {
    let mut sandbox = FixtureProvider::SandboxCloud(SandboxCloudFixture::new(1).expect("fixture"));
    let health = sandbox.probe().expect("probe");
    assert_eq!(health.status, ProviderHealthStatus::Healthy);
    assert_eq!(health.latency_ms, Some(42));
    let handle = sandbox.create(minimal_spec(ResourceClass::Sandbox)).expect("create");
    assert_eq!(handle.status, ResourceStatus::Active);
    assert_eq!(handle.class, ResourceClass::Sandbox);
    assert_eq!(handle.provider.as_str(), SANDBOX_CLOUD_PROVIDER_ID);
    match sandbox.create(minimal_spec(ResourceClass::Sandbox)) {
        Err(error) => assert!(matches!(error, ResourceProviderError::CapacityExhausted { .. })),
        Ok(other) => panic!("expected the capacity ceiling, got {other:?}"),
    }
    match sandbox.create(minimal_spec(ResourceClass::PersistentWorkspace)) {
        Err(ResourceProviderError::InvalidSpec { .. }) => {},
        other => panic!("expected an unserved class refusal, got {other:?}"),
    }
    assert_eq!(sandbox.evidence_records().len(), 2);

    let mut local = FixtureProvider::LocalContainers(LocalContainersFixture::new().expect("fixture"));
    assert_eq!(local.probe().expect("probe").latency_ms, Some(0));
    match local.create(minimal_spec(ResourceClass::Sandbox)) {
        Err(ResourceProviderError::InvalidSpec { reason }) => assert_eq!(
            reason,
            "provider `fixture-local-containers` does not serve resource class `sandbox`"
        ),
        other => panic!("expected an unserved class refusal, got {other:?}"),
    }
    assert!(local.evidence_records().is_empty());
    let workspace = local.create(minimal_spec(ResourceClass::PersistentWorkspace)).expect("create");
    assert_eq!(workspace.provider.as_str(), LOCAL_CONTAINERS_PROVIDER_ID);
    assert_eq!(local.evidence_records().len(), 1);
}

#[test]
fn judgments_name_the_first_violated_expectation() {
    let provider = ProviderId::parse(SANDBOX_CLOUD_PROVIDER_ID.to_owned()).expect("provider id");
    let none = ResourceLifecycleSupport::none();
    let refused = Err(ResourceProviderError::Unsupported { provider: provider.clone(), operation: LifecycleOp::Pause });
    assert_eq!(judge_pause(none, &provider, &refused), Ok(false));
    let declared = none.with_pause_resume();
    assert_eq!(
        judge_pause(declared, &provider, &refused),
        Err("conformance: pause was declared but rejected".to_owned())
    );
    let mut sandbox = SandboxCloudFixture::new(2).expect("fixture");
    let handle = sandbox.create(minimal_spec(ResourceClass::Sandbox)).expect("create");
    let paused = sandbox.lifecycle(&handle, LifecycleOp::Pause);
    assert!(matches!(paused, Ok(LifecycleOutcome::Transitioned(_))));
    assert_eq!(
        judge_pause(none, &provider, &paused),
        Err("conformance: pause succeeded but was undeclared".to_owned())
    );
    assert_eq!(judge_pause(declared, &provider, &paused), Ok(true));
    assert_eq!(
        judge_status(&sandbox.status(&handle), ResourceStatus::Active, "status while paused is not paused"),
        Err("conformance: status while paused is not paused".to_owned())
    );
    assert_eq!(judge_status(&sandbox.status(&handle), ResourceStatus::Paused, "unused"), Ok(()));
    assert_eq!(
        judge_rejected(&Ok(handle), "an unserved class was not rejected"),
        Err("conformance: an unserved class was not rejected".to_owned())
    );
}

#[test]
fn the_suite_hands_providers_what_it_declares() {
    let networked = networked_spec(ResourceClass::Sandbox);
    assert_eq!(networked.network, Some(NetworkPolicy::Isolated));
    assert!(networked.gpu.is_none() && networked.labels.size() == 0);
    assert_eq!(gpu_spec(ResourceClass::GpuCompute).gpu, Some(1));
    let oversized = oversized_spec(ResourceClass::Sandbox);
    assert_eq!(oversized.labels.size(), 18);
    assert_eq!(oversized.labels.get(&"label17".to_owned()), Some(&"value".to_owned()));
    let sandbox = SandboxCloudFixture::new(1).expect("fixture");
    let capability = sandbox.descriptor().capabilities[0];
    let request = resize_probe(capability);
    assert_eq!(request.cpu_millis, Some(capability.capacity.max_cpu_millis));
    assert!(request.memory_mib.is_none() && request.disk_mib.is_none());
    let foreign = foreign_handle(ResourceClass::RemoteDesktop).expect("foreign handle");
    assert_eq!(foreign.resource, "foreign-resource-1");
    assert_eq!(foreign.provider.as_str(), "some-other-provider");
    assert_eq!(foreign.status, ResourceStatus::Active);
}

#[test]
fn provisioning_moves_the_live_count_by_one() {
    let mut sandbox = SandboxCloudFixture::new(2).expect("fixture");
    assert_eq!(sandbox.live_count(), 0);
    let first = sandbox.create(minimal_spec(ResourceClass::Sandbox)).expect("create");
    assert_eq!(sandbox.live_count(), 1);
    sandbox.create(minimal_spec(ResourceClass::RemoteDesktop)).expect("create");
    assert_eq!(sandbox.live_count(), 2);
    assert!(sandbox.create(minimal_spec(ResourceClass::Sandbox)).is_err());
    assert_eq!(sandbox.live_count(), 2);
    sandbox.release(&first).expect("release");
    assert_eq!(sandbox.live_count(), 1);
    match sandbox.lifecycle(&first, LifecycleOp::Pause) {
        Err(ResourceProviderError::ResourceLost { resource, .. }) => assert_eq!(resource, first.resource),
        other => panic!("expected the loss, got {other:?}"),
    }
    match sandbox.lifecycle(&first, LifecycleOp::Create) {
        Ok(LifecycleOutcome::Transitioned(again)) => {
            assert_eq!(again.status, ResourceStatus::Active);
            assert_eq!(again.class, ResourceClass::Sandbox);
            assert_ne!(again.resource, first.resource);
        },
        other => panic!("expected a recreation, got {other:?}"),
    }
}

#[test]
fn the_fleet_report_keeps_every_answer() {
    let mut registry = ProviderRegistry::new();
    let mut down = SandboxCloudFixture::new(1).expect("fixture");
    down.set_outage(true);
    let sandbox_id = registry.register(FixtureProvider::SandboxCloud(down)).expect("register sandbox");
    let local_id = registry
        .register(FixtureProvider::LocalContainers(LocalContainersFixture::new().expect("fixture")))
        .expect("register local");
    let fleet = registry.probe_all();
    assert_eq!(fleet.len(), 2);
    assert_eq!(fleet[0].0, local_id);
    assert_eq!(fleet[0].1.as_ref().expect("local is healthy").status, ProviderHealthStatus::Healthy);
    assert_eq!(fleet[1].0, sandbox_id);
    assert!(matches!(fleet[1].1, Err(ResourceProviderError::Unreachable { .. })));
}
