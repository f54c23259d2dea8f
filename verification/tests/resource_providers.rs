use codex_universal::keyed_map::KeyedMap;
use codex_universal::providers::bind::{ExecutionEnvironment, bind, bind_as, canonical_resource_type, holder_environment};
use codex_universal::providers::descriptor::{
    CostMetadata, ProviderDescriptor, ProviderHealth, ProviderHealthStatus, ResourceCapability, ResourceLifecycleSupport,
    ResourceQuota,
};
use codex_universal::providers::error::{FailureKind, ResourceProviderError};
use codex_universal::providers::model::{
    CPU_MILLIS_MAX, DISK_MIB_MAX, GPU_MAX, LABEL_KEY_MAX_BYTES, LABEL_VALUE_MAX_BYTES, MEMORY_MIB_MAX,
    NETWORK_HOSTS_MAX, NETWORK_HOST_MAX_BYTES, NetworkPolicy, ProviderId, ResourceClass, ResourceHandle,
    ResourceSnapshot, ResourceSpec, ResourceStatus, SNAPSHOT_ARTIFACT_MAX_BYTES, SPEC_LABELS_MAX, SPEC_TEXT_MAX_BYTES,
};
use codex_universal::providers::provider::{LifecycleOp, LifecycleOutcome, ResizeRequest};
use codex_universal::providers::registry::{ProviderCredentials, ProviderRegistry};
use codex_universal::providers::sandbox_cloud::SandboxCloudFixture;

fn s(v: &str) -> String {
    v.to_string()
}

fn spec(class: ResourceClass) -> ResourceSpec {
    ResourceSpec {
        class,
        cpu_millis: None,
        memory_mib: None,
        disk_mib: None,
        gpu: None,
        os: None,
        region: None,
        labels: KeyedMap::new(),
        network: None,
    }
}

fn quota() -> ResourceQuota {
    ResourceQuota { max_cpu_millis: 2_000, max_memory_mib: 4_096, max_disk_mib: 20_480 }
}

fn descriptor() -> ProviderDescriptor {
    ProviderDescriptor {
        provider: ProviderId::parse(s("fixture-declared")).expect("provider id"),
        capabilities: vec![ResourceCapability {
            class: ResourceClass::Sandbox,
            lifecycle: ResourceLifecycleSupport::none().with_create().with_snapshot(),
            capacity: quota(),
        }],
        health: ProviderHealth::healthy(),
        regions: vec![s("local")],
        cost: None,
    }
}

fn provider_id() -> ProviderId {
    ProviderId::parse(s("fixture-errors")).expect("provider id")
}

fn handle(class: ResourceClass, status: ResourceStatus) -> ResourceHandle {
    ResourceHandle {
        resource: s("sbx-0007"),
        class,
        provider: ProviderId::parse(s("fixture-binding")).expect("provider id"),
        status,
    }
}

#[test]
fn lifecycle_support_builders_and_op_matrix() {
    let full = ResourceLifecycleSupport::none()
        .with_create()
        .with_pause_resume()
        .with_snapshot()
        .with_fork()
        .with_resize()
        .with_network_policy()
        .with_gpu();
    assert!(full.create);
    assert!(full.pause_resume);
    assert!(full.snapshot);
    assert!(full.fork);
    assert!(full.resize);
    assert!(full.network_policy);
    assert!(full.gpu);
    let resize = ResizeRequest { cpu_millis: Some(1), memory_mib: None, disk_mib: None };
    assert!(full.supports(&LifecycleOp::Create));
    assert!(full.supports(&LifecycleOp::Pause));
    assert!(full.supports(&LifecycleOp::Resume));
    assert!(full.supports(&LifecycleOp::Snapshot));
    assert!(full.supports(&LifecycleOp::Fork));
    assert!(full.supports(&LifecycleOp::Resize(resize)));
    let minimal = ResourceLifecycleSupport::none().with_create();
    assert!(minimal.supports(&LifecycleOp::Create));
    assert!(!minimal.supports(&LifecycleOp::Pause));
    assert!(!minimal.supports(&LifecycleOp::Snapshot));
    assert!(!minimal.supports(&LifecycleOp::Fork));
    assert!(!minimal.supports(&LifecycleOp::Resize(resize)));
    let empty = ResourceLifecycleSupport::none();
    assert!(!empty.supports(&LifecycleOp::Create));
}

#[test]
fn quota_validation_bounds() {
    quota().validate().expect("quota validates");
    let zero_cpu = ResourceQuota { max_cpu_millis: 0, ..quota() };
    assert!(zero_cpu.validate().is_err());
    let over_cpu = ResourceQuota { max_cpu_millis: CPU_MILLIS_MAX + 1, ..quota() };
    assert!(over_cpu.validate().is_err());
    let zero_disk = ResourceQuota { max_disk_mib: 0, ..quota() };
    assert!(zero_disk.validate().is_err());
}

#[test]
fn descriptor_validation_accepts_and_serves() {
    let declared = descriptor();
    declared.validate().expect("descriptor validates");
    assert!(declared.serves(ResourceClass::Sandbox));
    assert!(!declared.serves(ResourceClass::RemoteDesktop));
    let capability = declared.capability_for(ResourceClass::Sandbox).expect("sandbox capability");
    assert_eq!(capability.class, ResourceClass::Sandbox);
    assert!(capability.lifecycle.create);
    assert!(!capability.lifecycle.fork);
}

#[test]
fn descriptor_validation_rejects_malformed() {
    let empty = ProviderDescriptor { capabilities: Vec::new(), ..descriptor() };
    let error = empty.validate().expect_err("empty capabilities");
    assert!(matches!(error, ResourceProviderError::InvalidSpec { .. }));
    let duplicated = ProviderDescriptor {
        capabilities: vec![
            ResourceCapability {
                class: ResourceClass::Sandbox,
                lifecycle: ResourceLifecycleSupport::none().with_create(),
                capacity: quota(),
            },
            ResourceCapability {
                class: ResourceClass::Sandbox,
                lifecycle: ResourceLifecycleSupport::none().with_create(),
                capacity: quota(),
            },
        ],
        ..descriptor()
    };
    assert!(duplicated.validate().is_err());
    let regionless = ProviderDescriptor { regions: Vec::new(), ..descriptor() };
    assert!(regionless.validate().is_err());
    let repeated_region = ProviderDescriptor { regions: vec![s("local"), s("local")], ..descriptor() };
    assert!(repeated_region.validate().is_err());
    let verbose_health = ProviderDescriptor {
        health: ProviderHealth { status: ProviderHealthStatus::Degraded, detail: Some("x".repeat(257)), latency_ms: Some(1) },
        ..descriptor()
    };
    assert!(verbose_health.validate().is_err());
    let upper_currency =
        ProviderDescriptor { cost: Some(CostMetadata { currency: s("USD"), per_hour_micros: 1 }), ..descriptor() };
    assert!(upper_currency.validate().is_err());
    let valid_cost =
        ProviderDescriptor { cost: Some(CostMetadata { currency: s("usd"), per_hour_micros: 3_600_000 }), ..descriptor() };
    valid_cost.validate().expect("lowercase currency validates");
}

#[test]
fn descriptor_errors_name_the_first_failing_rule() {
    let duplicated = ProviderDescriptor {
        capabilities: vec![
            ResourceCapability { class: ResourceClass::GpuCompute, lifecycle: ResourceLifecycleSupport::none(), capacity: quota() },
            ResourceCapability { class: ResourceClass::GpuCompute, lifecycle: ResourceLifecycleSupport::none(), capacity: quota() },
        ],
        ..descriptor()
    };
    assert_eq!(
        duplicated.validate(),
        Err(ResourceProviderError::InvalidSpec { reason: s("provider `fixture-declared` declares class `gpuCompute` twice") })
    );
    let repeated_region = ProviderDescriptor { regions: vec![s("eu"), s("us"), s("eu")], ..descriptor() };
    assert_eq!(
        repeated_region.validate(),
        Err(ResourceProviderError::InvalidSpec { reason: s("region `eu` is declared twice") })
    );
    let bad_quota = ProviderDescriptor {
        capabilities: vec![ResourceCapability {
            class: ResourceClass::Sandbox,
            lifecycle: ResourceLifecycleSupport::none(),
            capacity: ResourceQuota { max_memory_mib: MEMORY_MIB_MAX + 1, ..quota() },
        }],
        regions: Vec::new(),
        ..descriptor()
    };
    assert_eq!(
        bad_quota.validate(),
        Err(ResourceProviderError::InvalidSpec { reason: s("quota maxMemoryMiB must be 1..=1048576") })
    );
    let many_regions = ProviderDescriptor { regions: (0..9).map(|i| format!("r{i}")).collect(), ..descriptor() };
    assert_eq!(many_regions.validate(), Err(ResourceProviderError::InvalidSpec { reason: s("providers declare 1..=8 regions") }));
}

#[test]
fn provider_health_status_roundtrips() {
    for status in ProviderHealthStatus::ALL {
        assert_eq!(status, ProviderHealthStatus::parse(status.as_str()).expect("parse health status"));
    }
    assert_eq!(
        ProviderHealthStatus::parse("bogus"),
        Err(ResourceProviderError::InvalidSpec { reason: s("unknown provider health status `bogus`") })
    );
    ProviderHealth::healthy().validate().expect("healthy validates");
    assert!(ProviderHealth { status: ProviderHealthStatus::Healthy, detail: Some(String::new()), latency_ms: None }
        .validate()
        .is_err());
}

#[test]
fn provider_id_rejects_malformed_tokens() {
    for bad in ["", ".", "..", ".hidden", "a..b", "a/b", "a b", "a:b"] {
        let error = ProviderId::parse(s(bad)).expect_err("malformed provider id");
        assert!(
            matches!(error, ResourceProviderError::InvalidIdentifier { .. }),
            "{bad} must fail identifier validation, got {error:?}"
        );
    }
    let id = ProviderId::parse(s("fixture-sandbox-cloud")).expect("valid provider id");
    assert_eq!(id.as_str(), "fixture-sandbox-cloud");
    assert!(ProviderId::parse(s("a.b_c-9")).is_ok());
    assert!(ProviderId::parse(s("trailing.")).is_err());
}

#[test]
fn resource_class_and_status_wire_names_roundtrip() {
    for class in ResourceClass::ALL {
        assert_eq!(class, ResourceClass::parse(class.as_str()).expect("parse wire name"));
    }
    assert_eq!(
        ResourceClass::parse("bogus"),
        Err(ResourceProviderError::InvalidSpec { reason: s("unknown resource class `bogus`") })
    );
    for status in ResourceStatus::ALL {
        assert_eq!(status.is_bindable(), matches!(status, ResourceStatus::Active | ResourceStatus::Paused));
    }
    assert_eq!(ResourceStatus::Released.as_str(), "released");
    assert_eq!(ResourceClass::RemoteDesktop.logical_resource_type(), "remote_desktop_resource");
}

#[test]
fn resource_spec_minimal_validates_and_roundtrips() {
    spec(ResourceClass::Sandbox).validate().expect("minimal spec validates");
}

#[test]
fn resource_spec_rejects_oversized_labels() {
    let mut counted = spec(ResourceClass::PersistentWorkspace);
    for index in 0..=SPEC_LABELS_MAX {
        counted.labels.insert(format!("key{index}"), s("value"));
    }
    let error = counted.validate().expect_err("too many labels");
    assert!(matches!(error, ResourceProviderError::InvalidSpec { .. }));
    let mut keyed = spec(ResourceClass::Sandbox);
    keyed.labels.insert("x".repeat(LABEL_KEY_MAX_BYTES + 1), s("value"));
    assert!(keyed.validate().is_err());
    let mut valued = spec(ResourceClass::Sandbox);
    valued.labels.insert(s("key"), "x".repeat(LABEL_VALUE_MAX_BYTES + 1));
    assert!(valued.validate().is_err());
}

#[test]
fn resource_spec_rejects_out_of_bounds_capacity() {
    type CapacityCase = (Option<u32>, Option<u32>, Option<u64>, Option<u32>);
    let cases: [CapacityCase; 8] = [
        (Some(0), None, None, None),
        (Some(CPU_MILLIS_MAX + 1), None, None, None),
        (None, Some(0), None, None),
        (None, Some(MEMORY_MIB_MAX + 1), None, None),
        (None, None, Some(0), None),
        (None, None, Some(DISK_MIB_MAX + 1), None),
        (None, None, None, Some(0)),
        (None, None, None, Some(GPU_MAX + 1)),
    ];
    for (cpu, memory, disk, gpu) in cases {
        let mut bounded = spec(ResourceClass::GpuCompute);
        bounded.cpu_millis = cpu;
        bounded.memory_mib = memory;
        bounded.disk_mib = disk;
        bounded.gpu = gpu;
        let error = bounded.validate().expect_err("out-of-bounds capacity");
        assert!(matches!(error, ResourceProviderError::InvalidSpec { .. }));
    }
    let mut maximal = spec(ResourceClass::GpuCompute);
    maximal.cpu_millis = Some(CPU_MILLIS_MAX);
    maximal.memory_mib = Some(MEMORY_MIB_MAX);
    maximal.disk_mib = Some(DISK_MIB_MAX);
    maximal.gpu = Some(GPU_MAX);
    maximal.validate().expect("boundary values validate");
}

#[test]
fn resource_spec_rejects_bad_text_and_network_policy() {
    let mut empty_os = spec(ResourceClass::Sandbox);
    empty_os.os = Some(String::new());
    assert!(empty_os.validate().is_err());
    let mut long_region = spec(ResourceClass::Sandbox);
    long_region.region = Some("x".repeat(SPEC_TEXT_MAX_BYTES + 1));
    assert!(long_region.validate().is_err());
    let mut spaced_os = spec(ResourceClass::Sandbox);
    spaced_os.os = Some(s("lin ux"));
    assert!(spaced_os.validate().is_err());
    let mut too_many_hosts = spec(ResourceClass::Sandbox);
    too_many_hosts.network = Some(NetworkPolicy::Restricted {
        allowed_hosts: (0..=NETWORK_HOSTS_MAX).map(|index| format!("host{index}.example.com")).collect(),
    });
    assert!(too_many_hosts.validate().is_err());
    let mut long_host = spec(ResourceClass::Sandbox);
    long_host.network = Some(NetworkPolicy::Restricted { allowed_hosts: vec!["x".repeat(NETWORK_HOST_MAX_BYTES + 1)] });
    assert!(long_host.validate().is_err());
    let mut duplicated = spec(ResourceClass::Sandbox);
    duplicated.network =
        Some(NetworkPolicy::Restricted { allowed_hosts: vec![s("api.example.com"), s("api.example.com")] });
    assert!(duplicated.validate().is_err());
    let mut isolated = spec(ResourceClass::Sandbox);
    isolated.network = Some(NetworkPolicy::Isolated);
    isolated.validate().expect("isolated network policy validates");
}

#[test]
fn resource_spec_errors_name_the_first_failing_rule() {
    let mut both = spec(ResourceClass::Sandbox);
    both.gpu = Some(0);
    both.os = Some(s("lin ux"));
    match both.validate() {
        Err(ResourceProviderError::InvalidSpec { reason }) => assert_eq!(reason, "gpu must be 1..=64"),
        other => panic!("unexpected {other:?}"),
    }
    let mut region = spec(ResourceClass::Sandbox);
    region.region = Some(String::new());
    match region.validate() {
        Err(ResourceProviderError::InvalidSpec { reason }) => {
            assert_eq!(reason, "region must be non-empty ASCII, at most 64 bytes")
        },
        other => panic!("unexpected {other:?}"),
    }
    let mut dup = spec(ResourceClass::Sandbox);
    dup.network = Some(NetworkPolicy::Restricted { allowed_hosts: vec![s("a"), s("b"), s("a")] });
    match dup.validate() {
        Err(ResourceProviderError::InvalidSpec { reason }) => assert_eq!(reason, "network host `a` is listed twice"),
        other => panic!("unexpected {other:?}"),
    }
    let mut ctl = spec(ResourceClass::Sandbox);
    ctl.network = Some(NetworkPolicy::Restricted { allowed_hosts: vec![s("a\u{7}b")] });
    match ctl.validate() {
        Err(ResourceProviderError::InvalidSpec { reason }) => {
            assert_eq!(reason, "network hosts must not contain control characters")
        },
        other => panic!("unexpected {other:?}"),
    }
    let mut open = spec(ResourceClass::Sandbox);
    open.network = Some(NetworkPolicy::Open);
    open.os = Some(s("linux"));
    open.labels.insert(s("team"), s("infra"));
    open.validate().expect("valid spec");
}

#[test]
fn provider_id_parses_and_roundtrips() {
    let id = ProviderId::parse(s("fixture-sandbox-cloud")).expect("valid provider id");
    assert_eq!(id.as_str(), "fixture-sandbox-cloud");
    let again = ProviderId::parse(s(id.as_str())).expect("parse back");
    assert_eq!(again, id);
}

#[test]
fn resource_handle_and_snapshot_roundtrip_credential_free() {
    let handle = ResourceHandle {
        resource: s("sbx-0001"),
        class: ResourceClass::RemoteDesktop,
        provider: ProviderId::parse(s("fixture-sandbox-cloud")).expect("provider id"),
        status: ResourceStatus::Active,
    };
    assert_eq!(handle.clone(), handle);
    assert_eq!(handle.class.as_str(), "remoteDesktop");
    assert_eq!(handle.status.as_str(), "active");
    let snapshot = ResourceSnapshot { resource: s("sbx-0001"), artifact: s("snap-0001") };
    snapshot.validate().expect("snapshot validates");
    let oversize = ResourceSnapshot { resource: s("sbx-0001"), artifact: "x".repeat(SNAPSHOT_ARTIFACT_MAX_BYTES + 1) };
    assert!(oversize.validate().is_err());
}

/// A failure-message bound of the execution contracts' kind.
const MESSAGE_BOUND: usize = 1024;

#[test]
fn normalized_failure_bounds_messages() {
    let invalid = ResourceProviderError::InvalidSpec { reason: s("labels out of bounds") };
    let failure = invalid.normalized_failure(MESSAGE_BOUND);
    assert_eq!(failure.kind, FailureKind::Permanent);
    assert_eq!(failure.message, "invalid resource record: labels out of bounds");

    let verbose = ResourceProviderError::InvalidSpec { reason: "x".repeat(MESSAGE_BOUND + 128) };
    let clamped = verbose.normalized_failure(MESSAGE_BOUND);
    assert!(clamped.message.len() <= MESSAGE_BOUND);
    assert!(clamped.message.ends_with("...[truncated]"));
    assert!(!clamped.message.is_empty());
}

#[test]
fn clamp_cuts_at_a_character_boundary() {
    // 40 bytes: "invalid resource record: " (25) + five 3-byte characters.
    let wide = ResourceProviderError::InvalidSpec { reason: "\u{20ac}".repeat(5) };
    assert_eq!(wide.message().len(), 40);
    assert_eq!(wide.normalized_failure(40).message, wide.message());
    // Bound 39 leaves 25 bytes before the marker: the cut falls right
    // after the separator.
    assert_eq!(wide.normalized_failure(39).message, "invalid resource record: ...[truncated]");
    // 55 bytes; bound 44 leaves 30 bytes: one 3-byte character fits, the
    // next would cross the budget.
    let wider = ResourceProviderError::InvalidSpec { reason: "\u{20ac}".repeat(10) };
    assert_eq!(wider.normalized_failure(44).message, "invalid resource record: \u{20ac}...[truncated]");
    assert_eq!(ResourceProviderError::InvalidSpec { reason: s("ab") }.normalized_failure(14).message, "...[truncated]");
    assert_eq!(
        ResourceProviderError::Unreachable { provider: provider_id(), detail: s("down") }.normalized_failure(1024).kind,
        FailureKind::Unavailable
    );
}

#[test]
fn unsupported_error_names_provider_and_operation() {
    let provider = provider_id();
    let unsupported = ResourceProviderError::Unsupported { provider: provider.clone(), operation: LifecycleOp::Fork };
    let rendered = unsupported.message();
    assert!(rendered.contains("fixture-errors"));
    assert!(rendered.contains("fork"));
    assert_eq!(rendered, "provider `fixture-errors` does not support operation `fork`");

    let lost = ResourceProviderError::ResourceLost { provider, resource: s("sbx-0001") };
    let rendered = lost.message();
    assert!(rendered.contains("fixture-errors"));
    assert!(rendered.contains("sbx-0001"));
    assert_eq!(rendered, "provider `fixture-errors` lost resource `sbx-0001`");
}

#[test]
fn every_error_renders_its_record() {
    assert_eq!(
        ResourceProviderError::CapacityExhausted { provider: provider_id(), detail: s("at most 1 live resources") }.message(),
        "provider `fixture-errors` has no capacity: at most 1 live resources"
    );
    assert_eq!(
        ResourceProviderError::Unreachable { provider: provider_id(), detail: s("outage") }.message(),
        "provider `fixture-errors` is unreachable: outage"
    );
    assert_eq!(
        ResourceProviderError::InvalidIdentifier { kind: "credential env key", value: s("A=B"), reason: "must be a non-empty environment-variable name" }
            .message(),
        "invalid credential env key `A=B`: must be a non-empty environment-variable name"
    );
    assert_eq!(
        ResourceProviderError::ResourceNotBindable { provider: provider_id(), resource: s("sbx-0002"), status: ResourceStatus::Lost }
            .message(),
        "resource `sbx-0002` of provider `fixture-errors` is lost, so the operation does not apply"
    );
}

#[test]
fn snapshots_validate_their_artifact() {
    let snapshot = ResourceSnapshot { resource: s("sbx-0001"), artifact: s("snap-0001") };
    snapshot.validate().expect("snapshot validates");
    let oversize = ResourceSnapshot { resource: s("sbx-0001"), artifact: "x".repeat(SNAPSHOT_ARTIFACT_MAX_BYTES + 1) };
    assert!(oversize.validate().is_err());
    let control = ResourceSnapshot { resource: s("sbx-0001"), artifact: s("snap\n") };
    assert!(control.validate().is_err());
}

#[test]
fn lifecycle_op_names_and_resize_validation() {
    assert_eq!(LifecycleOp::Create.name(), "create");
    assert_eq!(LifecycleOp::Pause.name(), "pause");
    assert_eq!(LifecycleOp::Resume.name(), "resume");
    assert_eq!(LifecycleOp::Snapshot.name(), "snapshot");
    assert_eq!(LifecycleOp::Fork.name(), "fork");
    assert_eq!(LifecycleOp::Resize(ResizeRequest::default()).name(), "resize");
    let empty = ResizeRequest::default();
    let error = empty.validate().expect_err("empty resize");
    assert!(matches!(error, ResourceProviderError::InvalidSpec { .. }));
    let bounded = ResizeRequest { cpu_millis: None, memory_mib: Some(512), disk_mib: None };
    bounded.validate().expect("valid resize");
    let over = ResizeRequest { cpu_millis: Some(0), memory_mib: None, disk_mib: None };
    assert!(over.validate().is_err());
    let transitioned = LifecycleOutcome::Transitioned(handle(ResourceClass::Sandbox, ResourceStatus::Active));
    assert!(transitioned.handle().is_some());
    let snapshotted =
        LifecycleOutcome::Snapshotted(ResourceSnapshot { resource: s("sbx-0001"), artifact: s("snap-0001") });
    assert!(snapshotted.handle().is_none());
}

#[test]
fn failure_kind_mapping_follows_the_recovery_model() {
    let provider = provider_id();
    let lost = ResourceProviderError::ResourceLost { provider: provider.clone(), resource: s("sbx-0000") };
    let exhausted = ResourceProviderError::CapacityExhausted { provider: provider.clone(), detail: s("no live capacity") };
    let unreachable = ResourceProviderError::Unreachable { provider: provider.clone(), detail: s("outage") };
    assert_eq!(lost.failure_kind(), FailureKind::Unavailable);
    assert_eq!(exhausted.failure_kind(), FailureKind::Unavailable);
    assert_eq!(unreachable.failure_kind(), FailureKind::Unavailable);
    let unsupported = ResourceProviderError::Unsupported { provider: provider.clone(), operation: LifecycleOp::Fork };
    let invalid = ResourceProviderError::InvalidSpec { reason: s("labels out of bounds") };
    let not_bindable =
        ResourceProviderError::ResourceNotBindable { provider, resource: s("sbx-0000"), status: ResourceStatus::Provisioning };
    assert_eq!(unsupported.failure_kind(), FailureKind::Permanent);
    assert_eq!(invalid.failure_kind(), FailureKind::Permanent);
    assert_eq!(not_bindable.failure_kind(), FailureKind::Permanent);
}

#[test]
fn rebind_advisable_marks_the_unavailable_family() {
    let lost = ResourceProviderError::ResourceLost { provider: provider_id(), resource: s("sbx-0000") };
    assert!(lost.rebind_advisable());
    let unsupported = ResourceProviderError::Unsupported {
        provider: provider_id(),
        operation: LifecycleOp::Resize(ResizeRequest::default()),
    };
    assert!(!unsupported.rebind_advisable());
}

#[test]
fn registry_credentials_are_references_not_values() {
    let reference = ProviderCredentials::parse_env_key(s("SANDBOX_CLOUD_API_KEY")).expect("env key");
    assert_eq!(reference.env_key_name(), "SANDBOX_CLOUD_API_KEY");
    for bad in [s(""), s("HAS=EQUALS"), s("has space"), "x".repeat(129)] {
        assert!(ProviderCredentials::parse_env_key(bad).is_err(), "malformed env key must be rejected");
    }
    assert!(ProviderCredentials::parse_env_key("x".repeat(128)).is_ok());

    let mut registry = ProviderRegistry::new();
    let sandbox = SandboxCloudFixture::new(2).expect("fixture");
    let id = registry.register_with_credentials(sandbox, reference).expect("register with credentials");
    let stored = registry.credentials(&id).expect("credential reference");
    assert_eq!(stored.env_key_name(), "SANDBOX_CLOUD_API_KEY");
    let rendered = format!("{stored:?}");
    assert!(rendered.contains("SANDBOX_CLOUD_API_KEY"));

    let unknown = ProviderId::parse(s("not-registered")).expect("provider id");
    assert!(registry.credentials(&unknown).is_none());
    assert!(registry.provider(&unknown).is_none());
}

#[test]
fn canonical_binding_surfaces_per_class() {
    let expected = [
        (ResourceClass::Sandbox, "sandbox_compute", ExecutionEnvironment::Terminal),
        (ResourceClass::RemoteDesktop, "remote_desktop_resource", ExecutionEnvironment::Computer),
        (ResourceClass::PersistentWorkspace, "persistent_workspace", ExecutionEnvironment::Terminal),
        (ResourceClass::GpuCompute, "gpu_compute", ExecutionEnvironment::Terminal),
    ];
    for (class, logical_type, holder) in expected {
        let live = handle(class, ResourceStatus::Active);
        let binding = bind(&live).expect("canonical bind");
        assert_eq!(binding.resource_type, logical_type);
        assert_eq!(binding.resource, live.resource);
        assert_eq!(binding.holder, holder_environment(class));
        assert_eq!(binding.holder, holder);
        assert_eq!(canonical_resource_type(class), binding.resource_type);
    }
}

#[test]
fn bind_as_honors_logical_type_with_class_holder() {
    let live = handle(ResourceClass::RemoteDesktop, ResourceStatus::Active);
    let binding = bind_as(&live, s("remote_desktop_session")).expect("bind as");
    assert_eq!(binding.resource_type, "remote_desktop_session");
    assert_eq!(binding.holder, ExecutionEnvironment::Computer);
    assert_eq!(binding.resource, live.resource);
}

#[test]
fn bind_rejects_non_live_handles() {
    for status in [ResourceStatus::Provisioning, ResourceStatus::Released, ResourceStatus::Lost] {
        let stale = handle(ResourceClass::Sandbox, status);
        let error = bind(&stale).expect_err("non-live handle cannot bind");
        assert!(
            matches!(error, ResourceProviderError::ResourceNotBindable { .. }),
            "status {status:?} must be rejected, got {error:?}"
        );
    }
    let paused = handle(ResourceClass::Sandbox, ResourceStatus::Paused);
    bind(&paused).expect("paused resources bind");
}
