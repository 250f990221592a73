use wasmatrix::control_plane::ControlPlane;
use wasmatrix::routing::{
    normalize_endpoint, select_candidate_nodes, InMemoryNodeRoutingRepository, NodeAgentRecord,
};
use wasmatrix::routing_service::{
    apply_status_report, decode_listed_instances, decode_query_response, NodeRoutingService,
};
use wasmatrix::types::{
    CapabilityAssignment, InstanceStatus, ProviderType, QueryInstanceRequest, RestartPolicy,
    StartInstanceRequest,
};
use wasmatrix::wire;

fn wasm_module() -> Vec<u8> {
    vec![0, 97, 115, 109, 1, 0, 0, 0]
}

fn empty_request() -> StartInstanceRequest {
    StartInstanceRequest {
        module_bytes: wasm_module(),
        capabilities: vec![],
        restart_policy: RestartPolicy::default(),
    }
}

fn node(node_id: &str, capabilities: Vec<&str>, active: u32, available: bool) -> NodeAgentRecord {
    NodeAgentRecord {
        node_id: node_id.to_string(),
        node_address: format!("http://127.0.0.1:{}", 50000),
        capabilities: capabilities.into_iter().map(|s| s.to_string()).collect(),
        max_instances: 10,
        active_instances: active,
        last_heartbeat: Some(1_700_000_000),
        available,
    }
}

#[test]
fn property_node_failure_resilience_candidate_selection() {
    for i in 0..100 {
        let request = empty_request();

        let nodes = vec![
            node(&format!("failed-{i}"), vec![], 0, false),
            node(&format!("healthy-{i}"), vec![], 1, true),
        ];

        let selected = select_candidate_nodes(nodes, &request);
        assert_eq!(selected.len(), 1);
        assert!(selected[0].node_id.starts_with("healthy-"));
    }
}

#[test]
fn test_select_candidate_nodes_prefers_lower_load() {
    let request = empty_request();

    let nodes = vec![
        node("node-2", vec![], 5, true),
        node("node-1", vec![], 1, true),
    ];

    let selected = select_candidate_nodes(nodes, &request);
    assert_eq!(selected.first().map(|n| n.node_id.as_str()), Some("node-1"));
}

#[test]
fn test_select_candidate_nodes_filters_by_provider_capability() {
    let request = StartInstanceRequest {
        module_bytes: wasm_module(),
        capabilities: vec![CapabilityAssignment {
            instance_id: "i-1".to_string(),
            capability_id: "http-1".to_string(),
            provider_type: ProviderType::Http,
            permissions: vec!["http:request".to_string()],
        }],
        restart_policy: RestartPolicy::default(),
    };

    let nodes = vec![
        node("node-kv", vec!["kv"], 0, true),
        node("node-http", vec!["http"], 0, true),
    ];

    let selected = select_candidate_nodes(nodes, &request);
    assert_eq!(selected.len(), 1);
    assert_eq!(selected[0].node_id, "node-http");
}

#[test]
fn test_multi_node_distribution_selects_least_loaded() {
    let request = empty_request();

    let nodes = vec![
        node("node-1", vec![], 2, true),
        node("node-2", vec![], 0, true),
    ];

    let selected = select_candidate_nodes(nodes, &request);
    assert_eq!(selected.len(), 2);
    assert_eq!(selected[0].node_id, "node-2");
}

#[test]
fn test_multi_node_failure_handling_excludes_unavailable_nodes() {
    let request = empty_request();

    let nodes = vec![
        node("failing-node", vec![], 0, false),
        node("healthy-node", vec![], 1, true),
    ];

    let selected = select_candidate_nodes(nodes, &request);
    assert_eq!(selected.len(), 1);
    assert_eq!(selected[0].node_id, "healthy-node");
}

#[test]
fn stable_sort_keeps_tied_nodes_in_original_order() {
    let request = empty_request();
    let nodes = vec![
        node("a", vec![], 1, true),
        node("b", vec![], 0, true),
        node("c", vec![], 1, true),
        node("d", vec![], 0, true),
    ];
    let selected = select_candidate_nodes(nodes, &request);
    let ids: Vec<&str> = selected.iter().map(|n| n.node_id.as_str()).collect();
    assert_eq!(ids, vec!["b", "d", "a", "c"]);
}

#[test]
fn universal_node_accepts_any_provider_requirement() {
    // A node advertising no capability tags is universal
    let request = StartInstanceRequest {
        module_bytes: wasm_module(),
        capabilities: vec![CapabilityAssignment {
            instance_id: "i-1".to_string(),
            capability_id: "msg-1".to_string(),
            provider_type: ProviderType::Messaging,
            permissions: vec!["msg:publish".to_string()],
        }],
        restart_policy: RestartPolicy::default(),
    };
    let nodes = vec![node("universal", vec![], 0, true)];
    let selected = select_candidate_nodes(nodes, &request);
    assert_eq!(selected.len(), 1);
}

#[test]
fn full_node_is_not_a_candidate_unless_unlimited() {
    let request = empty_request();
    let mut full = node("full", vec![], 10, true);
    full.max_instances = 10;
    let mut unlimited = node("unlimited", vec![], 10, true);
    unlimited.max_instances = 0;
    let selected = select_candidate_nodes(vec![full, unlimited], &request);
    assert_eq!(selected.len(), 1);
    assert_eq!(selected[0].node_id, "unlimited");
}

#[test]
fn normalize_endpoint_prefixes_scheme() {
    assert_eq!(normalize_endpoint("127.0.0.1:50052"), "http://127.0.0.1:50052");
    assert_eq!(normalize_endpoint("http://x:1"), "http://x:1");
    assert_eq!(normalize_endpoint("https://x:1"), "https://x:1");
}

#[test]
fn test_register_and_lookup_node() {
    let mut repo = InMemoryNodeRoutingRepository::new();
    repo.upsert_node(node("node-1", vec![], 0, true));

    let found = repo.get_node("node-1");
    assert!(found.is_some());
}

#[test]
fn test_assignment_roundtrip() {
    let mut repo = InMemoryNodeRoutingRepository::new();
    repo.assign_instance("instance-1".to_string(), "node-1".to_string());

    let node_id = repo.lookup_instance_node("instance-1");
    assert_eq!(node_id.as_deref(), Some("node-1"));

    let removed = repo.remove_instance_assignment("instance-1");
    assert_eq!(removed.as_deref(), Some("node-1"));
}

#[test]
fn test_provider_metadata_stored_separately_from_instances() {
    let mut repo = InMemoryNodeRoutingRepository::new();

    repo.upsert_provider_metadata(wasmatrix::routing::ProviderMetadata {
        provider_id: "kv-provider-1".to_string(),
        provider_type: "kv".to_string(),
        node_id: "node-1".to_string(),
        last_updated: 1_700_000_000,
    });

    repo.assign_instance("instance-1".to_string(), "node-1".to_string());

    let providers = repo.list_provider_metadata();
    let assignment_node = repo.lookup_instance_node("instance-1");

    assert_eq!(providers.len(), 1);
    assert_eq!(providers[0].provider_id, "kv-provider-1");
    assert_eq!(assignment_node.as_deref(), Some("node-1"));
}

#[test]
fn register_node_normalizes_address_and_resets_state() {
    let mut service = NodeRoutingService::new(InMemoryNodeRoutingRepository::new());
    service
        .register_node(
            "node-1".to_string(),
            "127.0.0.1:50052".to_string(),
            vec![],
            10,
        )
        .unwrap();
    let record = service.repo.get_node("node-1").unwrap();
    assert_eq!(record.node_address, "http://127.0.0.1:50052");
    assert_eq!(record.active_instances, 0);
    assert!(record.available);
    assert!(record.last_heartbeat.is_some());
}

#[test]
fn test_register_node_persists_etcd_metadata_when_enabled() {
    let mut service = NodeRoutingService::new_with_etcd(
        InMemoryNodeRoutingRepository::new(),
        wasmatrix::etcd::EtcdMetadataRepository::new(),
    );

    service
        .register_node(
            "node-1".to_string(),
            "127.0.0.1:50052".to_string(),
            vec![],
            10,
        )
        .unwrap();

    let keys = service.etcd_metadata_repo.as_ref().unwrap().keys();
    assert!(keys.iter().any(|k| k.starts_with("/wasmatrix/nodes/")));
    assert!(!keys.iter().any(|k| k.contains("/instances/")));
}

#[test]
fn test_register_provider_metadata_persists_etcd_metadata_when_enabled() {
    let mut service = NodeRoutingService::new_with_etcd(
        InMemoryNodeRoutingRepository::new(),
        wasmatrix::etcd::EtcdMetadataRepository::new(),
    );

    service
        .register_provider_metadata(
            "provider-kv-1".to_string(),
            "kv".to_string(),
            "node-1".to_string(),
        )
        .unwrap();

    let keys = service.etcd_metadata_repo.as_ref().unwrap().keys();
    assert!(keys.iter().any(|k| k.starts_with("/wasmatrix/providers/")));
    assert!(!keys.iter().any(|k| k.contains("/instances/")));
}

#[test]
fn test_recover_node_state_applies_instance_statuses() {
    let mut service = NodeRoutingService::new(InMemoryNodeRoutingRepository::new());
    let mut control_plane = ControlPlane::new("cp-node");

    service
        .register_node(
            "node-1".to_string(),
            "127.0.0.1:50052".to_string(),
            vec![],
            10,
        )
        .unwrap();

    let recovered_instances = vec![
        wire::InstanceMetadata {
            instance_id: "inst-a".to_string(),
            node_id: "node-1".to_string(),
            module_hash: "hash-a".to_string(),
            created_at: 1_700_000_000,
            status: 2, // Running
        },
        wire::InstanceMetadata {
            instance_id: "inst-b".to_string(),
            node_id: "node-1".to_string(),
            module_hash: "hash-b".to_string(),
            created_at: 1_700_000_001,
            status: 3, // Stopped
        },
    ];

    let recovered = service
        .apply_recovered_instances("node-1", recovered_instances, &mut control_plane)
        .unwrap();
    assert_eq!(recovered, 2);

    let inst_a = control_plane
        .query_instance(QueryInstanceRequest {
            instance_id: "inst-a".to_string(),
        })
        .unwrap();
    let inst_b = control_plane
        .query_instance(QueryInstanceRequest {
            instance_id: "inst-b".to_string(),
        })
        .unwrap();
    assert_eq!(inst_a.status, InstanceStatus::Running);
    assert_eq!(inst_b.status, InstanceStatus::Stopped);

    // Only the running instance counts as active on the node
    let record = service.repo.get_node("node-1").unwrap();
    assert_eq!(record.active_instances, 1);

    // The assignments point back at the node
    assert_eq!(
        service.repo.lookup_instance_node("inst-a").as_deref(),
        Some("node-1")
    );
}

#[test]
fn recovery_rejects_unspecified_status_wholesale() {
    let mut service = NodeRoutingService::new(InMemoryNodeRoutingRepository::new());
    let mut control_plane = ControlPlane::new("cp-node");
    service
        .register_node("node-1".to_string(), "127.0.0.1:1".to_string(), vec![], 10)
        .unwrap();

    let result = service.apply_recovered_instances(
        "node-1",
        vec![wire::InstanceMetadata {
            instance_id: "inst-a".to_string(),
            node_id: "node-1".to_string(),
            module_hash: "hash-a".to_string(),
            created_at: 1,
            status: 0, // Unspecified
        }],
        &mut control_plane,
    );
    assert!(result.is_err());
    assert!(control_plane.get_instance("inst-a").is_none());
}

#[test]
fn dispatch_bookkeeping_for_start_stop_and_failures() {
    let mut service = NodeRoutingService::new(InMemoryNodeRoutingRepository::new());
    service
        .register_node("node-1".to_string(), "127.0.0.1:1".to_string(), vec![], 10)
        .unwrap();

    // A successful start assigns and loads the node
    service
        .apply_start_success("instance-1".to_string(), "node-1")
        .unwrap();
    let record = service.repo.get_node("node-1").unwrap();
    assert_eq!(record.active_instances, 1);
    assert!(record.available);
    assert_eq!(
        service.repo.lookup_instance_node("instance-1").as_deref(),
        Some("node-1")
    );

    // A transport failure downgrades liveness
    service.apply_transport_failure("node-1");
    assert!(!service.repo.get_node("node-1").unwrap().available);

    // A successful stop removes the assignment and unloads the node
    service.apply_stop_success("instance-1").unwrap();
    assert_eq!(service.repo.get_node("node-1").unwrap().active_instances, 0);
    assert!(service.repo.lookup_instance_node("instance-1").is_none());

    // Stopping an unassigned instance is not found
    assert!(service.apply_stop_success("instance-1").is_err());
}

#[test]
fn heartbeat_updates_liveness_and_timestamp() {
    let mut service = NodeRoutingService::new(InMemoryNodeRoutingRepository::new());
    service
        .register_node("node-1".to_string(), "127.0.0.1:1".to_string(), vec![], 10)
        .unwrap();
    service.apply_transport_failure("node-1");
    assert!(!service.repo.get_node("node-1").unwrap().available);

    service.record_status_report("node-1", 1_700_000_123).unwrap();
    let record = service.repo.get_node("node-1").unwrap();
    assert!(record.available);
    assert_eq!(record.last_heartbeat, Some(1_700_000_123));

    // Negative timestamps are invalid; unknown nodes are not found
    assert!(service.record_status_report("node-1", -5).is_err());
    assert!(service.record_status_report("ghost", 1).is_err());
}

#[test]
fn status_report_sequence_ends_stopped() {
    // Register a node, start an instance, then report Starting, Running,
    // Crashed, Stopped in order: the final status is Stopped.
    let mut control_plane = ControlPlane::new("cp-node");
    let mut routing = NodeRoutingService::new(InMemoryNodeRoutingRepository::new());
    routing
        .register_node(
            "node-1".to_string(),
            "127.0.0.1:50052".to_string(),
            vec![],
            100,
        )
        .unwrap();

    let instance_id = control_plane
        .start_instance(StartInstanceRequest {
            module_bytes: wasm_module(),
            capabilities: vec![],
            restart_policy: RestartPolicy::default(),
        })
        .unwrap();

    for (i, status) in [1, 2, 4, 3].into_iter().enumerate() {
        let report = wire::StatusReport {
            node_id: "node-1".to_string(),
            instance_updates: vec![wire::InstanceStatusUpdate {
                instance_id: instance_id.clone(),
                status,
                error_message: None,
            }],
            timestamp: 1_700_000_000 + i as i64,
        };
        apply_status_report(&mut control_plane, &mut routing, &report).unwrap();
    }

    let final_status = control_plane
        .query_instance(QueryInstanceRequest {
            instance_id: instance_id.clone(),
        })
        .unwrap()
        .status;
    assert_eq!(final_status, InstanceStatus::Stopped);
}

#[test]
fn status_report_rejects_invalid_status_code() {
    let mut control_plane = ControlPlane::new("cp-node");
    let mut routing = NodeRoutingService::new(InMemoryNodeRoutingRepository::new());
    routing
        .register_node("node-1".to_string(), "127.0.0.1:1".to_string(), vec![], 10)
        .unwrap();

    let report = wire::StatusReport {
        node_id: "node-1".to_string(),
        instance_updates: vec![wire::InstanceStatusUpdate {
            instance_id: "instance-1".to_string(),
            status: 9999,
            error_message: Some("bad".to_string()),
        }],
        timestamp: 1_700_000_000,
    };
    assert!(apply_status_report(&mut control_plane, &mut routing, &report).is_err());
}

#[test]
fn status_report_skips_unknown_instances() {
    let mut control_plane = ControlPlane::new("cp-node");
    let mut routing = NodeRoutingService::new(InMemoryNodeRoutingRepository::new());
    routing
        .register_node("node-1".to_string(), "127.0.0.1:1".to_string(), vec![], 10)
        .unwrap();

    let report = wire::StatusReport {
        node_id: "node-1".to_string(),
        instance_updates: vec![wire::InstanceStatusUpdate {
            instance_id: "unknown-instance".to_string(),
            status: 2,
            error_message: None,
        }],
        timestamp: 1_700_000_000,
    };
    // Unknown instance ids are skipped, not fatal
    assert!(apply_status_report(&mut control_plane, &mut routing, &report).is_ok());
}

#[test]
fn query_response_decoding_covers_every_outcome() {
    // A logical failure keeps its error code
    let failed = wire::QueryInstanceResponse {
        success: false,
        instance: None,
        error_code: Some("BOOM".to_string()),
    };
    assert!(decode_query_response(failed, "i-1").is_err());

    // Success without a record is not found
    let empty = wire::QueryInstanceResponse {
        success: true,
        instance: None,
        error_code: None,
    };
    assert!(decode_query_response(empty, "i-1").is_err());

    // An unspecified status is invalid
    let bad_status = wire::QueryInstanceResponse {
        success: true,
        instance: Some(wire::InstanceMetadata {
            instance_id: "i-1".to_string(),
            node_id: "node-1".to_string(),
            module_hash: "h".to_string(),
            created_at: 5,
            status: 0,
        }),
        error_code: None,
    };
    assert!(decode_query_response(bad_status, "i-1").is_err());

    // A good answer decodes exactly
    let good = wire::QueryInstanceResponse {
        success: true,
        instance: Some(wire::InstanceMetadata {
            instance_id: "i-1".to_string(),
            node_id: "node-1".to_string(),
            module_hash: "h".to_string(),
            created_at: 5,
            status: 2,
        }),
        error_code: None,
    };
    let resp = decode_query_response(good, "i-1").unwrap();
    assert_eq!(resp.instance_id, "i-1");
    assert_eq!(resp.node_id, "node-1");
    assert_eq!(resp.created_at, 5);
    assert_eq!(resp.status, InstanceStatus::Running);
}

#[test]
fn listed_instances_skip_undecodable_records() {
    let response = wire::ListInstancesResponse {
        success: true,
        instances: vec![
            wire::InstanceMetadata {
                instance_id: "ok-1".to_string(),
                node_id: "node-1".to_string(),
                module_hash: "h".to_string(),
                created_at: 1,
                status: 2,
            },
            wire::InstanceMetadata {
                instance_id: "bad-status".to_string(),
                node_id: "node-1".to_string(),
                module_hash: "h".to_string(),
                created_at: 1,
                status: 0,
            },
            wire::InstanceMetadata {
                instance_id: "bad-time".to_string(),
                node_id: "node-1".to_string(),
                module_hash: "h".to_string(),
                created_at: -1,
                status: 2,
            },
            wire::InstanceMetadata {
                instance_id: "ok-2".to_string(),
                node_id: "node-1".to_string(),
                module_hash: "h".to_string(),
                created_at: 2,
                status: 3,
            },
        ],
    };
    let decoded = decode_listed_instances(&response);
    assert_eq!(decoded.len(), 2);
    assert_eq!(decoded[0].instance_id, "ok-1");
    assert_eq!(decoded[1].instance_id, "ok-2");
    assert_eq!(decoded[1].status, InstanceStatus::Stopped);
}
