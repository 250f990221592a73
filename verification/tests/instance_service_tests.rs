use wasmatrix::capability::{CapabilityRegistry, PermissionEnforcer};
use wasmatrix::instance_service::{InMemoryInstanceRepository, InstanceService};
use wasmatrix::types::{
    CapabilityAssignment, InstanceStatus, ProviderType, QueryInstanceRequest, RestartPolicy,
    StartInstanceRequest, StopInstanceRequest,
};

fn create_test_service() -> InstanceService {
    InstanceService::new(InMemoryInstanceRepository::new(), "test-node")
}

fn create_valid_wasm_module() -> Vec<u8> {
    vec![0x00, 0x61, 0x73, 0x6d, 0x01, 0x00, 0x00, 0x00]
}

fn start_request() -> StartInstanceRequest {
    StartInstanceRequest {
        module_bytes: create_valid_wasm_module(),
        capabilities: vec![],
        restart_policy: RestartPolicy::default(),
    }
}

#[test]
fn service_start_instance_success() {
    let mut service = create_test_service();
    let instance_id = service.start_instance(start_request()).unwrap();
    assert!(!instance_id.is_empty());
}

#[test]
fn service_start_instance_invalid_wasm() {
    let mut service = create_test_service();
    let request = StartInstanceRequest {
        module_bytes: vec![0x00, 0x00, 0x00, 0x00],
        capabilities: vec![],
        restart_policy: RestartPolicy::default(),
    };
    assert!(service.start_instance(request).is_err());
}

#[test]
fn service_start_instance_empty_module() {
    let mut service = create_test_service();
    let request = StartInstanceRequest {
        module_bytes: vec![],
        capabilities: vec![],
        restart_policy: RestartPolicy::default(),
    };
    assert!(service.start_instance(request).is_err());
}

#[test]
fn service_module_size_cap_is_resource_exhaustion() {
    // A well-formed module over 10 MiB is refused as resource exhaustion.
    let mut bytes = vec![0x00, 0x61, 0x73, 0x6d];
    bytes.resize(10 * 1024 * 1024 + 1, 0);
    let result = InstanceService::validate_wasm_module(&bytes);
    assert!(matches!(
        result,
        Err(wasmatrix::error::ControlPlaneError::ResourceExhausted(_))
    ));

    // Exactly at the cap is accepted
    let mut at_cap = vec![0x00, 0x61, 0x73, 0x6d];
    at_cap.resize(10 * 1024 * 1024, 0);
    assert!(InstanceService::validate_wasm_module(&at_cap).is_ok());
}

#[test]
fn service_stop_instance_lifecycle() {
    let mut service = create_test_service();
    let instance_id = service.start_instance(start_request()).unwrap();

    service
        .stop_instance(StopInstanceRequest {
            instance_id: instance_id.clone(),
        })
        .unwrap();

    let response = service
        .query_instance(QueryInstanceRequest {
            instance_id: instance_id.clone(),
        })
        .unwrap();
    assert_eq!(response.status, InstanceStatus::Stopped);
}

#[test]
fn service_stop_instance_not_found() {
    let mut service = create_test_service();
    let result = service.stop_instance(StopInstanceRequest {
        instance_id: "nonexistent".to_string(),
    });
    assert!(result.is_err());
}

#[test]
fn service_stop_instance_empty_id() {
    let mut service = create_test_service();
    let result = service.stop_instance(StopInstanceRequest {
        instance_id: "".to_string(),
    });
    assert!(result.is_err());
}

#[test]
fn service_query_instance_empty_id() {
    let service = create_test_service();
    let result = service.query_instance(QueryInstanceRequest {
        instance_id: "".to_string(),
    });
    assert!(result.is_err());
}

#[test]
fn service_query_instance_not_found() {
    let service = create_test_service();
    let result = service.query_instance(QueryInstanceRequest {
        instance_id: "nonexistent".to_string(),
    });
    assert!(result.is_err());
}

#[test]
fn service_list_instances() {
    let mut service = create_test_service();
    for _ in 0..3 {
        service.start_instance(start_request()).unwrap();
    }
    let list = service.list_instances().unwrap();
    assert_eq!(list.len(), 3);
}

#[test]
fn service_list_instances_empty() {
    let service = create_test_service();
    let list = service.list_instances().unwrap();
    assert_eq!(list.len(), 0);
}

#[test]
fn service_full_lifecycle() {
    let mut service = create_test_service();

    let instance_id = service.start_instance(start_request()).unwrap();

    let query_response = service
        .query_instance(QueryInstanceRequest {
            instance_id: instance_id.clone(),
        })
        .unwrap();
    assert_eq!(query_response.status, InstanceStatus::Starting);

    service
        .update_status(&instance_id, InstanceStatus::Running)
        .unwrap();

    let query_response2 = service
        .query_instance(QueryInstanceRequest {
            instance_id: instance_id.clone(),
        })
        .unwrap();
    assert_eq!(query_response2.status, InstanceStatus::Running);

    service
        .stop_instance(StopInstanceRequest {
            instance_id: instance_id.clone(),
        })
        .unwrap();

    let query_response3 = service
        .query_instance(QueryInstanceRequest {
            instance_id: instance_id.clone(),
        })
        .unwrap();
    assert_eq!(query_response3.status, InstanceStatus::Stopped);
}

#[test]
fn service_update_status_not_found() {
    let mut service = create_test_service();
    let result = service.update_status("nonexistent", InstanceStatus::Stopped);
    assert!(result.is_err());
}

#[test]
fn permission_denied_for_unpermissioned_capability() {
    // Assign capability "http-x" with no permissions; an invocation of
    // operation "request" is denied for want of http:request.
    let mut registry = CapabilityRegistry::new();
    registry.register_provider("http-x", ProviderType::Http);
    registry
        .assign_capability(CapabilityAssignment::new(
            "instance-1".to_string(),
            "http-x".to_string(),
            ProviderType::Http,
            vec![],
        ))
        .unwrap();

    assert!(registry.has_capability("instance-1", "http-x"));
    assert_eq!(
        PermissionEnforcer::required_permission(ProviderType::Http, "request"),
        Some("http:request")
    );
    let result = PermissionEnforcer::enforce(
        &registry,
        "instance-1",
        "http-x",
        ProviderType::Http,
        "request",
    );
    assert!(result.is_err());
}
