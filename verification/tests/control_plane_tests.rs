use wasmatrix::control_plane::ControlPlane;
use wasmatrix::types::{
    CapabilityAssignment, InstanceStatus, ProviderType, QueryInstanceRequest, RestartPolicy,
    StartInstanceRequest, StopInstanceRequest,
};

fn create_valid_wasm_module() -> Vec<u8> {
    // Minimal valid Wasm module (magic bytes + version)
    vec![0x00, 0x61, 0x73, 0x6d, 0x01, 0x00, 0x00, 0x00]
}

fn start_request() -> StartInstanceRequest {
    StartInstanceRequest {
        module_bytes: create_valid_wasm_module(),
        capabilities: vec![],
        restart_policy: RestartPolicy::default(),
    }
}

#[test]
fn test_start_instance_success() {
    let mut cp = ControlPlane::new("node-1");
    let instance_id = cp.start_instance(start_request()).unwrap();
    assert!(!instance_id.is_empty());
    assert!(cp.get_instance(&instance_id).is_some());
}

#[test]
fn test_start_instance_empty_module() {
    let mut cp = ControlPlane::new("node-1");
    let request = StartInstanceRequest {
        module_bytes: vec![],
        capabilities: vec![],
        restart_policy: RestartPolicy::default(),
    };

    let result = cp.start_instance(request);
    assert!(result.is_err());
    assert_eq!(result.unwrap_err().error_code, "INVALID_REQUEST");
}

#[test]
fn test_start_instance_invalid_wasm() {
    let mut cp = ControlPlane::new("node-1");
    let request = StartInstanceRequest {
        module_bytes: vec![0x00, 0x00, 0x00, 0x00],
        capabilities: vec![],
        restart_policy: RestartPolicy::default(),
    };

    let result = cp.start_instance(request);
    assert!(result.is_err());
    assert_eq!(result.unwrap_err().error_code, "INVALID_REQUEST");
}

#[test]
fn test_stop_instance_success() {
    let mut cp = ControlPlane::new("node-1");
    let instance_id = cp.start_instance(start_request()).unwrap();
    let stop_request = StopInstanceRequest {
        instance_id: instance_id.clone(),
    };

    cp.stop_instance(stop_request).unwrap();
    assert_eq!(
        cp.get_instance(&instance_id).unwrap().status,
        InstanceStatus::Stopped
    );
}

#[test]
fn test_stop_instance_not_found() {
    let mut cp = ControlPlane::new("node-1");
    let request = StopInstanceRequest {
        instance_id: "non-existent".to_string(),
    };

    let result = cp.stop_instance(request);
    assert!(result.is_err());
    assert_eq!(result.unwrap_err().error_code, "INSTANCE_NOT_FOUND");
}

#[test]
fn test_query_instance_success() {
    let mut cp = ControlPlane::new("node-1");
    let instance_id = cp.start_instance(start_request()).unwrap();
    let query_request = QueryInstanceRequest {
        instance_id: instance_id.clone(),
    };

    let response = cp.query_instance(query_request).unwrap();
    assert_eq!(response.instance_id, instance_id);
}

#[test]
fn test_query_instance_not_found() {
    let cp = ControlPlane::new("node-1");
    let request = QueryInstanceRequest {
        instance_id: "non-existent".to_string(),
    };

    let result = cp.query_instance(request);
    assert!(result.is_err());
    assert_eq!(result.unwrap_err().error_code, "INSTANCE_NOT_FOUND");
}

#[test]
fn test_assign_capability_success() {
    let mut cp = ControlPlane::new("node-1");
    let instance_id = cp.start_instance(start_request()).unwrap();
    let assignment = CapabilityAssignment::new(
        instance_id.clone(),
        "kv-1".to_string(),
        ProviderType::Kv,
        vec!["kv:read".to_string(), "kv:write".to_string()],
    );

    cp.assign_capability(assignment).unwrap();
    let capabilities = cp.get_capabilities(&instance_id).unwrap();
    assert_eq!(capabilities.len(), 1);
    assert_eq!(capabilities[0].capability_id, "kv-1");
}

#[test]
fn test_revoke_capability_success() {
    let mut cp = ControlPlane::new("node-1");
    let instance_id = cp.start_instance(start_request()).unwrap();
    let assignment = CapabilityAssignment::new(
        instance_id.clone(),
        "kv-1".to_string(),
        ProviderType::Kv,
        vec!["kv:read".to_string()],
    );

    cp.assign_capability(assignment).unwrap();
    cp.revoke_capability(&instance_id, "kv-1").unwrap();

    assert!(cp.get_capabilities(&instance_id).is_none());
}

#[test]
fn test_list_instances() {
    let mut cp = ControlPlane::new("node-1");

    // Start multiple instances
    for _ in 0..3 {
        cp.start_instance(start_request()).unwrap();
    }

    let instances = cp.list_instances();
    assert_eq!(instances.len(), 3);
}

#[test]
fn test_record_instance_crash_success() {
    let mut cp = ControlPlane::new("node-1");
    let instance_id = cp.start_instance(start_request()).unwrap();

    // Record crash
    let result = cp.record_instance_crash(&instance_id, "test error");
    assert!(result.is_ok());

    // Verify instance is marked as crashed
    assert!(cp.is_instance_crashed(&instance_id));
    assert_eq!(
        cp.get_instance(&instance_id).unwrap().status,
        InstanceStatus::Crashed
    );

    // Verify crash event was recorded
    let events = cp.get_execution_events_for_instance(&instance_id);
    assert_eq!(events.len(), 1); // only crash event
    assert_eq!(events[0].event_type, "instance_crashed");
}

#[test]
fn test_record_instance_crash_not_found() {
    let mut cp = ControlPlane::new("node-1");

    let result = cp.record_instance_crash("non-existent", "test error");
    assert!(result.is_err());
    assert_eq!(result.unwrap_err().error_code, "INSTANCE_NOT_FOUND");
}

#[test]
fn test_handle_crash_recovery_success() {
    let mut cp = ControlPlane::new("node-1");
    let instance_id = cp.start_instance(start_request()).unwrap();

    // Record crash first
    cp.record_instance_crash(&instance_id, "test error").unwrap();
    assert!(cp.is_instance_crashed(&instance_id));

    // Handle recovery
    let result = cp.handle_crash_recovery(&instance_id);
    assert!(result.is_ok());

    // Verify instance is no longer marked as crashed
    assert!(!cp.is_instance_crashed(&instance_id));
    assert_eq!(
        cp.get_instance(&instance_id).unwrap().status,
        InstanceStatus::Starting
    );

    // Verify restart event was recorded (crash + restart events)
    let events = cp.get_execution_events_for_instance(&instance_id);
    assert_eq!(events.len(), 2); // crash + restart
    assert_eq!(events[0].event_type, "instance_crashed");
    assert_eq!(events[1].event_type, "instance_restarted");
}

#[test]
fn test_handle_crash_recovery_not_found() {
    let mut cp = ControlPlane::new("node-1");

    let result = cp.handle_crash_recovery("non-existent");
    assert!(result.is_err());
    assert_eq!(result.unwrap_err().error_code, "INSTANCE_NOT_FOUND");
}

#[test]
fn test_crash_recovery_preserves_capabilities() {
    let mut cp = ControlPlane::new("node-1");
    let instance_id = cp.start_instance(start_request()).unwrap();

    // Add capability assignment
    let assignment = CapabilityAssignment::new(
        instance_id.clone(),
        "kv-1".to_string(),
        ProviderType::Kv,
        vec!["kv:read".to_string(), "kv:write".to_string()],
    );
    cp.assign_capability(assignment).unwrap();

    // Record crash
    cp.record_instance_crash(&instance_id, "test error").unwrap();

    // Handle recovery
    cp.handle_crash_recovery(&instance_id).unwrap();

    // Verify capability assignments are preserved
    let capabilities = cp.get_capabilities(&instance_id).unwrap();
    assert_eq!(capabilities.len(), 1);
    assert_eq!(capabilities[0].capability_id, "kv-1");
    assert!(capabilities[0].has_permission("kv:read"));
    assert!(capabilities[0].has_permission("kv:write"));
}

#[test]
fn test_system_state_preserved_during_crash() {
    let mut cp = ControlPlane::new("node-1");

    // Start multiple instances
    let instance_ids: Vec<String> = (0..3)
        .map(|_| cp.start_instance(start_request()).unwrap())
        .collect();

    // Crash one instance
    cp.record_instance_crash(&instance_ids[1], "test error").unwrap();

    // Verify other instances are unaffected
    assert!(!cp.is_instance_crashed(&instance_ids[0]));
    assert!(cp.is_instance_crashed(&instance_ids[1]));
    assert!(!cp.is_instance_crashed(&instance_ids[2]));

    // Verify all instances still exist
    assert_eq!(cp.list_instances().len(), 3);
}

#[test]
fn test_query_instance_empty_id() {
    let cp = ControlPlane::new("node-1");
    let request = QueryInstanceRequest {
        instance_id: "".to_string(),
    };

    let result = cp.query_instance(request);
    assert!(result.is_err());
    assert_eq!(result.unwrap_err().error_code, "INVALID_REQUEST");
}

#[test]
fn test_stop_instance_empty_id() {
    let mut cp = ControlPlane::new("node-1");
    let request = StopInstanceRequest {
        instance_id: "".to_string(),
    };

    let result = cp.stop_instance(request);
    assert!(result.is_err());
    assert_eq!(result.unwrap_err().error_code, "INVALID_REQUEST");
}

#[test]
fn test_assign_capability_empty_instance_id() {
    let mut cp = ControlPlane::new("node-1");
    let assignment = CapabilityAssignment::new(
        "".to_string(),
        "kv-1".to_string(),
        ProviderType::Kv,
        vec!["kv:read".to_string()],
    );

    let result = cp.assign_capability(assignment);
    assert!(result.is_err());
    assert_eq!(result.unwrap_err().error_code, "INSTANCE_NOT_FOUND");
}

#[test]
fn test_assign_capability_empty_capability_id() {
    let mut cp = ControlPlane::new("node-1");
    let instance_id = cp.start_instance(start_request()).unwrap();
    let assignment = CapabilityAssignment::new(
        instance_id.clone(),
        "".to_string(),
        ProviderType::Kv,
        vec!["kv:read".to_string()],
    );

    let result = cp.assign_capability(assignment);
    assert!(result.is_err());
    assert_eq!(result.unwrap_err().error_code, "INVALID_REQUEST");
}

#[test]
fn test_assign_capability_empty_permissions() {
    let mut cp = ControlPlane::new("node-1");
    let instance_id = cp.start_instance(start_request()).unwrap();
    let assignment = CapabilityAssignment::new(
        instance_id.clone(),
        "kv-1".to_string(),
        ProviderType::Kv,
        vec![],
    );

    let result = cp.assign_capability(assignment);
    assert!(result.is_err());
    assert_eq!(result.unwrap_err().error_code, "INVALID_REQUEST");
}

#[test]
fn test_revoke_capability_empty_instance_id() {
    let mut cp = ControlPlane::new("node-1");

    let result = cp.revoke_capability("", "kv-1");
    assert!(result.is_err());
    assert_eq!(result.unwrap_err().error_code, "INVALID_REQUEST");
}

#[test]
fn test_revoke_capability_empty_capability_id() {
    let mut cp = ControlPlane::new("node-1");
    let instance_id = cp.start_instance(start_request()).unwrap();

    let result = cp.revoke_capability(&instance_id, "");
    assert!(result.is_err());
    assert_eq!(result.unwrap_err().error_code, "INVALID_REQUEST");
}

#[test]
fn test_revoke_capability_instance_not_found() {
    let mut cp = ControlPlane::new("node-1");

    let result = cp.revoke_capability("non-existent", "kv-1");
    assert!(result.is_err());
    assert_eq!(result.unwrap_err().error_code, "INSTANCE_NOT_FOUND");
}

#[test]
fn test_error_response_invalid_request() {
    let error = wasmatrix::types::ErrorResponse::new("INVALID_REQUEST", "Test invalid request");
    assert_eq!(error.error_code, "INVALID_REQUEST");
    assert_eq!(error.message, "Test invalid request");
}

#[test]
fn test_error_response_instance_not_found() {
    let error = wasmatrix::types::ErrorResponse::new("INSTANCE_NOT_FOUND", "Instance xyz not found");
    assert_eq!(error.error_code, "INSTANCE_NOT_FOUND");
    assert_eq!(error.message, "Instance xyz not found");
}

#[test]
fn test_error_response_with_details() {
    let mut details: wasmatrix::strmap::StrMap<String> = wasmatrix::strmap::StrMap::new();
    details.insert("field".to_string(), "instance_id".to_string());
    details.insert("value".to_string(), "invalid-id".to_string());

    let error = wasmatrix::types::ErrorResponse::new("VALIDATION_ERROR", "Invalid field")
        .with_details(details);
    assert_eq!(error.error_code, "VALIDATION_ERROR");
    assert!(error.details.is_some());

    let details = error.details.unwrap();
    assert_eq!(details.get("field"), Some(&"instance_id".to_string()));
    assert_eq!(details.get("value"), Some(&"invalid-id".to_string()));
}

#[test]
fn test_all_error_codes_exist() {
    // Verify all required error codes are representable
    let error_codes = vec![
        "INVALID_REQUEST",
        "INSTANCE_NOT_FOUND",
        "CAPABILITY_NOT_FOUND",
        "PERMISSION_DENIED",
        "STORAGE_ERROR",
        "VALIDATION_ERROR",
        "WASM_RUNTIME_ERROR",
        "RESOURCE_EXHAUSTED",
        "TIMEOUT",
        "CRASH_DETECTED",
        "RESTART_POLICY_VIOLATION",
    ];

    for code in error_codes {
        let error = wasmatrix::types::ErrorResponse::new(code, "test message");
        assert_eq!(error.error_code, code);
    }
}

#[test]
fn test_error_handling_cascade() {
    let mut cp = ControlPlane::new("node-1");

    // Try to stop non-existent instance
    let result = cp.stop_instance(StopInstanceRequest {
        instance_id: "non-existent".to_string(),
    });
    assert!(result.is_err());
    let err = result.unwrap_err();
    assert_eq!(err.error_code, "INSTANCE_NOT_FOUND");
    assert!(err.timestamp >= 0); // Verify timestamp is set

    // Try to query non-existent instance
    let result = cp.query_instance(QueryInstanceRequest {
        instance_id: "non-existent".to_string(),
    });
    assert!(result.is_err());
    assert_eq!(result.unwrap_err().error_code, "INSTANCE_NOT_FOUND");
}

#[test]
fn property_instance_lifecycle_start_stop_query() {
    let mut cp = ControlPlane::new("node-1");

    let instance_id = cp.start_instance(start_request()).unwrap();

    // Query should return the instance
    let query_result = cp.query_instance(QueryInstanceRequest {
        instance_id: instance_id.clone(),
    });
    assert!(query_result.is_ok());
    assert_eq!(query_result.unwrap().instance_id, instance_id);

    // Stop the instance
    cp.stop_instance(StopInstanceRequest {
        instance_id: instance_id.clone(),
    })
    .unwrap();

    // Query should still return the instance (with Stopped status)
    let query_result = cp.query_instance(QueryInstanceRequest {
        instance_id: instance_id.clone(),
    });
    assert!(query_result.is_ok());
    assert_eq!(query_result.unwrap().status, InstanceStatus::Stopped);
}

#[test]
fn property_multiple_instances_independent() {
    let mut cp = ControlPlane::new("node-1");
    let mut instance_ids = Vec::new();

    // Start multiple instances
    for _ in 0..5 {
        instance_ids.push(cp.start_instance(start_request()).unwrap());
    }

    // Stop middle instance
    cp.stop_instance(StopInstanceRequest {
        instance_id: instance_ids[2].clone(),
    })
    .unwrap();

    // Query all instances - only the stopped one should have Stopped status
    for (i, id) in instance_ids.iter().enumerate() {
        let status = cp
            .query_instance(QueryInstanceRequest {
                instance_id: id.clone(),
            })
            .unwrap()
            .status;

        if i == 2 {
            assert_eq!(status, InstanceStatus::Stopped);
        } else {
            assert_eq!(status, InstanceStatus::Starting);
        }
    }
}

#[test]
fn property_start_after_stop_creates_new_instance() {
    let mut cp = ControlPlane::new("node-1");

    let instance_id_1 = cp.start_instance(start_request()).unwrap();

    cp.stop_instance(StopInstanceRequest {
        instance_id: instance_id_1.clone(),
    })
    .unwrap();

    let instance_id_2 = cp.start_instance(start_request()).unwrap();

    // Should be different instances
    assert_ne!(instance_id_1, instance_id_2);

    // Both should exist
    assert_eq!(cp.list_instances().len(), 2);
}

#[test]
fn property_empty_module_bytes_returns_invalid_request() {
    let mut cp = ControlPlane::new("node-1");
    let request = StartInstanceRequest {
        module_bytes: vec![],
        capabilities: vec![],
        restart_policy: RestartPolicy::default(),
    };

    let result = cp.start_instance(request);
    assert!(result.is_err());
    assert_eq!(result.unwrap_err().error_code, "INVALID_REQUEST");
}

#[test]
fn property_invalid_wasm_module_returns_invalid_request() {
    let mut cp = ControlPlane::new("node-1");
    let request = StartInstanceRequest {
        module_bytes: vec![0x00, 0x00, 0x00, 0x00], // Invalid magic bytes
        capabilities: vec![],
        restart_policy: RestartPolicy::default(),
    };

    let result = cp.start_instance(request);
    assert!(result.is_err());
    assert_eq!(result.unwrap_err().error_code, "INVALID_REQUEST");
}

#[test]
fn property_empty_instance_id_returns_invalid_request() {
    let cp = ControlPlane::new("node-1");

    // Query with empty ID
    let result = cp.query_instance(QueryInstanceRequest {
        instance_id: "".to_string(),
    });
    assert!(result.is_err());
    assert_eq!(result.unwrap_err().error_code, "INVALID_REQUEST");

    // Stop with empty ID
    let mut cp2 = ControlPlane::new("node-1");
    let result = cp2.stop_instance(StopInstanceRequest {
        instance_id: "".to_string(),
    });
    assert!(result.is_err());
    assert_eq!(result.unwrap_err().error_code, "INVALID_REQUEST");
}

#[test]
fn property_nonexistent_instance_returns_not_found() {
    let cp = ControlPlane::new("node-1");

    let result = cp.query_instance(QueryInstanceRequest {
        instance_id: "nonexistent-instance-id".to_string(),
    });
    assert!(result.is_err());
    assert_eq!(result.unwrap_err().error_code, "INSTANCE_NOT_FOUND");
}

#[test]
fn property_error_responses_have_required_fields() {
    let error = wasmatrix::types::ErrorResponse::new("TEST_ERROR", "Test message");

    // All error responses must have error_code, message, and timestamp
    assert!(!error.error_code.is_empty());
    assert!(!error.message.is_empty());
    assert!(error.timestamp >= 0);
}

#[test]
fn property_only_instance_metadata_stored() {
    let mut cp = ControlPlane::new("node-1");

    let instance_id = cp.start_instance(start_request()).unwrap();
    let metadata = cp.get_instance(&instance_id).unwrap();

    // Only store: instance_id, node_id, module_hash, created_at, status
    assert!(!metadata.instance_id.is_empty());
    assert!(!metadata.node_id.is_empty());
    assert!(!metadata.module_hash.is_empty());
}

#[test]
fn property_crash_history_preserved() {
    let mut cp = ControlPlane::new("node-1");
    let instance_id = cp.start_instance(start_request()).unwrap();

    // Record multiple crashes
    for i in 1..=3 {
        cp.record_instance_crash(&instance_id, &format!("error {}", i))
            .unwrap();
    }

    // All crashes should be recorded
    let events = cp.get_execution_events_for_instance(&instance_id);
    let crash_events: Vec<_> = events
        .iter()
        .filter(|e| e.event_type == "instance_crashed")
        .collect();
    assert_eq!(crash_events.len(), 3);

    // The numeric crash history tracks the true count
    let info = cp.get_crash_info(&instance_id).unwrap();
    assert_eq!(info.crash_count, 3);
}

#[test]
fn property_system_state_preserved_across_crash_recovery() {
    let mut cp = ControlPlane::new("node-1");
    let instance_id = cp.start_instance(start_request()).unwrap();

    // Add capability before crash
    let assignment = CapabilityAssignment::new(
        instance_id.clone(),
        "kv-1".to_string(),
        ProviderType::Kv,
        vec!["kv:read".to_string()],
    );
    cp.assign_capability(assignment).unwrap();

    // Record crash
    cp.record_instance_crash(&instance_id, "test error").unwrap();

    // Recover
    cp.handle_crash_recovery(&instance_id).unwrap();

    // Verify system state preserved
    assert!(cp.get_capabilities(&instance_id).is_some());
    assert!(cp.get_instance(&instance_id).is_some());

    // Crash count survives recovery
    assert_eq!(cp.get_crash_info(&instance_id).unwrap().crash_count, 1);

    // Verify crash events still recorded
    let events = cp.get_execution_events_for_instance(&instance_id);
    assert!(events.iter().any(|e| e.event_type == "instance_crashed"));
    assert!(events.iter().any(|e| e.event_type == "instance_restarted"));
}

#[test]
fn property_crash_isolation_between_instances() {
    let mut cp = ControlPlane::new("node-1");

    let instance_id_1 = cp.start_instance(start_request()).unwrap();
    let instance_id_2 = cp.start_instance(start_request()).unwrap();

    // Crash only instance 1
    cp.record_instance_crash(&instance_id_1, "test error").unwrap();

    // Instance 1 should be crashed
    assert!(cp.is_instance_crashed(&instance_id_1));
    assert_eq!(
        cp.get_instance(&instance_id_1).unwrap().status,
        InstanceStatus::Crashed
    );

    // Instance 2 should be unaffected
    assert!(!cp.is_instance_crashed(&instance_id_2));
    assert_eq!(
        cp.get_instance(&instance_id_2).unwrap().status,
        InstanceStatus::Starting
    );
}

#[test]
fn module_hash_is_exact_md5_digest() {
    let mut cp = ControlPlane::new("node-1");
    let instance_id = cp.start_instance(start_request()).unwrap();
    let metadata = cp.get_instance(&instance_id).unwrap();
    assert_eq!(metadata.module_hash, "319936f5c0f8203a7759ef58ec667249");
    assert_eq!(metadata.module_hash.len(), 32);
}

#[test]
fn restore_instance_state_overwrites_and_clears_bindings() {
    let mut cp = ControlPlane::new("node-1");
    let instance_id = cp.start_instance(start_request()).unwrap();
    let assignment = CapabilityAssignment::new(
        instance_id.clone(),
        "kv-1".to_string(),
        ProviderType::Kv,
        vec!["kv:read".to_string()],
    );
    cp.assign_capability(assignment).unwrap();

    let recovered = wasmatrix::types::InstanceMetadata {
        instance_id: instance_id.clone(),
        node_id: "node-2".to_string(),
        module_hash: "hash".to_string(),
        created_at: 1,
        status: InstanceStatus::Running,
    };
    cp.restore_instance_state(recovered, vec![]);

    let metadata = cp.get_instance(&instance_id).unwrap();
    assert_eq!(metadata.node_id, "node-2");
    assert_eq!(metadata.status, InstanceStatus::Running);
    // Empty capabilities clear prior bindings
    assert!(cp.get_capabilities(&instance_id).is_none());
}

#[test]
fn update_instance_status_only_for_known_instances() {
    let mut cp = ControlPlane::new("node-1");
    assert!(cp
        .update_instance_status("ghost-instance", InstanceStatus::Running)
        .is_err());

    let instance_id = cp.start_instance(start_request()).unwrap();
    cp.update_instance_status(&instance_id, InstanceStatus::Running)
        .unwrap();
    assert_eq!(
        cp.get_instance(&instance_id).unwrap().status,
        InstanceStatus::Running
    );
}
