use wasmatrix::capability::{CapabilityRegistry, PermissionEnforcer};
use wasmatrix::types::{CapabilityAssignment, ProviderType};

fn create_test_assignment(
    instance_id: &str,
    capability_id: &str,
    provider_type: ProviderType,
    permissions: Vec<&str>,
) -> CapabilityAssignment {
    CapabilityAssignment::new(
        instance_id.to_string(),
        capability_id.to_string(),
        provider_type,
        permissions.into_iter().map(|s| s.to_string()).collect(),
    )
}

#[test]
fn test_capability_registry_basic() {
    let mut registry = CapabilityRegistry::new();

    // Register a provider
    registry.register_provider("kv-store", ProviderType::Kv);

    // Assign capability
    let assignment = create_test_assignment(
        "instance-1",
        "kv-store",
        ProviderType::Kv,
        vec!["kv:read", "kv:write"],
    );
    registry.assign_capability(assignment).unwrap();

    // Verify assignment exists
    assert!(registry.has_capability("instance-1", "kv-store"));
    assert!(!registry.has_capability("instance-1", "other-provider"));
    assert!(!registry.has_capability("other-instance", "kv-store"));

    // Verify permissions
    assert!(registry.has_permission("instance-1", "kv-store", "kv:read"));
    assert!(registry.has_permission("instance-1", "kv-store", "kv:write"));
    assert!(!registry.has_permission("instance-1", "kv-store", "kv:delete"));
}

#[test]
fn test_capability_registry_unregistered_provider() {
    let mut registry = CapabilityRegistry::new();

    // Try to assign capability for unregistered provider
    let assignment = create_test_assignment(
        "instance-1",
        "unregistered",
        ProviderType::Kv,
        vec!["kv:read"],
    );
    let result = registry.assign_capability(assignment);
    assert!(result.is_err());
}

#[test]
fn test_capability_registry_type_mismatch() {
    let mut registry = CapabilityRegistry::new();

    // Register as KV provider
    registry.register_provider("store", ProviderType::Kv);

    // Try to assign with wrong type
    let assignment = create_test_assignment(
        "instance-1",
        "store",
        ProviderType::Http, // Wrong type
        vec!["http:request"],
    );
    let result = registry.assign_capability(assignment);
    assert!(result.is_err());
}

#[test]
fn test_capability_registry_invalid_permissions() {
    let mut registry = CapabilityRegistry::new();

    registry.register_provider("kv-store", ProviderType::Kv);

    // Try to assign with invalid permission for KV
    let assignment = create_test_assignment(
        "instance-1",
        "kv-store",
        ProviderType::Kv,
        vec!["invalid:permission"],
    );
    let result = registry.assign_capability(assignment);
    assert!(result.is_err());
}

#[test]
fn test_capability_registry_revoke() {
    let mut registry = CapabilityRegistry::new();

    registry.register_provider("kv-store", ProviderType::Kv);
    registry.register_provider("http-client", ProviderType::Http);

    let assignment1 =
        create_test_assignment("instance-1", "kv-store", ProviderType::Kv, vec!["kv:read"]);
    let assignment2 = create_test_assignment(
        "instance-1",
        "http-client",
        ProviderType::Http,
        vec!["http:request"],
    );

    registry.assign_capability(assignment1).unwrap();
    registry.assign_capability(assignment2).unwrap();

    // Revoke one capability
    let revoked = registry.revoke_capability("instance-1", "kv-store").unwrap();
    assert!(revoked);
    assert!(!registry.has_capability("instance-1", "kv-store"));
    assert!(registry.has_capability("instance-1", "http-client"));

    // Revoke same capability again should return false
    let revoked = registry.revoke_capability("instance-1", "kv-store").unwrap();
    assert!(!revoked);

    // Revoke from non-existent instance
    let revoked = registry.revoke_capability("nonexistent", "kv-store").unwrap();
    assert!(!revoked);
}

#[test]
fn test_capability_registry_clear_instance() {
    let mut registry = CapabilityRegistry::new();

    registry.register_provider("kv-store", ProviderType::Kv);
    registry.register_provider("http-client", ProviderType::Http);

    let assignment1 =
        create_test_assignment("instance-1", "kv-store", ProviderType::Kv, vec!["kv:read"]);
    let assignment2 = create_test_assignment(
        "instance-1",
        "http-client",
        ProviderType::Http,
        vec!["http:request"],
    );

    registry.assign_capability(assignment1).unwrap();
    registry.assign_capability(assignment2).unwrap();

    assert_eq!(registry.assignment_count(), 2);

    registry.clear_instance("instance-1");

    assert_eq!(registry.assignment_count(), 0);
    assert!(!registry.has_capability("instance-1", "kv-store"));
    assert!(!registry.has_capability("instance-1", "http-client"));
}

#[test]
fn test_permission_enforcer_kv() {
    let mut registry = CapabilityRegistry::new();

    registry.register_provider("kv-store", ProviderType::Kv);

    let assignment = create_test_assignment(
        "instance-1",
        "kv-store",
        ProviderType::Kv,
        vec!["kv:read", "kv:delete"], // Note: no kv:write
    );
    registry.assign_capability(assignment).unwrap();

    // Should allow get (kv:read)
    let result =
        PermissionEnforcer::enforce(&registry, "instance-1", "kv-store", ProviderType::Kv, "get");
    assert!(result.is_ok());

    // Should allow list (kv:read)
    let result =
        PermissionEnforcer::enforce(&registry, "instance-1", "kv-store", ProviderType::Kv, "list");
    assert!(result.is_ok());

    // Should deny set (missing kv:write)
    let result =
        PermissionEnforcer::enforce(&registry, "instance-1", "kv-store", ProviderType::Kv, "set");
    assert!(result.is_err());

    // Should allow delete (kv:delete)
    let result = PermissionEnforcer::enforce(
        &registry,
        "instance-1",
        "kv-store",
        ProviderType::Kv,
        "delete",
    );
    assert!(result.is_ok());
}

#[test]
fn test_permission_enforcer_no_assignment() {
    let registry = CapabilityRegistry::new();

    // Try to enforce on instance with no assignments
    let result =
        PermissionEnforcer::enforce(&registry, "instance-1", "kv-store", ProviderType::Kv, "get");
    assert!(result.is_err());
}

#[test]
fn test_permission_enforcer_unknown_operation() {
    let mut registry = CapabilityRegistry::new();

    registry.register_provider("kv-store", ProviderType::Kv);

    let assignment =
        create_test_assignment("instance-1", "kv-store", ProviderType::Kv, vec!["kv:read"]);
    registry.assign_capability(assignment).unwrap();

    // Unknown operation should fail
    let result = PermissionEnforcer::enforce(
        &registry,
        "instance-1",
        "kv-store",
        ProviderType::Kv,
        "unknown_op",
    );
    assert!(result.is_err());
}

#[test]
fn test_permission_enforcer_http() {
    let mut registry = CapabilityRegistry::new();

    registry.register_provider("http-client", ProviderType::Http);

    let assignment = create_test_assignment(
        "instance-1",
        "http-client",
        ProviderType::Http,
        vec!["http:request"],
    );
    registry.assign_capability(assignment).unwrap();

    // Should allow request
    let result = PermissionEnforcer::enforce(
        &registry,
        "instance-1",
        "http-client",
        ProviderType::Http,
        "request",
    );
    assert!(result.is_ok());
}

#[test]
fn test_permission_enforcer_messaging() {
    let mut registry = CapabilityRegistry::new();

    registry.register_provider("messaging", ProviderType::Messaging);

    let assignment = create_test_assignment(
        "instance-1",
        "messaging",
        ProviderType::Messaging,
        vec!["msg:publish"], // Note: no subscribe
    );
    registry.assign_capability(assignment).unwrap();

    // Should allow publish
    let result = PermissionEnforcer::enforce(
        &registry,
        "instance-1",
        "messaging",
        ProviderType::Messaging,
        "publish",
    );
    assert!(result.is_ok());

    // Should deny subscribe
    let result = PermissionEnforcer::enforce(
        &registry,
        "instance-1",
        "messaging",
        ProviderType::Messaging,
        "subscribe",
    );
    assert!(result.is_err());
}

#[test]
fn test_registry_multiple_instances() {
    let mut registry = CapabilityRegistry::new();

    registry.register_provider("kv-store", ProviderType::Kv);
    registry.register_provider("http-client", ProviderType::Http);

    // Assign different capabilities to different instances
    let assignment1 =
        create_test_assignment("instance-1", "kv-store", ProviderType::Kv, vec!["kv:read"]);
    let assignment2 = create_test_assignment(
        "instance-2",
        "http-client",
        ProviderType::Http,
        vec!["http:request"],
    );

    registry.assign_capability(assignment1).unwrap();
    registry.assign_capability(assignment2).unwrap();

    // Verify isolation
    assert!(registry.has_capability("instance-1", "kv-store"));
    assert!(!registry.has_capability("instance-1", "http-client"));
    assert!(!registry.has_capability("instance-2", "kv-store"));
    assert!(registry.has_capability("instance-2", "http-client"));

    // Get all instances
    let instances = registry.get_instances();
    assert_eq!(instances.len(), 2);
}

#[test]
fn scoped_permissions_are_in_vocabulary() {
    // The grammar admits domain scopes for HTTP and topic scopes for
    // messaging.
    let mut registry = CapabilityRegistry::new();
    registry.register_provider("http-client", ProviderType::Http);
    registry.register_provider("messaging", ProviderType::Messaging);

    let http = create_test_assignment(
        "instance-1",
        "http-client",
        ProviderType::Http,
        vec!["http:request", "http:domain:example.com"],
    );
    assert!(registry.assign_capability(http).is_ok());

    let msg = create_test_assignment(
        "instance-1",
        "messaging",
        ProviderType::Messaging,
        vec!["msg:publish:orders", "msg:subscribe:orders"],
    );
    assert!(registry.assign_capability(msg).is_ok());

    // KV has no scoped permissions
    registry.register_provider("kv-store", ProviderType::Kv);
    let kv = create_test_assignment(
        "instance-1",
        "kv-store",
        ProviderType::Kv,
        vec!["kv:read:scoped"],
    );
    assert!(registry.assign_capability(kv).is_err());
}

#[test]
fn enforcer_exists_maps_to_read_permission() {
    let mut registry = CapabilityRegistry::new();
    registry.register_provider("kv-store", ProviderType::Kv);
    let assignment =
        create_test_assignment("instance-1", "kv-store", ProviderType::Kv, vec!["kv:read"]);
    registry.assign_capability(assignment).unwrap();

    let result = PermissionEnforcer::enforce(
        &registry,
        "instance-1",
        "kv-store",
        ProviderType::Kv,
        "exists",
    );
    assert!(result.is_ok());

    assert_eq!(PermissionEnforcer::kv_permission("exists"), Some("kv:read"));
    assert_eq!(PermissionEnforcer::kv_permission("set"), Some("kv:write"));
    assert_eq!(PermissionEnforcer::kv_permission("bogus"), None);
    assert_eq!(
        PermissionEnforcer::http_permission("request"),
        Some("http:request")
    );
    assert_eq!(PermissionEnforcer::http_permission("get"), None);
    assert_eq!(
        PermissionEnforcer::messaging_permission("publish"),
        Some("msg:publish")
    );
    assert_eq!(
        PermissionEnforcer::required_permission(ProviderType::Messaging, "subscribe"),
        Some("msg:subscribe")
    );
}

#[test]
fn enforcer_unsubscribe_requires_subscribe_permission() {
    // Subscribe and unsubscribe are gated alike by msg:subscribe.
    let mut registry = CapabilityRegistry::new();
    registry.register_provider("messaging", ProviderType::Messaging);
    let assignment = create_test_assignment(
        "instance-1",
        "messaging",
        ProviderType::Messaging,
        vec!["msg:subscribe"],
    );
    registry.assign_capability(assignment).unwrap();

    let result = PermissionEnforcer::enforce(
        &registry,
        "instance-1",
        "messaging",
        ProviderType::Messaging,
        "unsubscribe",
    );
    assert!(result.is_ok());
    assert_eq!(
        PermissionEnforcer::messaging_permission("unsubscribe"),
        Some("msg:subscribe")
    );

    // Without msg:subscribe the unsubscribe is denied, not unknown
    let mut registry2 = CapabilityRegistry::new();
    registry2.register_provider("messaging", ProviderType::Messaging);
    let publisher = create_test_assignment(
        "instance-1",
        "messaging",
        ProviderType::Messaging,
        vec!["msg:publish"],
    );
    registry2.assign_capability(publisher).unwrap();
    let denied = PermissionEnforcer::enforce(
        &registry2,
        "instance-1",
        "messaging",
        ProviderType::Messaging,
        "unsubscribe",
    );
    match denied {
        Err(wasmatrix::types::CoreError::InvalidCapabilityAssignment(m)) => {
            assert!(m.contains("msg:subscribe"));
        }
        other => panic!("expected a denial, got {:?}", other.is_ok()),
    }
}

#[test]
fn enforcer_denial_names_the_required_permission() {
    // An instance holding "http-x" with no permissions is denied a request,
    // and the message names the required http:request permission.
    let mut registry = CapabilityRegistry::new();
    registry.register_provider("http-x", ProviderType::Http);
    registry
        .assign_capability(CapabilityAssignment::new(
            "i-1".to_string(),
            "http-x".to_string(),
            ProviderType::Http,
            vec![],
        ))
        .unwrap();

    let result =
        PermissionEnforcer::enforce(&registry, "i-1", "http-x", ProviderType::Http, "request");
    match result {
        Err(wasmatrix::types::CoreError::InvalidCapabilityAssignment(m)) => {
            assert!(m.contains("http:request"));
            assert!(m.contains("Permission denied"));
        }
        other => panic!("expected a denial, got {:?}", other.is_ok()),
    }
}

#[test]
fn assignment_count_tracks_mutations() {
    let mut registry = CapabilityRegistry::new();
    assert_eq!(registry.assignment_count(), 0);

    registry.register_provider("kv-store", ProviderType::Kv);
    assert_eq!(registry.assignment_count(), 0);

    registry
        .assign_capability(create_test_assignment(
            "instance-1",
            "kv-store",
            ProviderType::Kv,
            vec!["kv:read"],
        ))
        .unwrap();
    registry
        .assign_capability(create_test_assignment(
            "instance-1",
            "kv-store",
            ProviderType::Kv,
            vec!["kv:write"],
        ))
        .unwrap();
    registry
        .assign_capability(create_test_assignment(
            "instance-2",
            "kv-store",
            ProviderType::Kv,
            vec!["kv:read"],
        ))
        .unwrap();
    assert_eq!(registry.assignment_count(), 3);

    // Revoking drops both of instance-1's kv-store assignments
    assert!(registry.revoke_capability("instance-1", "kv-store").unwrap());
    assert_eq!(registry.assignment_count(), 1);

    registry.clear_instance("instance-2");
    assert_eq!(registry.assignment_count(), 0);
}
