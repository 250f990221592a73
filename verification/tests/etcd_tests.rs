use wasmatrix::etcd::{classify_key, EtcdConfig, EtcdMetadataKind, EtcdMetadataRepository};

#[test]
fn property_etcd_limited_usage_key_classification() {
    for i in 0..100 {
        let allowed_node = format!("/wasmatrix/nodes/node-{i}");
        let allowed_provider = format!("/wasmatrix/providers/provider-{i}");
        let disallowed_instance = format!("/wasmatrix/instances/instance-{i}");
        let disallowed_logs = format!("/wasmatrix/logs/instance-{i}");
        let disallowed_desired = format!("/wasmatrix/desired/instance-{i}");

        assert_eq!(classify_key(&allowed_node), Some(EtcdMetadataKind::Node));
        assert_eq!(
            classify_key(&allowed_provider),
            Some(EtcdMetadataKind::Provider)
        );
        assert_eq!(classify_key(&disallowed_instance), None);
        assert_eq!(classify_key(&disallowed_logs), None);
        assert_eq!(classify_key(&disallowed_desired), None);
    }
}

#[test]
fn etcd_node_registration_storage() {
    let mut repo = EtcdMetadataRepository::new();
    repo.put_node_presence("node-1", "127.0.0.1:50052", 1_700_000_000)
        .unwrap();

    let keys = repo.keys();
    assert_eq!(keys.len(), 1);
    assert!(keys.iter().any(|k| k.starts_with("/wasmatrix/nodes/")));
}

#[test]
fn etcd_provider_metadata_storage() {
    let mut repo = EtcdMetadataRepository::new();
    repo.put_provider_metadata("kv-1", "kv", "node-1", 1_700_000_000)
        .unwrap();

    let keys = repo.keys();
    assert_eq!(keys.len(), 1);
    assert!(keys.iter().any(|k| k.starts_with("/wasmatrix/providers/")));
}

#[test]
fn etcd_rejects_instance_state_storage() {
    let mut repo = EtcdMetadataRepository::new();
    let result = repo.put_limited_metadata("/wasmatrix/instances/instance-1", "{}".to_string());
    assert!(result.is_err());
    assert!(repo.keys().is_empty());
}

#[test]
fn etcd_config_requires_endpoints() {
    assert!(EtcdConfig::from_parts(vec![], None, None).is_none());
    let config = EtcdConfig::from_parts(
        vec!["http://127.0.0.1:2379".to_string()],
        None,
        None,
    )
    .unwrap();
    assert_eq!(config.endpoints.len(), 1);
}
