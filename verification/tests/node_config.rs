use auria_node::{NodeBuilder, NodeConfig, PublicKey, Tier};

#[test]
fn test_node_config_default() {
    let config = NodeConfig::default();

    assert_eq!(config.tier, Tier::Standard);
    assert_eq!(config.http_port, 8080);
    assert_eq!(config.grpc_port, 50051);
    assert_eq!(config.metrics_port, 9090);
    assert_eq!(config.expert_count, 1024);
}

#[test]
fn test_node_builder_default() {
    let builder = NodeBuilder::new();
    let config = builder.config;

    assert_eq!(config.tier, Tier::Standard);
}

#[test]
fn test_node_builder_with_tier() {
    let builder = NodeBuilder::new().with_tier(Tier::Pro).with_http_port(8081);

    assert_eq!(builder.config.tier, Tier::Pro);
    assert_eq!(builder.config.http_port, 8081);
}

#[test]
fn test_node_builder_with_cluster() {
    let builder = NodeBuilder::new().with_cluster_mode(true, "prod-cluster".to_string());

    assert!(builder.config.cluster_mode);
    assert_eq!(builder.config.cluster_id, "prod-cluster");
}

#[test]
fn test_node_builder_with_gpu() {
    let builder = NodeBuilder::new().with_gpu(true);

    assert!(builder.config.gpu_enabled);
}

#[test]
fn test_node_builder_data_dir() {
    let builder = NodeBuilder::new().with_data_dir("/custom/path".to_string());

    assert_eq!(builder.config.data_dir, "/custom/path".to_string());
}

#[test]
fn default_config_other_settings() {
    let config = NodeConfig::default();
    assert_eq!(config.public_key, PublicKey([0u8; 32]));
    assert_eq!(config.data_dir, "./data");
    assert_eq!(config.vram_cache_entries, 16);
    assert_eq!(config.ram_cache_entries, 256);
    assert!(!config.cluster_mode);
    assert_eq!(config.cluster_id, "");
    assert!(!config.gpu_enabled);
    assert!(!config.enable_tracing);
    assert!(config.plugin_dirs.is_empty());
}

#[test]
fn builder_setting_keeps_other_settings() {
    let builder = NodeBuilder::new()
        .with_gpu(true)
        .with_tier(Tier::Max)
        .with_cluster_mode(true, "c1".to_string())
        .with_http_port(1234)
        .with_data_dir("/var/auria".to_string());
    let config = builder.config;
    assert!(config.gpu_enabled);
    assert_eq!(config.tier, Tier::Max);
    assert!(config.cluster_mode);
    assert_eq!(config.cluster_id, "c1");
    assert_eq!(config.http_port, 1234);
    assert_eq!(config.data_dir, "/var/auria");
    assert_eq!(config.grpc_port, 50051);
    assert_eq!(config.metrics_port, 9090);
    assert_eq!(config.expert_count, 1024);
}

#[test]
fn later_setting_wins() {
    let builder = NodeBuilder::new().with_tier(Tier::Pro).with_tier(Tier::Nano);
    assert_eq!(builder.config.tier, Tier::Nano);
    let builder = builder.with_cluster_mode(true, "a".to_string()).with_cluster_mode(false, "b".to_string());
    assert!(!builder.config.cluster_mode);
    assert_eq!(builder.config.cluster_id, "b");
}
