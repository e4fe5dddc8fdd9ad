use zeptoclaw::config::AuthMethod;
use zeptoclaw::config::ContainerAgentConfig;
use zeptoclaw::config::DockerConfig;
use zeptoclaw::config::GatewayConfig;
use zeptoclaw::config::HeartbeatConfig;
use zeptoclaw::config::LogFormat;
use zeptoclaw::config::LoggingConfig;
use zeptoclaw::config::MemoryBackend;
use zeptoclaw::config::MemoryCitationsMode;
use zeptoclaw::config::ProviderConfig;
use zeptoclaw::config::RoutinesConfig;
use zeptoclaw::config::SwarmConfig;
use zeptoclaw::config::SwarmRole;
use zeptoclaw::config::TailscaleTunnelConfig;
use zeptoclaw::config::TranscribeConfig;
use zeptoclaw::config::TunnelConfig;
use zeptoclaw::config::WhatsAppCloudConfig;
use zeptoclaw::config::configured_docker_binary;
use zeptoclaw::config::memory_backend_label;
use zeptoclaw::config::memory_citations_label;
use zeptoclaw::config::provider_status;
use zeptoclaw::cron::OnMiss;

#[test]
fn test_swarm_config_defaults() {
    let config = SwarmConfig::default();
    assert!(config.enabled);
    assert_eq!(config.max_depth, 1);
    assert_eq!(config.max_concurrent, 3);
    assert!(config.roles.is_empty());
}

#[test]
fn test_swarm_role_defaults() {
    let role = SwarmRole::default();
    assert!(role.system_prompt.is_empty());
    assert!(role.tools.is_empty());
}

#[test]
fn test_heartbeat_config_default_deliver_to() {
    let config = HeartbeatConfig::default();
    assert!(config.deliver_to.is_none());
}

#[test]
fn test_heartbeat_config_default_interval() {
    let config = HeartbeatConfig::default();
    assert_eq!(config.interval_secs, 1800);
    assert!(!config.enabled);
}

#[test]
fn test_routines_config_jitter_default() {
    let config = RoutinesConfig::default();
    assert_eq!(config.jitter_ms, 0);
}

#[test]
fn test_routines_config_other_defaults() {
    let config = RoutinesConfig::default();
    assert_eq!(config.cron_interval_secs, 60);
    assert_eq!(config.max_concurrent, 3);
    assert_eq!(config.on_miss, OnMiss::Skip);
}

#[test]
fn test_tunnel_config_defaults() {
    let config = TunnelConfig::default();
    assert!(config.provider.is_none());
    assert!(config.cloudflare.is_none());
    assert!(config.ngrok.is_none());
    assert!(config.tailscale.is_none());
}

#[test]
fn test_tailscale_tunnel_config_default_funnel_true() {
    let config = TailscaleTunnelConfig::default();
    assert!(config.funnel);
}

#[test]
fn test_whatsapp_cloud_config_defaults() {
    let config = WhatsAppCloudConfig::default();
    assert!(!config.enabled);
    assert!(config.phone_number_id.is_empty());
    assert!(config.access_token.is_empty());
    assert!(config.webhook_verify_token.is_empty());
    assert_eq!(config.bind_address, "127.0.0.1");
    assert_eq!(config.port, 9877);
    assert_eq!(config.path, "/whatsapp");
    assert!(config.allow_from.is_empty());
    assert!(!config.deny_by_default);
}

#[test]
fn test_docker_config_defaults() {
    let config = DockerConfig::default();
    assert_eq!(config.pids_limit, Some(100));
    assert_eq!(config.stop_timeout_secs, 300);
    assert_eq!(config.memory_limit, Some("512m".to_string()));
    assert_eq!(config.cpu_limit, Some("1.0".to_string()));
    assert_eq!(config.network, "none");
}

#[test]
fn test_logging_and_gateway_defaults() {
    let logging = LoggingConfig::default();
    assert_eq!(logging.format, LogFormat::Component);
    assert_eq!(logging.level, "info");
    assert!(logging.file.is_none());
    let gateway = GatewayConfig::default();
    assert_eq!(gateway.host, "0.0.0.0");
    assert_eq!(gateway.port, 8080);
    assert_eq!(gateway.rate_limit.pair_per_min, 0);
}

#[test]
fn test_derived_defaults_are_empty() {
    let t = TranscribeConfig::default();
    assert!(t.model.is_empty());
    assert!(!t.enabled);
}

#[test]
fn test_labels_and_status() {
    assert_eq!(memory_backend_label(&MemoryBackend::Disabled), "none");
    assert_eq!(memory_backend_label(&MemoryBackend::default()), "builtin");
    assert_eq!(memory_citations_label(&MemoryCitationsMode::default()), "auto");
    assert_eq!(provider_status(&None), "not set");
    let mut p = ProviderConfig::default();
    assert_eq!(provider_status(&Some(p.clone())), "not set");
    p.api_key = Some("k".to_string());
    assert_eq!(provider_status(&Some(p)), "configured");
}

#[test]
fn test_resolved_auth_method() {
    let mut p = ProviderConfig::default();
    assert_eq!(p.resolved_auth_method(), AuthMethod::ApiKey);
    p.auth_method = Some("oauth".to_string());
    assert_eq!(p.resolved_auth_method(), AuthMethod::OAuth);
    p.auth_method = Some("auto".to_string());
    assert_eq!(p.resolved_auth_method(), AuthMethod::Auto);
}

#[test]
fn test_configured_docker_binary() {
    let mut c = ContainerAgentConfig::default();
    assert_eq!(configured_docker_binary(&c), "docker");
    c.docker_binary = Some("  podman ".to_string());
    assert_eq!(configured_docker_binary(&c), "podman");
    c.docker_binary = Some("   ".to_string());
    assert_eq!(configured_docker_binary(&c), "docker");
}

#[test]
fn test_email_config_debug_redacts_password() {
    let mut c = zeptoclaw::config::EmailConfig::default();
    c.imap_host = "imap.example.com".to_string();
    c.username = "me@example.com".to_string();
    c.password = "hunter2".to_string();
    c.display_name = Some("Me \"Q\"".to_string());
    c.allowed_senders = vec!["a@x.com".to_string(), "y.org".to_string()];
    let t = c.debug_text();
    assert!(!t.contains("hunter2"));
    assert_eq!(
        t,
        "EmailConfig { imap_host: \"imap.example.com\", imap_port: 993, smtp_host: \"\", smtp_port: 587, username: \"me@example.com\", password: \"[redacted]\", imap_folder: \"INBOX\", display_name: Some(\"Me \\\"Q\\\"\"), allowed_senders: [\"a@x.com\", \"y.org\"], deny_by_default: false, idle_timeout_secs: 1740, enabled: false }"
    );
}
