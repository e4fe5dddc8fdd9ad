use zeptoclaw::cli::gateway::backend_for_name;
use zeptoclaw::cli::gateway::containerized_backend;
use zeptoclaw::cli::gateway::docker_image_missing;
use zeptoclaw::cli::gateway::docker_unavailable_text;
use zeptoclaw::cli::gateway::heartbeat_target;
use zeptoclaw::cli::gateway::running_banner;
use zeptoclaw::cli::gateway::startup_deny_list;
use zeptoclaw::cli::gateway::tunnel_provider;
use zeptoclaw::cli::gateway::whatsapp_bridge_managed;
use zeptoclaw::config::ContainerAgentBackend;
use zeptoclaw::config::WhatsAppConfig;

fn wa(enabled: bool, managed: bool) -> Option<WhatsAppConfig> {
    Some(WhatsAppConfig {
        enabled,
        bridge_url: "ws://localhost:3001".to_string(),
        bridge_token: None,
        allow_from: vec![],
        deny_by_default: false,
        bridge_managed: managed,
    })
}

#[test]
fn degraded_mode_denies_dangerous_tools() {
    assert_eq!(startup_deny_list(true, vec![]), vec!["shell", "write_file", "edit_file"]);
    assert_eq!(startup_deny_list(false, vec!["git".to_string()]), vec!["git"]);
}

#[test]
fn containerized_flag_selects_backend() {
    assert_eq!(containerized_backend(None, ContainerAgentBackend::Apple, false), Ok(ContainerAgentBackend::Apple));
    assert_eq!(containerized_backend(Some("auto"), ContainerAgentBackend::Docker, false), Ok(ContainerAgentBackend::Docker));
    assert_eq!(containerized_backend(Some("DOCKER"), ContainerAgentBackend::Auto, false), Ok(ContainerAgentBackend::Docker));
    assert_eq!(containerized_backend(Some("Auto"), ContainerAgentBackend::Docker, false), Ok(ContainerAgentBackend::Auto));
    assert_eq!(
        containerized_backend(Some("Podman"), ContainerAgentBackend::Auto, false),
        Err("Unknown backend 'podman'. Use: docker".to_string())
    );
    assert_eq!(
        containerized_backend(Some("apple"), ContainerAgentBackend::Auto, false),
        Err("Unknown backend 'apple'. Use: docker".to_string())
    );
    assert_eq!(backend_for_name("apple", true), Ok(ContainerAgentBackend::Apple));
    assert_eq!(
        backend_for_name("lxc", true),
        Err("Unknown backend 'lxc'. Use: docker or apple".to_string())
    );
}

#[test]
fn tunnel_flag_overrides_config() {
    assert_eq!(tunnel_provider(Some("ngrok".to_string()), &Some("cloudflare".to_string())), Some("ngrok".to_string()));
    assert_eq!(tunnel_provider(None, &Some("cloudflare".to_string())), Some("cloudflare".to_string()));
    assert_eq!(tunnel_provider(None, &None), None);
}

#[test]
fn heartbeat_delivery_target() {
    assert_eq!(
        heartbeat_target(Some("telegram:42")),
        ("telegram".to_string(), "42".to_string(), false)
    );
    assert_eq!(
        heartbeat_target(Some("nocolon")),
        ("heartbeat".to_string(), "system".to_string(), true)
    );
    assert_eq!(heartbeat_target(None), ("heartbeat".to_string(), "system".to_string(), false));
}

#[test]
fn whatsapp_bridge_managed_only_when_enabled_and_managed() {
    assert!(whatsapp_bridge_managed(&wa(true, true)));
    assert!(!whatsapp_bridge_managed(&wa(true, false)));
    assert!(!whatsapp_bridge_managed(&wa(false, true)));
    assert!(!whatsapp_bridge_managed(&None));
}

#[test]
fn gateway_texts() {
    assert_eq!(running_banner(false, false), "Gateway is running. Press Ctrl+C to stop.");
    assert_eq!(
        running_banner(true, true),
        "  WARNING: DEGRADED MODE \u{2014} dangerous tools disabled after consecutive crashes\n  Fix the underlying issue and restart to clear.\n\nGateway is running (containerized mode). Press Ctrl+C to stop."
    );
    assert_eq!(
        docker_unavailable_text("podman"),
        "Docker is not available via 'podman'. Install Docker or run without --containerized."
    );
    let (w, e) = docker_image_missing("zeptoclaw:latest", "docker");
    assert_eq!(
        w,
        "Warning: Docker image 'zeptoclaw:latest' not found (checked via 'docker').\nBuild it with: docker build -t zeptoclaw:latest ."
    );
    assert_eq!(e, "Docker image 'zeptoclaw:latest' not found (checked via 'docker')");
}
