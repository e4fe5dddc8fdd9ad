use zeptoclaw::config::WhatsAppCloudConfig;
use zeptoclaw::error::ZeptoError;
use zeptoclaw::whatsapp::api_error;
use zeptoclaw::whatsapp::StartStep;
use zeptoclaw::whatsapp::StopStep;
use zeptoclaw::whatsapp::WhatsAppCloudChannel;

fn test_config() -> WhatsAppCloudConfig {
    WhatsAppCloudConfig {
        enabled: true,
        phone_number_id: "123456".to_string(),
        access_token: "test-token".to_string(),
        webhook_verify_token: "verify-secret".to_string(),
        bind_address: "127.0.0.1".to_string(),
        port: 0,
        path: "/whatsapp".to_string(),
        allow_from: vec!["60123456789".to_string()],
        deny_by_default: false,
    }
}

#[test]
fn test_channel_name() {
    let channel = WhatsAppCloudChannel::new(test_config());
    assert_eq!(channel.name(), "whatsapp_cloud");
}

#[test]
fn test_channel_not_running_initially() {
    let channel = WhatsAppCloudChannel::new(test_config());
    assert!(!channel.is_running());
}

#[test]
fn test_is_allowed_in_list() {
    let channel = WhatsAppCloudChannel::new(test_config());
    assert!(channel.is_allowed("60123456789"));
}

#[test]
fn test_is_allowed_not_in_list() {
    let channel = WhatsAppCloudChannel::new(test_config());
    assert!(!channel.is_allowed("60999999999"));
}

#[test]
fn test_is_allowed_empty_list_follows_deny_by_default() {
    let mut config = test_config();
    config.allow_from = vec![];
    assert!(WhatsAppCloudChannel::new(config.clone()).is_allowed("anyone"));
    config.deny_by_default = true;
    assert!(!WhatsAppCloudChannel::new(config).is_allowed("anyone"));
}

#[test]
fn test_send_when_not_running() {
    let channel = WhatsAppCloudChannel::new(test_config());
    let result = channel.send_request("60123456789", "Hello");
    assert!(result.is_err());
}

#[test]
fn test_stop_when_not_running() {
    let mut channel = WhatsAppCloudChannel::new(test_config());
    assert!(matches!(channel.stop(), StopStep::AlreadyStopped));
    assert!(!channel.is_running());
}

#[test]
fn test_start_disabled_config() {
    let mut config = test_config();
    config.enabled = false;
    let mut channel = WhatsAppCloudChannel::new(config);
    let result = channel.start();
    assert!(result.is_ok());
    assert!(!channel.is_running());
}

#[test]
fn test_start_missing_credentials() {
    let mut config = test_config();
    config.phone_number_id = String::new();
    let mut channel = WhatsAppCloudChannel::new(config);
    let result = channel.start();
    assert!(result.is_err());
    assert!(!channel.is_running());
}

#[test]
fn test_start_listen_send_stop() {
    let mut config = test_config();
    config.port = 9877;
    let mut channel = WhatsAppCloudChannel::new(config);
    match channel.start() {
        Ok(StartStep::Listen { bind_addr }) => assert_eq!(bind_addr, "127.0.0.1:9877"),
        _ => panic!("expected to listen"),
    }
    assert!(channel.is_running());
    assert!(matches!(channel.start(), Ok(StartStep::AlreadyRunning)));

    let req = channel.send_request("  60123456789 ", "Hello").unwrap();
    assert_eq!(req.endpoint, "https://graph.facebook.com/v18.0/123456/messages");
    assert_eq!(req.authorization, "Bearer test-token");
    assert_eq!(req.to, "60123456789");
    assert_eq!(req.body, "Hello");

    match channel.send_request("   ", "Hello") {
        Err(ZeptoError::Channel(m)) => assert_eq!(m, "WhatsApp Cloud recipient cannot be empty"),
        _ => panic!("expected a channel error"),
    }

    assert!(matches!(channel.stop(), StopStep::ShutDown));
    assert!(!channel.is_running());
    match channel.send_request("60123456789", "Hello") {
        Err(ZeptoError::Channel(m)) => assert_eq!(m, "WhatsApp Cloud channel not running"),
        _ => panic!("expected a channel error"),
    }
}

#[test]
fn test_send_request_truncates_long_text() {
    let mut channel = WhatsAppCloudChannel::new(test_config());
    channel.start().unwrap();
    let long = "x".repeat(5000);
    let req = channel.send_request("1", &long).unwrap();
    assert_eq!(req.body.chars().count(), 4096);
    assert!(req.body.ends_with("...(truncated)"));
}

#[test]
fn test_listen_failed_stops_channel() {
    let mut channel = WhatsAppCloudChannel::new(test_config());
    channel.start().unwrap();
    let e = channel.listen_failed("127.0.0.1:0", "address in use");
    assert_eq!(e.to_string(), "Channel error: Failed to bind WhatsApp Cloud webhook on 127.0.0.1:0: address in use");
    assert!(!channel.is_running());
}

#[test]
fn test_api_error_text() {
    assert_eq!(
        api_error("400 Bad Request", Some("Invalid parameter")).to_string(),
        "Channel error: WhatsApp Cloud API error 400 Bad Request: Invalid parameter"
    );
    assert_eq!(
        api_error("500 Internal Server Error", None).to_string(),
        "Channel error: WhatsApp Cloud API error 500 Internal Server Error: Unknown API error"
    );
}
