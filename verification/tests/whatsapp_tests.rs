use zeptoclaw::error::ZeptoError;
use zeptoclaw::whatsapp::audio_candidates;
use zeptoclaw::whatsapp::audio_inbound;
use zeptoclaw::whatsapp::content_length;
use zeptoclaw::whatsapp::wants_transcription;
use zeptoclaw::whatsapp::AudioContent;
use zeptoclaw::whatsapp::extract_text_messages;
use zeptoclaw::whatsapp::find_header_end;
use zeptoclaw::whatsapp::handle_verification;
use zeptoclaw::whatsapp::is_request_complete;
use zeptoclaw::whatsapp::parse_http_request;
use zeptoclaw::whatsapp::query_param;
use zeptoclaw::whatsapp::reply_response;
use zeptoclaw::whatsapp::route_request;
use zeptoclaw::whatsapp::truncate_message;
use zeptoclaw::whatsapp::InboundMessage;
use zeptoclaw::whatsapp::WebhookChange;
use zeptoclaw::whatsapp::WebhookContact;
use zeptoclaw::whatsapp::WebhookEntry;
use zeptoclaw::whatsapp::WebhookMessage;
use zeptoclaw::whatsapp::WebhookMetadata;
use zeptoclaw::whatsapp::WebhookNotification;
use zeptoclaw::whatsapp::WebhookProfile;
use zeptoclaw::whatsapp::WebhookReply;
use zeptoclaw::whatsapp::WebhookTextContent;
use zeptoclaw::whatsapp::WebhookValue;
use zeptoclaw::whatsapp::MAX_MESSAGE_LENGTH;

fn metadata_value(m: &InboundMessage, key: &str) -> Option<String> {
    m.metadata.iter().find(|(k, _)| k == key).map(|(_, v)| v.clone())
}

fn text_message(from: &str, id: &str, timestamp: &str, body: Option<&str>, msg_type: &str) -> WebhookMessage {
    WebhookMessage {
        from: from.to_string(),
        id: id.to_string(),
        timestamp: timestamp.to_string(),
        msg_type: msg_type.to_string(),
        text: body.map(|b| WebhookTextContent { body: b.to_string() }),
        audio: None,
    }
}

fn notification(messages: Vec<WebhookMessage>, contact: Option<&str>) -> WebhookNotification {
    WebhookNotification {
        object: "whatsapp_business_account".to_string(),
        entry: vec![WebhookEntry {
            changes: vec![WebhookChange {
                value: Some(WebhookValue {
                    messages,
                    contacts: contact
                        .map(|n| {
                            vec![WebhookContact {
                                profile: Some(WebhookProfile { name: n.to_string() }),
                            }]
                        })
                        .unwrap_or_default(),
                    metadata: Some(WebhookMetadata { phone_number_id: "123456".to_string() }),
                }),
            }],
        }],
    }
}

fn sample_notification() -> WebhookNotification {
    notification(
        vec![text_message("60123456789", "wamid.abc123", "1707900000", Some("Hello there!"), "text")],
        Some("John Doe"),
    )
}

#[test]
fn test_truncate_message_short() {
    let msg = "Hello!";
    assert_eq!(truncate_message(msg), "Hello!");
}

#[test]
fn test_truncate_message_at_limit() {
    let msg = "a".repeat(MAX_MESSAGE_LENGTH);
    assert_eq!(truncate_message(&msg).len(), MAX_MESSAGE_LENGTH);
}

#[test]
fn test_truncate_message_over_limit() {
    let msg = "a".repeat(MAX_MESSAGE_LENGTH + 100);
    let result = truncate_message(&msg);
    assert!(result.len() <= MAX_MESSAGE_LENGTH);
    assert!(result.ends_with("...(truncated)"));
}

#[test]
fn test_truncate_message_counts_characters_not_bytes() {
    let msg = "\u{00e9}".repeat(MAX_MESSAGE_LENGTH);
    assert_eq!(truncate_message(&msg), msg);
    let longer = "\u{00e9}".repeat(MAX_MESSAGE_LENGTH + 1);
    let result = truncate_message(&longer);
    assert_eq!(result.chars().count(), MAX_MESSAGE_LENGTH);
    assert_eq!(result, format!("{}...(truncated)", "\u{00e9}".repeat(4082)));
}

#[test]
fn test_query_param_found() {
    assert_eq!(
        query_param("hub.mode=subscribe&hub.challenge=abc", "hub.challenge"),
        Some("abc".to_string())
    );
}

#[test]
fn test_query_param_not_found() {
    assert_eq!(query_param("hub.mode=subscribe", "hub.challenge"), None);
}

#[test]
fn test_query_param_first_match_and_value_with_equals() {
    assert_eq!(query_param("a=1&a=2", "a"), Some("1".to_string()));
    assert_eq!(query_param("flag&b=x=y", "b"), Some("x=y".to_string()));
    assert_eq!(query_param("flag&b=x", "flag"), None);
    assert_eq!(query_param("", "a"), None);
}

#[test]
fn test_verification_valid() {
    let query = "hub.mode=subscribe&hub.verify_token=verify-secret&hub.challenge=challenge123";
    let result = handle_verification(query, "verify-secret");
    assert_eq!(result, Some("challenge123".to_string()));
}

#[test]
fn test_verification_wrong_token() {
    let query = "hub.mode=subscribe&hub.verify_token=wrong-token&hub.challenge=challenge123";
    assert!(handle_verification(query, "verify-secret").is_none());
}

#[test]
fn test_verification_missing_mode() {
    let query = "hub.verify_token=verify-secret&hub.challenge=challenge123";
    assert!(handle_verification(query, "verify-secret").is_none());
}

#[test]
fn test_verification_wrong_mode() {
    let query = "hub.mode=unsubscribe&hub.verify_token=verify-secret&hub.challenge=challenge123";
    assert!(handle_verification(query, "verify-secret").is_none());
}

#[test]
fn test_verification_missing_challenge() {
    let query = "hub.mode=subscribe&hub.verify_token=verify-secret";
    assert!(handle_verification(query, "verify-secret").is_none());
}

#[test]
fn test_parse_http_request_get_with_query() {
    let raw = b"GET /whatsapp?hub.mode=subscribe&hub.challenge=abc HTTP/1.1\r\nHost: localhost\r\n\r\n";
    let req = parse_http_request(raw).unwrap();
    assert_eq!(req.method, "GET");
    assert_eq!(req.path, "/whatsapp");
    assert_eq!(req.query, "hub.mode=subscribe&hub.challenge=abc");
}

#[test]
fn test_parse_http_request_post() {
    let raw = b"POST /whatsapp HTTP/1.1\r\nHost: localhost\r\nContent-Length: 2\r\n\r\n{}";
    let req = parse_http_request(raw).unwrap();
    assert_eq!(req.method, "POST");
    assert_eq!(req.path, "/whatsapp");
    assert!(req.query.is_empty());
    assert_eq!(req.body, "{}");
}

#[test]
fn test_parse_http_request_headers_and_method_case() {
    let raw = b"post /x HTTP/1.1\r\nHost:  example.com \r\nno colon line\r\nX-A: b:c\r\n\r\nbody\r\n\r\nmore";
    let req = parse_http_request(raw).unwrap();
    assert_eq!(req.method, "POST");
    assert_eq!(
        req.headers,
        vec![
            ("Host".to_string(), "example.com".to_string()),
            ("X-A".to_string(), "b:c".to_string())
        ]
    );
    assert_eq!(req.body, "body\r\n\r\nmore");
}

fn channel_error_text(e: ZeptoError) -> String {
    match e {
        ZeptoError::Channel(m) => m,
        other => panic!("unexpected error {:?}", other),
    }
}

#[test]
fn test_parse_http_request_errors() {
    assert_eq!(channel_error_text(parse_http_request(b"").err().unwrap()), "Empty HTTP request");
    assert_eq!(channel_error_text(parse_http_request(b"   \r\n").err().unwrap()), "Missing HTTP method");
    assert_eq!(channel_error_text(parse_http_request(b"GET\r\n").err().unwrap()), "Missing HTTP path");
    assert_eq!(
        channel_error_text(parse_http_request(&[0xff, 0xfe]).err().unwrap()),
        "Invalid UTF-8 in HTTP request"
    );
}

#[test]
fn test_content_length_header() {
    let headers = vec![
        ("Host".to_string(), "x".to_string()),
        ("CONTENT-length".to_string(), " 42 ".to_string()),
        ("Content-Length".to_string(), "7".to_string()),
    ];
    assert_eq!(content_length(&headers), 42);
    let bad = vec![("content-length".to_string(), "abc".to_string())];
    assert_eq!(content_length(&bad), 0);
    assert_eq!(content_length(&[]), 0);
}

#[test]
fn test_find_header_end() {
    assert_eq!(find_header_end(b"GET / HTTP/1.1\r\n\r\nbody"), Some(14));
    assert_eq!(find_header_end(b"GET / HTTP/1.1\r\n"), None);
    assert_eq!(find_header_end(b"\r\n\r\n\r\n\r\n"), Some(0));
}

#[test]
fn test_request_completeness() {
    assert!(!is_request_complete(b"POST /w HTTP/1.1\r\nContent-Length: 5\r\n"));
    assert!(!is_request_complete(b"POST /w HTTP/1.1\r\nContent-Length: 5\r\n\r\nab"));
    assert!(is_request_complete(b"POST /w HTTP/1.1\r\nContent-Length: 5\r\n\r\nabcde"));
    assert!(is_request_complete(b"GET /w HTTP/1.1\r\n\r\n"));
}

#[test]
fn test_route_request_replies() {
    let get = parse_http_request(
        b"GET /whatsapp?hub.mode=subscribe&hub.verify_token=t&hub.challenge=c1 HTTP/1.1\r\n\r\n",
    )
    .unwrap();
    match route_request(&get, "/whatsapp", "t") {
        WebhookReply::Challenge(c) => assert_eq!(c, "c1"),
        _ => panic!("expected challenge"),
    }
    assert!(matches!(route_request(&get, "/whatsapp", "other"), WebhookReply::Forbidden));
    assert!(matches!(route_request(&get, "/elsewhere", "t"), WebhookReply::NotFound));
    let post = parse_http_request(b"POST /whatsapp HTTP/1.1\r\n\r\n{}").unwrap();
    assert!(matches!(route_request(&post, "/whatsapp", "t"), WebhookReply::Notification));
    let put = parse_http_request(b"PUT /whatsapp HTTP/1.1\r\n\r\n").unwrap();
    assert!(matches!(route_request(&put, "/whatsapp", "t"), WebhookReply::MethodNotAllowed));
    assert_eq!(
        reply_response(&WebhookReply::Challenge("abc".to_string())),
        "HTTP/1.1 200 OK\r\nContent-Type: text/plain\r\nContent-Length: 3\r\nConnection: close\r\n\r\nabc"
    );
}

#[test]
fn test_extract_text_messages_valid() {
    let messages = extract_text_messages(&sample_notification(), &[], false);
    assert_eq!(messages.len(), 1);
    let msg = &messages[0];
    assert_eq!(msg.channel, "whatsapp_cloud");
    assert_eq!(msg.sender_id, "60123456789");
    assert_eq!(msg.chat_id, "60123456789");
    assert_eq!(msg.content, "Hello there!");
    assert_eq!(metadata_value(msg, "whatsapp_message_id"), Some("wamid.abc123".to_string()));
    assert_eq!(metadata_value(msg, "timestamp"), Some("1707900000".to_string()));
    assert_eq!(metadata_value(msg, "sender_name"), Some("John Doe".to_string()));
}

#[test]
fn test_extract_text_messages_non_text_ignored() {
    let n = notification(vec![text_message("60123", "x", "1", None, "image")], None);
    assert!(extract_text_messages(&n, &[], false).is_empty());
}

#[test]
fn test_extract_text_messages_empty_body_ignored() {
    let n = notification(vec![text_message("60123", "x", "1", Some("   "), "text")], None);
    assert!(extract_text_messages(&n, &[], false).is_empty());
}

#[test]
fn test_extract_text_messages_status_update_ignored() {
    let n = notification(vec![], None);
    assert!(extract_text_messages(&n, &[], false).is_empty());
}

#[test]
fn test_extract_text_messages_allowlist_allowed() {
    let messages = extract_text_messages(&sample_notification(), &["60123456789".to_string()], false);
    assert_eq!(messages.len(), 1);
}

#[test]
fn test_extract_text_messages_allowlist_denied() {
    let messages = extract_text_messages(&sample_notification(), &["60999999999".to_string()], false);
    assert!(messages.is_empty());
}

#[test]
fn test_extract_text_messages_deny_by_default() {
    let messages = extract_text_messages(&sample_notification(), &[], true);
    assert!(messages.is_empty());
}

#[test]
fn test_extracted_senders_are_trimmed_and_allowed() {
    let n = notification(
        vec![
            text_message(" 601 ", "", "", Some(" hi "), "text"),
            text_message("602", "", "", Some("yo"), "text"),
            text_message("  ", "", "", Some("no sender"), "text"),
        ],
        None,
    );
    let messages = extract_text_messages(&n, &["601".to_string()], true);
    assert_eq!(messages.len(), 1);
    assert_eq!(messages[0].sender_id, "601");
    assert_eq!(messages[0].content, "hi");
    assert!(messages[0].metadata.is_empty());
}

fn audio_message(from: &str, id: &str, media: Option<(&str, &str)>) -> WebhookMessage {
    WebhookMessage {
        from: from.to_string(),
        id: id.to_string(),
        timestamp: "1707900001".to_string(),
        msg_type: "audio".to_string(),
        text: None,
        audio: media.map(|(i, m)| AudioContent { id: i.to_string(), mime_type: m.to_string() }),
    }
}

#[test]
fn voice_messages_follow_the_allowlist() {
    let n = notification(
        vec![
            audio_message(" 6011 ", "wamid.v1", Some(("media1", "audio/ogg; codecs=opus"))),
            audio_message("6099", "wamid.v2", None),
            text_message("6011", "wamid.t", "1", Some("hi"), "text"),
            audio_message("   ", "wamid.v3", None),
        ],
        None,
    );
    let all = audio_candidates(&n, &[], false);
    assert_eq!(all.len(), 2);
    assert_eq!(all[0].from, "6011");
    assert_eq!(all[0].media, Some(("media1".to_string(), "audio/ogg; codecs=opus".to_string())));
    assert!(all[1].media.is_none());
    let allowed = audio_candidates(&n, &["6099".to_string()], false);
    assert_eq!(allowed.len(), 1);
    assert_eq!(allowed[0].message_id, "wamid.v2");
    assert!(audio_candidates(&n, &[], true).is_empty());
    assert!(wants_transcription(&all[0], true));
    assert!(!wants_transcription(&all[0], false));
    assert!(!wants_transcription(&all[1], true));
}

#[test]
fn voice_message_content() {
    let n = notification(vec![audio_message("6011", "wamid.v1", Some(("m", "audio/ogg")))], None);
    let c = &audio_candidates(&n, &[], false)[0];
    let with = audio_inbound(c, Some("hello world"));
    assert_eq!(with.content, "[Voice: hello world]");
    assert_eq!(with.channel, "whatsapp_cloud");
    assert_eq!(with.sender_id, "6011");
    assert_eq!(with.chat_id, "6011");
    assert_eq!(metadata_value(&with, "whatsapp_message_id"), Some("wamid.v1".to_string()));
    assert_eq!(metadata_value(&with, "timestamp"), Some("1707900001".to_string()));
    assert_eq!(metadata_value(&with, "sender_name"), None);
    let without = audio_inbound(c, None);
    assert_eq!(without.content, "[Voice Message]");
}
