use zeptoclaw::cli::onboard::citations_choice;
use zeptoclaw::cli::onboard::enable_telegram;
use zeptoclaw::cli::onboard::enable_whatsapp_channel;
use zeptoclaw::cli::onboard::fallback_allowed;
use zeptoclaw::cli::onboard::heartbeat_enabled_choice;
use zeptoclaw::cli::onboard::heartbeat_interval_choice;
use zeptoclaw::cli::onboard::is_yes;
use zeptoclaw::cli::onboard::memory_backend_choice;
use zeptoclaw::cli::onboard::openai_becomes_default;
use zeptoclaw::cli::onboard::provider_choice;
use zeptoclaw::cli::onboard::runtime_choice;
use zeptoclaw::cli::onboard::search_count_reply;
use zeptoclaw::cli::onboard::set_provider_key;
use zeptoclaw::cli::onboard::yes_no_choice;
use zeptoclaw::cli::onboard::yes_no_hint;
use zeptoclaw::cli::onboard::CountReply;
use zeptoclaw::cli::onboard::ProviderChoice;
use zeptoclaw::config::MemoryBackend;
use zeptoclaw::config::MemoryCitationsMode;
use zeptoclaw::config::ProviderConfig;
use zeptoclaw::config::RuntimeType;
use zeptoclaw::config::WhatsAppConfig;

#[test]
fn provider_menu_answers() {
    assert_eq!(provider_choice("1"), ProviderChoice::Anthropic);
    assert_eq!(provider_choice("2."), ProviderChoice::OpenAi);
    assert_eq!(provider_choice("3"), ProviderChoice::Both);
    assert_eq!(provider_choice(""), ProviderChoice::Skip);
    assert_eq!(provider_choice("4."), ProviderChoice::Skip);
    assert_eq!(provider_choice("5"), ProviderChoice::Invalid);
}

#[test]
fn search_count_answers() {
    assert_eq!(search_count_reply(""), CountReply::Keep);
    assert_eq!(search_count_reply("7"), CountReply::Value(7));
    assert_eq!(search_count_reply("0"), CountReply::Value(1));
    assert_eq!(search_count_reply("50"), CountReply::Value(10));
    assert_eq!(search_count_reply("many"), CountReply::Invalid);
}

#[test]
fn memory_answers() {
    assert_eq!(memory_backend_choice("", MemoryBackend::Qmd), MemoryBackend::Qmd);
    assert_eq!(memory_backend_choice(" 1 ", MemoryBackend::Qmd), MemoryBackend::Builtin);
    assert_eq!(memory_backend_choice("disabled", MemoryBackend::Builtin), MemoryBackend::Disabled);
    assert_eq!(memory_backend_choice("bm25", MemoryBackend::Builtin), MemoryBackend::Builtin);
    assert_eq!(citations_choice("2", MemoryCitationsMode::Auto), MemoryCitationsMode::On);
    assert_eq!(citations_choice("off", MemoryCitationsMode::Auto), MemoryCitationsMode::Off);
    assert_eq!(citations_choice("?", MemoryCitationsMode::On), MemoryCitationsMode::On);
}

#[test]
fn yes_no_answers() {
    assert_eq!(yes_no_hint(true), "Y/n");
    assert_eq!(yes_no_hint(false), "y/N");
    assert!(yes_no_choice("YES", false));
    assert!(!yes_no_choice("n", true));
    assert!(yes_no_choice("maybe", true));
    assert!(is_yes("Y"));
    assert!(!is_yes("no"));
    assert!(heartbeat_enabled_choice("", true));
    assert!(!heartbeat_enabled_choice("sure", true));
    assert!(heartbeat_enabled_choice("yes", false));
    assert!(fallback_allowed("  Yes "));
    assert!(!fallback_allowed("n"));
}

#[test]
fn heartbeat_interval_answers() {
    assert_eq!(heartbeat_interval_choice("", 1800), 1800);
    assert_eq!(heartbeat_interval_choice("15", 1800), 900);
    assert_eq!(heartbeat_interval_choice("0", 1800), 60);
    assert_eq!(heartbeat_interval_choice("x", 1800), 1800);
}

#[test]
fn runtime_answers() {
    assert_eq!(runtime_choice("", false), Some(RuntimeType::Native));
    assert_eq!(runtime_choice(" 2 ", false), Some(RuntimeType::Docker));
    assert_eq!(runtime_choice("3", false), None);
    assert_eq!(runtime_choice("3", true), Some(RuntimeType::AppleContainer));
    assert_eq!(runtime_choice("9", true), None);
}

#[test]
fn provider_and_channel_updates() {
    let mut slot: Option<ProviderConfig> = None;
    set_provider_key(&mut slot, "sk-ant".to_string());
    assert_eq!(slot.as_ref().unwrap().api_key, Some("sk-ant".to_string()));
    assert!(!openai_becomes_default(&slot));
    assert!(openai_becomes_default(&None));
    let empty = Some(ProviderConfig { api_key: Some(String::new()), ..Default::default() });
    assert!(openai_becomes_default(&empty));

    let mut tg = None;
    enable_telegram(&mut tg, "123:abc".to_string());
    let tg = tg.unwrap();
    assert!(tg.enabled);
    assert_eq!(tg.token, "123:abc");

    let mut wa: Option<WhatsAppConfig> = None;
    enable_whatsapp_channel(&mut wa, String::new(), " 6011, ,6012 ");
    let wa = wa.unwrap();
    assert!(wa.enabled);
    assert_eq!(wa.bridge_url, "ws://localhost:3001");
    assert_eq!(wa.allow_from, vec!["6011".to_string(), "6012".to_string()]);
}

use zeptoclaw::cli::batch::batch_chat_id;
use zeptoclaw::cli::batch::failure_text;
use zeptoclaw::cli::batch::use_streaming;
use zeptoclaw::cli::batch::written_text;
use zeptoclaw::cli::batch::BatchRun;

#[test]
fn batch_run_counts_failures_and_stops() {
    let mut run = BatchRun::new(true);
    assert!(run.record(0, "a".to_string(), Ok("A".to_string()), 5));
    assert!(!run.record(1, "b".to_string(), Err("boom".to_string()), 7));
    assert_eq!(run.failed, 1);
    assert_eq!(run.results.len(), 2);
    assert_eq!(run.results[1].error, Some("boom".to_string()));
    assert_eq!(run.results[0].response, Some("A".to_string()));

    let mut keep = BatchRun::new(false);
    assert!(keep.record(0, "x".to_string(), Err("e".to_string()), 1));
    assert!(keep.record(1, "y".to_string(), Err("f".to_string()), 1));
    assert_eq!(keep.failed, 2);
}

#[test]
fn batch_texts() {
    assert_eq!(batch_chat_id(12), "batch-12");
    assert!(use_streaming(false, true));
    assert!(!use_streaming(false, false));
    assert_eq!(written_text(3, "/tmp/out.jsonl"), "Wrote 3 result(s) to /tmp/out.jsonl");
    assert_eq!(failure_text(0), None);
    assert_eq!(failure_text(2), Some("2 prompt(s) failed during batch processing".to_string()));
}
