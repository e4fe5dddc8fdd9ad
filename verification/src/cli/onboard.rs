//! Onboarding: how the wizard reads each answer, and the message shown
//! after express setup.

use vstd::prelude::*;
use crate::config::MemoryBackend;
use crate::config::MemoryCitationsMode;
use crate::config::ProviderConfig;
use crate::config::RuntimeType;
use crate::config::TelegramConfig;
use crate::config::WhatsAppConfig;
use crate::overrides::comma_list;
use crate::overrides::comma_list_spec;
use crate::overrides::parse_unsigned;
use crate::text::ascii_lowercase;
use crate::text::lowercase;
use crate::text::parse_uint;
use crate::text::str_eq;
use crate::text::texts;
use crate::text::to_ascii_lowercase;
use crate::text::to_lowercase;
use crate::text::trim;
use crate::text::trimmed;

verus! {

/// The lines of the express-mode next-steps message.
pub open spec fn next_steps_lines() -> Seq<Seq<char>> {
    seq![
        ""@,
        "ZeptoClaw ready!"@,
        ""@,
        "Try: zeptoclaw agent -m \"What can you help me with?\""@,
        "Or:  zeptoclaw agent -m \"Summarize https://news.ycombinator.com\""@,
        ""@,
        "Run 'zeptoclaw onboard --full' for advanced setup (channels, heartbeat, runtime)."@,
        "Run 'zeptoclaw status' to see your configuration."@,
    ]
}

/// Lines joined with newlines.
pub open spec fn join_lines(lines: Seq<Seq<char>>) -> Seq<char>
    decreases lines.len(),
{
    if lines.len() == 0 {
        Seq::empty()
    } else if lines.len() == 1 {
        lines[0]
    } else {
        join_lines(lines.drop_last()) + "\n"@ + lines.last()
    }
}

/// Format the express-mode next-steps message.
pub fn express_next_steps() -> (r: String)
    ensures
        r@ == join_lines(next_steps_lines()),
{
    let lines = vec![
        "",
        "ZeptoClaw ready!",
        "",
        "Try: zeptoclaw agent -m \"What can you help me with?\"",
        "Or:  zeptoclaw agent -m \"Summarize https://news.ycombinator.com\"",
        "",
        "Run 'zeptoclaw onboard --full' for advanced setup (channels, heartbeat, runtime).",
        "Run 'zeptoclaw status' to see your configuration.",
    ];
    let ghost ls = lines@.map_values(|l: &str| l@);
    assert(ls =~= next_steps_lines());
    let mut s = String::from_str(lines[0]);
    let mut i: usize = 1;
    assert(ls.take(1).drop_last() =~= Seq::<Seq<char>>::empty());
    while i < lines.len()
        invariant
            1 <= i <= lines@.len(),
            ls == lines@.map_values(|l: &str| l@),
            s@ == join_lines(ls.take(i as int)),
        decreases lines@.len() - i,
    {
        s.append("\n");
        s.append(lines[i]);
        assert(ls.take(i + 1).drop_last() =~= ls.take(i as int));
        assert(ls.take(i + 1).last() == lines@[i as int]@);
        i += 1;
    }
    assert(ls.take(i as int) =~= ls);
    s
}

// ---------------------------------------------------------------------------
// Reading the wizard's answers
// ---------------------------------------------------------------------------

/// Which providers the user asked to configure.
#[derive(Debug, Clone, Copy, PartialEq, Eq, Structural)]
pub enum ProviderChoice {
    Anthropic,
    OpenAi,
    Both,
    /// `4` or no answer.
    Skip,
    Invalid,
}

/// The provider menu answer (already trimmed): `1`-`4`, each also with a
/// trailing dot; no answer skips.
pub open spec fn provider_choice_spec(reply: Seq<char>) -> ProviderChoice {
    if reply == "1"@ || reply == "1."@ {
        ProviderChoice::Anthropic
    } else if reply == "2"@ || reply == "2."@ {
        ProviderChoice::OpenAi
    } else if reply == "3"@ || reply == "3."@ {
        ProviderChoice::Both
    } else if reply == "4"@ || reply == "4."@ || reply.len() == 0 {
        ProviderChoice::Skip
    } else {
        ProviderChoice::Invalid
    }
}

/// Reads the provider menu answer.
pub fn provider_choice(reply: &str) -> (c: ProviderChoice)
    ensures
        c == provider_choice_spec(reply@),
{
    if str_eq(reply, "1") || str_eq(reply, "1.") {
        ProviderChoice::Anthropic
    } else if str_eq(reply, "2") || str_eq(reply, "2.") {
        ProviderChoice::OpenAi
    } else if str_eq(reply, "3") || str_eq(reply, "3.") {
        ProviderChoice::Both
    } else if str_eq(reply, "4") || str_eq(reply, "4.") || reply.is_empty() {
        ProviderChoice::Skip
    } else {
        ProviderChoice::Invalid
    }
}

/// What an answer to a number question does.
#[derive(Debug, Clone, Copy, PartialEq, Eq, Structural)]
pub enum CountReply {
    /// No answer: keep the current value.
    Keep,
    Value(u32),
    /// Not a number: keep the current value and say so.
    Invalid,
}

/// The web search result count answer: a number is kept within 1..=10.
pub open spec fn search_count_spec(reply: Seq<char>) -> CountReply {
    if reply.len() == 0 {
        CountReply::Keep
    } else {
        match parse_uint(reply, u32::MAX as nat) {
            Some(n) => CountReply::Value(
                if n < 1 {
                    1u32
                } else if n > 10 {
                    10u32
                } else {
                    n as u32
                },
            ),
            None => CountReply::Invalid,
        }
    }
}

/// Reads the web search result count answer.
pub fn search_count_reply(reply: &str) -> (r: CountReply)
    ensures
        r == search_count_spec(reply@),
{
    if reply.is_empty() {
        return CountReply::Keep;
    }
    match parse_unsigned(reply, 4294967295u64) {
        Some(n) => CountReply::Value(
            if n < 1 {
                1
            } else if n > 10 {
                10
            } else {
                n as u32
            },
        ),
        None => CountReply::Invalid,
    }
}

/// The memory backend answer: a number or a name, else the current one.
pub open spec fn memory_backend_choice_spec(reply: Seq<char>, current: MemoryBackend) -> MemoryBackend {
    let t = trim(reply);
    if reply.len() == 0 {
        current
    } else if t == "1"@ || t == "builtin"@ {
        MemoryBackend::Builtin
    } else if t == "2"@ || t == "qmd"@ {
        MemoryBackend::Qmd
    } else if t == "3"@ || t == "none"@ || t == "disabled"@ {
        MemoryBackend::Disabled
    } else {
        current
    }
}

/// Reads the memory backend answer.
pub fn memory_backend_choice(reply: &str, current: MemoryBackend) -> (b: MemoryBackend)
    ensures
        b == memory_backend_choice_spec(reply@, current),
{
    if reply.is_empty() {
        return current;
    }
    let t = trimmed(reply);
    let t = t.as_str();
    if str_eq(t, "1") || str_eq(t, "builtin") {
        MemoryBackend::Builtin
    } else if str_eq(t, "2") || str_eq(t, "qmd") {
        MemoryBackend::Qmd
    } else if str_eq(t, "3") || str_eq(t, "none") || str_eq(t, "disabled") {
        MemoryBackend::Disabled
    } else {
        current
    }
}

/// The citation mode answer: a number or a name, else the current one.
pub open spec fn citations_choice_spec(reply: Seq<char>, current: MemoryCitationsMode) -> MemoryCitationsMode {
    let t = trim(reply);
    if reply.len() == 0 {
        current
    } else if t == "1"@ || t == "auto"@ {
        MemoryCitationsMode::Auto
    } else if t == "2"@ || t == "on"@ {
        MemoryCitationsMode::On
    } else if t == "3"@ || t == "off"@ {
        MemoryCitationsMode::Off
    } else {
        current
    }
}

/// Reads the citation mode answer.
pub fn citations_choice(reply: &str, current: MemoryCitationsMode) -> (m: MemoryCitationsMode)
    ensures
        m == citations_choice_spec(reply@, current),
{
    if reply.is_empty() {
        return current;
    }
    let t = trimmed(reply);
    let t = t.as_str();
    if str_eq(t, "1") || str_eq(t, "auto") {
        MemoryCitationsMode::Auto
    } else if str_eq(t, "2") || str_eq(t, "on") {
        MemoryCitationsMode::On
    } else if str_eq(t, "3") || str_eq(t, "off") {
        MemoryCitationsMode::Off
    } else {
        current
    }
}

/// The hint shown with a yes/no question: the capital letter is the
/// current answer.
pub fn yes_no_hint(current: bool) -> (r: &'static str)
    ensures
        r@ == (if current {
            "Y/n"@
        } else {
            "y/N"@
        }),
{
    if current {
        "Y/n"
    } else {
        "y/N"
    }
}

/// A yes/no answer (without ASCII case): `y`/`yes` or `n`/`no`; no answer,
/// or any other, keeps the current value.
pub open spec fn yes_no_spec(reply: Seq<char>, current: bool) -> bool {
    let l = ascii_lowercase(reply);
    if l == "y"@ || l == "yes"@ {
        true
    } else if l == "n"@ || l == "no"@ {
        false
    } else {
        current
    }
}

/// Reads a yes/no answer with a current value.
pub fn yes_no_choice(reply: &str, current: bool) -> (b: bool)
    ensures
        b == yes_no_spec(reply@, current),
{
    let l = to_ascii_lowercase(reply);
    if str_eq(l.as_str(), "y") || str_eq(l.as_str(), "yes") {
        true
    } else if str_eq(l.as_str(), "n") || str_eq(l.as_str(), "no") {
        false
    } else {
        current
    }
}

/// Whether an answer (without ASCII case) is `y` or `yes`.
pub open spec fn says_yes(reply: Seq<char>) -> bool {
    let l = ascii_lowercase(reply);
    l == "y"@ || l == "yes"@
}

/// Reads an answer that enables something only on `y`/`yes`.
pub fn is_yes(reply: &str) -> (b: bool)
    ensures
        b == says_yes(reply@),
{
    let l = to_ascii_lowercase(reply);
    str_eq(l.as_str(), "y") || str_eq(l.as_str(), "yes")
}

/// Whether heartbeat is enabled after its answer: no answer keeps the
/// current setting; any other answer enables it only on `y`/`yes`.
pub open spec fn heartbeat_enabled_spec(reply: Seq<char>, current: bool) -> bool {
    if reply.len() == 0 {
        current
    } else {
        says_yes(reply)
    }
}

/// Reads the heartbeat question's answer.
pub fn heartbeat_enabled_choice(reply: &str, current: bool) -> (b: bool)
    ensures
        b == heartbeat_enabled_spec(reply@, current),
{
    if reply.is_empty() {
        current
    } else {
        is_yes(reply)
    }
}

/// The heartbeat interval in seconds after an answer in minutes (at least
/// one minute); no answer or one that is not a number keeps it.
pub open spec fn heartbeat_interval_spec(reply: Seq<char>, current_secs: u64) -> nat {
    if reply.len() == 0 {
        current_secs as nat
    } else {
        match parse_uint(reply, u64::MAX as nat) {
            Some(m) => (if m < 1 {
                1
            } else {
                m
            }) * 60,
            None => current_secs as nat,
        }
    }
}

/// Reads the heartbeat interval answer. An answer whose seconds do not fit
/// in a `u64` is left out.
pub fn heartbeat_interval_choice(reply: &str, current_secs: u64) -> (secs: u64)
    requires
        match parse_uint(reply@, u64::MAX as nat) {
            Some(m) => m * 60 <= u64::MAX,
            None => true,
        },
    ensures
        secs == heartbeat_interval_spec(reply@, current_secs),
{
    if reply.is_empty() {
        return current_secs;
    }
    match parse_unsigned(reply, 18446744073709551615u64) {
        Some(m) => {
            let m = if m < 1 {
                1
            } else {
                m
            };
            m * 60
        },
        None => current_secs,
    }
}

/// The runtime menu answer (trimmed; no answer picks 1): native, Docker,
/// or (on macOS) Apple Container; anything else asks again (`None`).
pub open spec fn runtime_choice_spec(reply: Seq<char>, on_macos: bool) -> Option<RuntimeType> {
    let t = trim(reply);
    if t.len() == 0 || t == "1"@ {
        Some(RuntimeType::Native)
    } else if t == "2"@ {
        Some(RuntimeType::Docker)
    } else if on_macos && t == "3"@ {
        Some(RuntimeType::AppleContainer)
    } else {
        None
    }
}

/// Reads the runtime menu answer.
pub fn runtime_choice(reply: &str, on_macos: bool) -> (r: Option<RuntimeType>)
    ensures
        r == runtime_choice_spec(reply@, on_macos),
{
    let t = trimmed(reply);
    let t = t.as_str();
    if t.is_empty() || str_eq(t, "1") {
        Some(RuntimeType::Native)
    } else if str_eq(t, "2") {
        Some(RuntimeType::Docker)
    } else if on_macos && str_eq(t, "3") {
        Some(RuntimeType::AppleContainer)
    } else {
        None
    }
}

/// Whether the native fallback is allowed: the trimmed answer, in lower
/// case, is `y` or `yes`.
pub open spec fn fallback_allowed_spec(reply: Seq<char>) -> bool {
    let l = crate::text::lower_text(trim(reply));
    l == "y"@ || l == "yes"@
}

/// Reads the native fallback question's answer.
pub fn fallback_allowed(reply: &str) -> (b: bool)
    ensures
        b == fallback_allowed_spec(reply@),
{
    let t = trimmed(reply);
    let l = to_lowercase(t.as_str());
    str_eq(l.as_str(), "y") || str_eq(l.as_str(), "yes")
}

/// Sets a provider's API key, creating its configuration if needed.
pub fn set_provider_key(slot: &mut Option<ProviderConfig>, key: String)
    ensures
        *final(slot) matches Some(c) && c.api_key == Some(key) && match *old(slot) {
            Some(o) => c.api_base == o.api_base && c.auth_method == o.auth_method,
            None => c.api_base is None && c.auth_method is None,
        },
{
    let mut c = match slot.take() {
        Some(c) => c,
        None => ProviderConfig::default(),
    };
    c.api_key = Some(key);
    *slot = Some(c);
}

/// Whether configuring OpenAI also makes its model the default: only when
/// no Anthropic key is set.
pub fn openai_becomes_default(anthropic: &Option<ProviderConfig>) -> (b: bool)
    ensures
        b == !(*anthropic matches Some(c) && c.api_key matches Some(k) && k@.len() > 0),
{
    match anthropic {
        Some(c) => match &c.api_key {
            Some(k) => k.as_str().is_empty(),
            None => true,
        },
        None => true,
    }
}

/// Enables Telegram with the given bot token, creating its configuration
/// if needed.
pub fn enable_telegram(slot: &mut Option<TelegramConfig>, token: String)
    ensures
        *final(slot) matches Some(c) && c.token == token && c.enabled && match *old(slot) {
            Some(o) => c.allow_from == o.allow_from && c.deny_by_default == o.deny_by_default,
            None => c.allow_from@.len() == 0 && !c.deny_by_default,
        },
{
    let mut c = match slot.take() {
        Some(c) => c,
        None => TelegramConfig::default(),
    };
    c.token = token;
    c.enabled = true;
    *slot = Some(c);
}

/// Enables the WhatsApp bridge channel with the answers for its bridge URL
/// and allowlist (each kept when not answered; the allowlist is
/// comma-separated).
pub fn enable_whatsapp_channel(slot: &mut Option<WhatsAppConfig>, bridge_url: String, allowlist: &str)
    ensures
        *final(slot) matches Some(c) && c.enabled && (if bridge_url@.len() > 0 {
            c.bridge_url == bridge_url
        } else {
            match *old(slot) {
                Some(o) => c.bridge_url == o.bridge_url,
                None => c.bridge_url@ == "ws://localhost:3001"@,
            }
        }) && (if allowlist@.len() > 0 {
            texts(c.allow_from@) == comma_list_spec(allowlist@)
        } else {
            match *old(slot) {
                Some(o) => c.allow_from == o.allow_from,
                None => c.allow_from@.len() == 0,
            }
        }) && match *old(slot) {
            Some(o) => c.bridge_token == o.bridge_token && c.deny_by_default == o.deny_by_default
                && c.bridge_managed == o.bridge_managed,
            None => c.bridge_token is None && !c.deny_by_default && c.bridge_managed,
        },
{
    let mut c = match slot.take() {
        Some(c) => c,
        None => WhatsAppConfig::default(),
    };
    c.enabled = true;
    if !bridge_url.as_str().is_empty() {
        c.bridge_url = bridge_url;
    }
    if !allowlist.is_empty() {
        c.allow_from = comma_list(allowlist);
    }
    *slot = Some(c);
}

} // verus!
