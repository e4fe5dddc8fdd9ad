//! Configuration overrides from environment variables
//! (`ZEPTOCLAW_SECTION_SUBSECTION_KEY`). The variables are handed in as
//! name/value pairs, so every override is a function of the configuration
//! and those pairs.

use vstd::prelude::*;
use crate::config::ChannelsConfig;
use crate::config::DiscordConfig;
use crate::config::GatewayConfig;
use crate::config::HeartbeatConfig;
use crate::config::MemoryBackend;
use crate::config::MemoryCitationsMode;
use crate::config::ProviderConfig;
use crate::config::ProvidersConfig;
use crate::config::SkillsConfig;
use crate::config::SlackConfig;
use crate::config::TelegramConfig;
use crate::config::ToolsConfig;
use crate::config::WhatsAppConfig;
use crate::split::split_char;
use crate::split::split_char_ranges;
use crate::text::ascii_lowercase;
use crate::text::chars_of;
use crate::text::pair_texts;
use crate::text::opt_text;
use crate::text::parse_uint;
use crate::text::parse_uint_range;
use crate::text::str_eq;
use crate::text::texts;
use crate::text::to_ascii_lowercase;
use crate::text::trim;
use crate::text::trim_range;
use crate::text::trimmed;

verus! {

// ---------------------------------------------------------------------------
// Reading variables
// ---------------------------------------------------------------------------

/// The value of the first variable of this name.
pub open spec fn env_value(env: Seq<(Seq<char>, Seq<char>)>, name: Seq<char>) -> Option<Seq<char>>
    decreases env.len(),
{
    if env.len() == 0 {
        None
    } else if env[0].0 == name {
        Some(env[0].1)
    } else {
        env_value(env.drop_first(), name)
    }
}

/// The value of a variable, if it is set.
pub fn env_var(env: &Vec<(String, String)>, name: &str) -> (r: Option<String>)
    ensures
        opt_text(r) == env_value(pair_texts(env@), name@),
{
    let ghost ev = pair_texts(env@);
    let mut i: usize = 0;
    assert(ev.skip(0) =~= ev);
    while i < env.len()
        invariant
            i <= env@.len(),
            ev == pair_texts(env@),
            env_value(ev, name@) == env_value(ev.skip(i as int), name@),
        decreases env@.len() - i,
    {
        assert(ev.skip(i as int)[0] == ev[i as int]);
        assert(ev.skip(i as int).drop_first() =~= ev.skip(i + 1));
        if str_eq(env[i].0.as_str(), name) {
            return Some(env[i].1.clone());
        }
        i += 1;
    }
    assert(ev.skip(i as int) =~= Seq::<(Seq<char>, Seq<char>)>::empty());
    None
}

/// What `str::parse::<bool>` gives: exactly `true` or `false`.
pub open spec fn parse_bool_spec(s: Seq<char>) -> Option<bool> {
    if s == "true"@ {
        Some(true)
    } else if s == "false"@ {
        Some(false)
    } else {
        None
    }
}

/// `str::parse::<bool>`.
pub fn parse_bool(s: &str) -> (r: Option<bool>)
    ensures
        r == parse_bool_spec(s@),
{
    if str_eq(s, "true") {
        Some(true)
    } else if str_eq(s, "false") {
        Some(false)
    } else {
        None
    }
}

/// A variable read as a boolean: `None` when unset or not `true`/`false`.
pub open spec fn env_bool(env: Seq<(Seq<char>, Seq<char>)>, name: Seq<char>) -> Option<bool> {
    match env_value(env, name) {
        Some(v) => parse_bool_spec(v),
        None => None,
    }
}

/// A variable read as an unsigned integer no larger than `max`.
pub open spec fn env_uint(env: Seq<(Seq<char>, Seq<char>)>, name: Seq<char>, max: nat) -> Option<nat> {
    match env_value(env, name) {
        Some(v) => parse_uint(v, max),
        None => None,
    }
}

/// `str::parse` for an unsigned integer type whose largest value is `max`.
pub fn parse_unsigned(s: &str, max: u64) -> (r: Option<u64>)
    ensures
        match parse_uint(s@, max as nat) {
            Some(n) => r == Some(n as u64),
            None => r is None,
        },
{
    let v = chars_of(s);
    let n = v.len();
    assert(v@.subrange(0, n as int) =~= s@);
    parse_uint_range(&v, 0, n, max)
}

/// `v` limited to `lo..=hi` (`Ord::clamp`).
pub open spec fn clamp(v: nat, lo: nat, hi: nat) -> nat {
    if v < lo {
        lo
    } else if v > hi {
        hi
    } else {
        v
    }
}

/// The non-empty items of a comma-separated list, each trimmed.
pub open spec fn comma_list_spec(s: Seq<char>) -> Seq<Seq<char>> {
    split_char(s, ',').map_values(|t: Seq<char>| trim(t)).filter(|t: Seq<char>| t.len() > 0)
}

/// The non-empty, trimmed items of a comma-separated list.
pub fn comma_list(s: &str) -> (r: Vec<String>)
    ensures
        texts(r@) == comma_list_spec(s@),
{
    let v = chars_of(s);
    let n = v.len();
    assert(v@.subrange(0, n as int) =~= s@);
    let parts = split_char_ranges(&v, 0, n, ',');
    let ghost pieces = split_char(s@, ',').map_values(|t: Seq<char>| trim(t));
    let ghost pred = |t: Seq<char>| t.len() > 0;
    let mut r: Vec<String> = Vec::new();
    let mut k: usize = 0;
    assert(pieces.take(0).filter(pred) =~= Seq::<Seq<char>>::empty()) by {
        reveal(Seq::filter);
    }
    assert(texts(r@) =~= Seq::<Seq<char>>::empty());
    while k < parts.len()
        invariant
            k <= parts@.len(),
            parts@.len() == split_char(v@.subrange(0, n as int), ',').len(),
            v@.subrange(0, n as int) == s@,
            n == v@.len(),
            forall|j: int|
                0 <= j < parts@.len() ==> 0 <= (#[trigger] parts@[j]).0 <= parts@[j].1 <= n && v@.subrange(
                    parts@[j].0 as int,
                    parts@[j].1 as int,
                ) == split_char(v@.subrange(0, n as int), ',')[j],
            pieces == split_char(s@, ',').map_values(|t: Seq<char>| trim(t)),
            pred == (|t: Seq<char>| t.len() > 0),
            texts(r@) == pieces.take(k as int).filter(pred),
        decreases parts@.len() - k,
    {
        let (a, b) = parts[k];
        let (x, y) = trim_range(&v, a, b);
        proof {
            crate::seqs::lemma_filter_take_step(pieces, pred, k as int);
        }
        assert(pieces[k as int] == v@.subrange(x as int, y as int));
        if x < y {
            let ghost before = r@;
            r.push(crate::text::string_of_range(&v, x, y));
            assert(texts(r@) =~= texts(before).push(pieces[k as int]));
        }
        k += 1;
    }
    assert(pieces.take(k as int) =~= pieces);
    r
}

// ---------------------------------------------------------------------------
// Providers
// ---------------------------------------------------------------------------

/// A provider slot after its key and base URL overrides: unchanged without
/// either; otherwise a configuration (the existing one, or a default one)
/// with each given value set.
pub open spec fn provider_patched(
    old: Option<ProviderConfig>,
    new: Option<ProviderConfig>,
    key: Option<Seq<char>>,
    base: Option<Seq<char>>,
) -> bool {
    if key is None && base is None {
        new == old
    } else {
        &&& new is Some
        &&& opt_text(new.unwrap().api_key) == if key is Some {
            key
        } else {
            match old {
                Some(o) => opt_text(o.api_key),
                None => None,
            }
        }
        &&& opt_text(new.unwrap().api_base) == if base is Some {
            base
        } else {
            match old {
                Some(o) => opt_text(o.api_base),
                None => None,
            }
        }
        &&& opt_text(new.unwrap().auth_method) == match old {
            Some(o) => opt_text(o.auth_method),
            None => None,
        }
    }
}

fn patch_provider(slot: &mut Option<ProviderConfig>, key: Option<String>, base: Option<String>)
    ensures
        provider_patched(*old(slot), *final(slot), opt_text(key), opt_text(base)),
{
    if key.is_none() && base.is_none() {
        return;
    }
    let mut c = match slot.take() {
        Some(c) => c,
        None => ProviderConfig::default(),
    };
    match key {
        Some(k) => {
            c.api_key = Some(k);
        },
        None => {},
    }
    match base {
        Some(b) => {
            c.api_base = Some(b);
        },
        None => {},
    }
    *slot = Some(c);
}

impl ProvidersConfig {
    /// Applies the provider API key and base URL variables.
    pub fn apply_env_overrides(&mut self, env: &Vec<(String, String)>)
        ensures
            provider_patched(
                old(self).anthropic,
                final(self).anthropic,
                env_value(pair_texts(env@), "ZEPTOCLAW_PROVIDERS_ANTHROPIC_API_KEY"@),
                env_value(pair_texts(env@), "ZEPTOCLAW_PROVIDERS_ANTHROPIC_API_BASE"@),
            ),
            provider_patched(
                old(self).openai,
                final(self).openai,
                env_value(pair_texts(env@), "ZEPTOCLAW_PROVIDERS_OPENAI_API_KEY"@),
                env_value(pair_texts(env@), "ZEPTOCLAW_PROVIDERS_OPENAI_API_BASE"@),
            ),
            provider_patched(
                old(self).openrouter,
                final(self).openrouter,
                env_value(pair_texts(env@), "ZEPTOCLAW_PROVIDERS_OPENROUTER_API_KEY"@),
                env_value(pair_texts(env@), "ZEPTOCLAW_PROVIDERS_OPENROUTER_API_BASE"@),
            ),
            provider_patched(
                old(self).groq,
                final(self).groq,
                env_value(pair_texts(env@), "ZEPTOCLAW_PROVIDERS_GROQ_API_KEY"@),
                None,
            ),
            provider_patched(
                old(self).zhipu,
                final(self).zhipu,
                env_value(pair_texts(env@), "ZEPTOCLAW_PROVIDERS_ZHIPU_API_KEY"@),
                env_value(pair_texts(env@), "ZEPTOCLAW_PROVIDERS_ZHIPU_API_BASE"@),
            ),
            provider_patched(
                old(self).gemini,
                final(self).gemini,
                env_value(pair_texts(env@), "ZEPTOCLAW_PROVIDERS_GEMINI_API_KEY"@),
                None,
            ),
            final(self).vllm == old(self).vllm,
            final(self).ollama == old(self).ollama,
            final(self).nvidia == old(self).nvidia,
            final(self).retry == old(self).retry,
            final(self).fallback == old(self).fallback,
            final(self).rotation == old(self).rotation,
            final(self).plugins == old(self).plugins,
    {
        patch_provider(
            &mut self.anthropic,
            env_var(env, "ZEPTOCLAW_PROVIDERS_ANTHROPIC_API_KEY"),
            env_var(env, "ZEPTOCLAW_PROVIDERS_ANTHROPIC_API_BASE"),
        );
        patch_provider(
            &mut self.openai,
            env_var(env, "ZEPTOCLAW_PROVIDERS_OPENAI_API_KEY"),
            env_var(env, "ZEPTOCLAW_PROVIDERS_OPENAI_API_BASE"),
        );
        patch_provider(
            &mut self.openrouter,
            env_var(env, "ZEPTOCLAW_PROVIDERS_OPENROUTER_API_KEY"),
            env_var(env, "ZEPTOCLAW_PROVIDERS_OPENROUTER_API_BASE"),
        );
        patch_provider(&mut self.groq, env_var(env, "ZEPTOCLAW_PROVIDERS_GROQ_API_KEY"), None);
        patch_provider(
            &mut self.zhipu,
            env_var(env, "ZEPTOCLAW_PROVIDERS_ZHIPU_API_KEY"),
            env_var(env, "ZEPTOCLAW_PROVIDERS_ZHIPU_API_BASE"),
        );
        patch_provider(&mut self.gemini, env_var(env, "ZEPTOCLAW_PROVIDERS_GEMINI_API_KEY"), None);
    }
}

// ---------------------------------------------------------------------------
// Channels
// ---------------------------------------------------------------------------

/// A value override, else the old value.
pub open spec fn or_else<T>(v: Option<T>, dflt: T) -> T {
    match v {
        Some(x) => x,
        None => dflt,
    }
}

/// A Telegram slot after its token and enabled overrides (the enabled
/// override counts only when it parses as a boolean).
pub open spec fn telegram_patched(
    old: Option<TelegramConfig>,
    new: Option<TelegramConfig>,
    token: Option<Seq<char>>,
    enabled: Option<bool>,
) -> bool {
    if token is None && enabled is None {
        new == old
    } else {
        &&& new is Some
        &&& new.unwrap().token@ == or_else(token, match old { Some(o) => o.token@, None => Seq::<char>::empty() })
        &&& new.unwrap().enabled == or_else(enabled, match old { Some(o) => o.enabled, None => false })
        &&& match old {
            Some(o) => new.unwrap().allow_from == o.allow_from && new.unwrap().deny_by_default == o.deny_by_default,
            None => new.unwrap().allow_from@.len() == 0 && !new.unwrap().deny_by_default,
        }
    }
}

/// A Discord slot after its token and enabled overrides.
pub open spec fn discord_patched(
    old: Option<DiscordConfig>,
    new: Option<DiscordConfig>,
    token: Option<Seq<char>>,
    enabled: Option<bool>,
) -> bool {
    if token is None && enabled is None {
        new == old
    } else {
        &&& new is Some
        &&& new.unwrap().token@ == or_else(token, match old { Some(o) => o.token@, None => Seq::<char>::empty() })
        &&& new.unwrap().enabled == or_else(enabled, match old { Some(o) => o.enabled, None => false })
        &&& match old {
            Some(o) => new.unwrap().allow_from == o.allow_from && new.unwrap().deny_by_default == o.deny_by_default,
            None => new.unwrap().allow_from@.len() == 0 && !new.unwrap().deny_by_default,
        }
    }
}

/// A Slack slot after its token and enabled overrides.
pub open spec fn slack_patched(
    old: Option<SlackConfig>,
    new: Option<SlackConfig>,
    bot_token: Option<Seq<char>>,
    app_token: Option<Seq<char>>,
    enabled: Option<bool>,
) -> bool {
    if bot_token is None && app_token is None && enabled is None {
        new == old
    } else {
        &&& new is Some
        &&& new.unwrap().bot_token@ == or_else(bot_token, match old { Some(o) => o.bot_token@, None => Seq::<char>::empty() })
        &&& new.unwrap().app_token@ == or_else(app_token, match old { Some(o) => o.app_token@, None => Seq::<char>::empty() })
        &&& new.unwrap().enabled == or_else(enabled, match old { Some(o) => o.enabled, None => false })
        &&& match old {
            Some(o) => new.unwrap().allow_from == o.allow_from && new.unwrap().deny_by_default == o.deny_by_default,
            None => new.unwrap().allow_from@.len() == 0 && !new.unwrap().deny_by_default,
        }
    }
}

/// A WhatsApp slot after its bridge URL and enabled overrides.
pub open spec fn whatsapp_patched(
    old: Option<WhatsAppConfig>,
    new: Option<WhatsAppConfig>,
    bridge_url: Option<Seq<char>>,
    enabled: Option<bool>,
) -> bool {
    if bridge_url is None && enabled is None {
        new == old
    } else {
        &&& new is Some
        &&& new.unwrap().bridge_url@ == or_else(
            bridge_url,
            match old {
                Some(o) => o.bridge_url@,
                None => "ws://localhost:3001"@,
            },
        )
        &&& new.unwrap().enabled == or_else(enabled, match old { Some(o) => o.enabled, None => false })
        &&& match old {
            Some(o) => new.unwrap().bridge_token == o.bridge_token && new.unwrap().allow_from == o.allow_from
                && new.unwrap().deny_by_default == o.deny_by_default && new.unwrap().bridge_managed
                == o.bridge_managed,
            None => new.unwrap().bridge_token is None && new.unwrap().allow_from@.len() == 0
                && !new.unwrap().deny_by_default && new.unwrap().bridge_managed,
        }
    }
}

fn env_bool_of(env: &Vec<(String, String)>, name: &str) -> (r: Option<bool>)
    ensures
        r == env_bool(pair_texts(env@), name@),
{
    match env_var(env, name) {
        Some(v) => parse_bool(v.as_str()),
        None => None,
    }
}

fn patch_telegram(slot: &mut Option<TelegramConfig>, token: Option<String>, enabled: Option<bool>)
    ensures
        telegram_patched(*old(slot), *final(slot), opt_text(token), enabled),
{
    if token.is_none() && enabled.is_none() {
        return;
    }
    let mut c = match slot.take() {
        Some(c) => c,
        None => {
            let d = TelegramConfig::default();
            assert(d.token@ =~= Seq::<char>::empty());
            d
        },
    };
    match token {
        Some(t) => {
            c.token = t;
        },
        None => {},
    }
    match enabled {
        Some(b) => {
            c.enabled = b;
        },
        None => {},
    }
    *slot = Some(c);
}

fn patch_discord(slot: &mut Option<DiscordConfig>, token: Option<String>, enabled: Option<bool>)
    ensures
        discord_patched(*old(slot), *final(slot), opt_text(token), enabled),
{
    if token.is_none() && enabled.is_none() {
        return;
    }
    let mut c = match slot.take() {
        Some(c) => c,
        None => {
            let d = DiscordConfig::default();
            assert(d.token@ =~= Seq::<char>::empty());
            d
        },
    };
    match token {
        Some(t) => {
            c.token = t;
        },
        None => {},
    }
    match enabled {
        Some(b) => {
            c.enabled = b;
        },
        None => {},
    }
    *slot = Some(c);
}

fn patch_slack(slot: &mut Option<SlackConfig>, bot: Option<String>, app: Option<String>, enabled: Option<bool>)
    ensures
        slack_patched(*old(slot), *final(slot), opt_text(bot), opt_text(app), enabled),
{
    if bot.is_none() && app.is_none() && enabled.is_none() {
        return;
    }
    let mut c = match slot.take() {
        Some(c) => c,
        None => {
            let d = SlackConfig::default();
            assert(d.bot_token@ =~= Seq::<char>::empty());
            assert(d.app_token@ =~= Seq::<char>::empty());
            d
        },
    };
    match bot {
        Some(t) => {
            c.bot_token = t;
        },
        None => {},
    }
    match app {
        Some(t) => {
            c.app_token = t;
        },
        None => {},
    }
    match enabled {
        Some(b) => {
            c.enabled = b;
        },
        None => {},
    }
    *slot = Some(c);
}

fn patch_whatsapp(slot: &mut Option<WhatsAppConfig>, url: Option<String>, enabled: Option<bool>)
    ensures
        whatsapp_patched(*old(slot), *final(slot), opt_text(url), enabled),
{
    if url.is_none() && enabled.is_none() {
        return;
    }
    let mut c = match slot.take() {
        Some(c) => c,
        None => WhatsAppConfig::default(),
    };
    match url {
        Some(u) => {
            c.bridge_url = u;
        },
        None => {},
    }
    match enabled {
        Some(b) => {
            c.enabled = b;
        },
        None => {},
    }
    *slot = Some(c);
}

impl ChannelsConfig {
    /// Applies the Telegram, Discord, Slack and WhatsApp variables.
    pub fn apply_env_overrides(&mut self, env: &Vec<(String, String)>)
        ensures
            telegram_patched(
                old(self).telegram,
                final(self).telegram,
                env_value(pair_texts(env@), "ZEPTOCLAW_CHANNELS_TELEGRAM_TOKEN"@),
                env_bool(pair_texts(env@), "ZEPTOCLAW_CHANNELS_TELEGRAM_ENABLED"@),
            ),
            discord_patched(
                old(self).discord,
                final(self).discord,
                env_value(pair_texts(env@), "ZEPTOCLAW_CHANNELS_DISCORD_TOKEN"@),
                env_bool(pair_texts(env@), "ZEPTOCLAW_CHANNELS_DISCORD_ENABLED"@),
            ),
            slack_patched(
                old(self).slack,
                final(self).slack,
                env_value(pair_texts(env@), "ZEPTOCLAW_CHANNELS_SLACK_BOT_TOKEN"@),
                env_value(pair_texts(env@), "ZEPTOCLAW_CHANNELS_SLACK_APP_TOKEN"@),
                env_bool(pair_texts(env@), "ZEPTOCLAW_CHANNELS_SLACK_ENABLED"@),
            ),
            whatsapp_patched(
                old(self).whatsapp,
                final(self).whatsapp,
                env_value(pair_texts(env@), "ZEPTOCLAW_CHANNELS_WHATSAPP_BRIDGE_URL"@),
                env_bool(pair_texts(env@), "ZEPTOCLAW_CHANNELS_WHATSAPP_ENABLED"@),
            ),
            final(self).whatsapp_cloud == old(self).whatsapp_cloud,
            final(self).feishu == old(self).feishu,
            final(self).lark == old(self).lark,
            final(self).maixcam == old(self).maixcam,
            final(self).qq == old(self).qq,
    {
        patch_telegram(
            &mut self.telegram,
            env_var(env, "ZEPTOCLAW_CHANNELS_TELEGRAM_TOKEN"),
            env_bool_of(env, "ZEPTOCLAW_CHANNELS_TELEGRAM_ENABLED"),
        );
        patch_discord(
            &mut self.discord,
            env_var(env, "ZEPTOCLAW_CHANNELS_DISCORD_TOKEN"),
            env_bool_of(env, "ZEPTOCLAW_CHANNELS_DISCORD_ENABLED"),
        );
        patch_slack(
            &mut self.slack,
            env_var(env, "ZEPTOCLAW_CHANNELS_SLACK_BOT_TOKEN"),
            env_var(env, "ZEPTOCLAW_CHANNELS_SLACK_APP_TOKEN"),
            env_bool_of(env, "ZEPTOCLAW_CHANNELS_SLACK_ENABLED"),
        );
        patch_whatsapp(
            &mut self.whatsapp,
            env_var(env, "ZEPTOCLAW_CHANNELS_WHATSAPP_BRIDGE_URL"),
            env_bool_of(env, "ZEPTOCLAW_CHANNELS_WHATSAPP_ENABLED"),
        );
    }
}

// ---------------------------------------------------------------------------
// Tools, heartbeat, skills, gateway
// ---------------------------------------------------------------------------

/// The first of two optional values that is set.
pub open spec fn first_set(a: Option<Seq<char>>, b: Option<Seq<char>>) -> Option<Seq<char>> {
    if a is Some {
        a
    } else {
        b
    }
}

/// An optional text after an override that replaces it when set.
pub open spec fn replaced(old: Option<String>, new: Option<String>, v: Option<Seq<char>>) -> bool {
    match v {
        Some(x) => opt_text(new) == Some(x),
        None => new == old,
    }
}

fn first_var(env: &Vec<(String, String)>, a: &str, b: &str) -> (r: Option<String>)
    ensures
        opt_text(r) == first_set(env_value(pair_texts(env@), a@), env_value(pair_texts(env@), b@)),
{
    match env_var(env, a) {
        Some(v) => Some(v),
        None => env_var(env, b),
    }
}

impl ToolsConfig {
    /// Applies the web search, WhatsApp and Google Sheets tool variables.
    /// Tool-scoped variables win over the integration-scoped ones; the
    /// search result count is kept within 1..=10; a blank default language
    /// is ignored.
    pub fn apply_env_overrides(&mut self, env: &Vec<(String, String)>)
        ensures
            replaced(
                old(self).web.search.api_key,
                final(self).web.search.api_key,
                first_set(
                    env_value(pair_texts(env@), "ZEPTOCLAW_TOOLS_WEB_SEARCH_API_KEY"@),
                    first_set(
                        env_value(pair_texts(env@), "ZEPTOCLAW_INTEGRATIONS_BRAVE_API_KEY"@),
                        env_value(pair_texts(env@), "BRAVE_API_KEY"@),
                    ),
                ),
            ),
            final(self).web.search.max_results == match env_uint(
                pair_texts(env@),
                "ZEPTOCLAW_TOOLS_WEB_SEARCH_MAX_RESULTS"@,
                u32::MAX as nat,
            ) {
                Some(n) => clamp(n, 1, 10),
                None => old(self).web.search.max_results as nat,
            },
            replaced(
                old(self).whatsapp.phone_number_id,
                final(self).whatsapp.phone_number_id,
                first_set(
                    env_value(pair_texts(env@), "ZEPTOCLAW_TOOLS_WHATSAPP_PHONE_NUMBER_ID"@),
                    env_value(pair_texts(env@), "ZEPTOCLAW_INTEGRATIONS_WHATSAPP_PHONE_NUMBER_ID"@),
                ),
            ),
            replaced(
                old(self).whatsapp.access_token,
                final(self).whatsapp.access_token,
                first_set(
                    env_value(pair_texts(env@), "ZEPTOCLAW_TOOLS_WHATSAPP_ACCESS_TOKEN"@),
                    env_value(pair_texts(env@), "ZEPTOCLAW_INTEGRATIONS_WHATSAPP_ACCESS_TOKEN"@),
                ),
            ),
            final(self).whatsapp.default_language@ == match env_value(
                pair_texts(env@),
                "ZEPTOCLAW_TOOLS_WHATSAPP_DEFAULT_LANGUAGE"@,
            ) {
                Some(v) => if trim(v).len() > 0 {
                    v
                } else {
                    old(self).whatsapp.default_language@
                },
                None => old(self).whatsapp.default_language@,
            },
            replaced(
                old(self).google_sheets.access_token,
                final(self).google_sheets.access_token,
                first_set(
                    env_value(pair_texts(env@), "ZEPTOCLAW_TOOLS_GOOGLE_SHEETS_ACCESS_TOKEN"@),
                    env_value(pair_texts(env@), "ZEPTOCLAW_INTEGRATIONS_GOOGLE_SHEETS_ACCESS_TOKEN"@),
                ),
            ),
            replaced(
                old(self).google_sheets.service_account_base64,
                final(self).google_sheets.service_account_base64,
                first_set(
                    env_value(pair_texts(env@), "ZEPTOCLAW_TOOLS_GOOGLE_SHEETS_SERVICE_ACCOUNT_BASE64"@),
                    env_value(
                        pair_texts(env@),
                        "ZEPTOCLAW_INTEGRATIONS_GOOGLE_SHEETS_SERVICE_ACCOUNT_BASE64"@,
                    ),
                ),
            ),
            final(self).whatsapp.business_account_id == old(self).whatsapp.business_account_id,
            final(self).whatsapp.webhook_verify_token == old(self).whatsapp.webhook_verify_token,
            final(self).http_request == old(self).http_request,
            final(self).transcribe == old(self).transcribe,
            final(self).skills == old(self).skills,
    {
        let key = match env_var(env, "ZEPTOCLAW_TOOLS_WEB_SEARCH_API_KEY") {
            Some(v) => Some(v),
            None => first_var(env, "ZEPTOCLAW_INTEGRATIONS_BRAVE_API_KEY", "BRAVE_API_KEY"),
        };
        if key.is_some() {
            self.web.search.api_key = key;
        }
        match env_var(env, "ZEPTOCLAW_TOOLS_WEB_SEARCH_MAX_RESULTS") {
            Some(v) => match parse_unsigned(v.as_str(), 4294967295u64) {
                Some(n) => {
                    self.web.search.max_results = if n < 1 {
                        1
                    } else if n > 10 {
                        10
                    } else {
                        n as u32
                    };
                },
                None => {},
            },
            None => {},
        }
        let phone = first_var(
            env,
            "ZEPTOCLAW_TOOLS_WHATSAPP_PHONE_NUMBER_ID",
            "ZEPTOCLAW_INTEGRATIONS_WHATSAPP_PHONE_NUMBER_ID",
        );
        if phone.is_some() {
            self.whatsapp.phone_number_id = phone;
        }
        let token = first_var(
            env,
            "ZEPTOCLAW_TOOLS_WHATSAPP_ACCESS_TOKEN",
            "ZEPTOCLAW_INTEGRATIONS_WHATSAPP_ACCESS_TOKEN",
        );
        if token.is_some() {
            self.whatsapp.access_token = token;
        }
        match env_var(env, "ZEPTOCLAW_TOOLS_WHATSAPP_DEFAULT_LANGUAGE") {
            Some(v) => {
                if !trimmed(v.as_str()).as_str().is_empty() {
                    self.whatsapp.default_language = v;
                }
            },
            None => {},
        }
        let sheets = first_var(
            env,
            "ZEPTOCLAW_TOOLS_GOOGLE_SHEETS_ACCESS_TOKEN",
            "ZEPTOCLAW_INTEGRATIONS_GOOGLE_SHEETS_ACCESS_TOKEN",
        );
        if sheets.is_some() {
            self.google_sheets.access_token = sheets;
        }
        let sa = first_var(
            env,
            "ZEPTOCLAW_TOOLS_GOOGLE_SHEETS_SERVICE_ACCOUNT_BASE64",
            "ZEPTOCLAW_INTEGRATIONS_GOOGLE_SHEETS_SERVICE_ACCOUNT_BASE64",
        );
        if sa.is_some() {
            self.google_sheets.service_account_base64 = sa;
        }
    }
}

impl HeartbeatConfig {
    /// Applies the heartbeat variables; the interval is kept within 30
    /// seconds and a day, and a blank file path is ignored.
    pub fn apply_env_overrides(&mut self, env: &Vec<(String, String)>)
        ensures
            final(self).enabled == or_else(
                env_bool(pair_texts(env@), "ZEPTOCLAW_HEARTBEAT_ENABLED"@),
                old(self).enabled,
            ),
            final(self).interval_secs == match env_uint(
                pair_texts(env@),
                "ZEPTOCLAW_HEARTBEAT_INTERVAL_SECS"@,
                u64::MAX as nat,
            ) {
                Some(n) => clamp(n, 30, 86400),
                None => old(self).interval_secs as nat,
            },
            match env_value(pair_texts(env@), "ZEPTOCLAW_HEARTBEAT_FILE_PATH"@) {
                Some(v) => if trim(v).len() > 0 {
                    opt_text(final(self).file_path) == Some(v)
                } else {
                    final(self).file_path == old(self).file_path
                },
                None => final(self).file_path == old(self).file_path,
            },
            final(self).deliver_to == old(self).deliver_to,
    {
        match env_bool_of(env, "ZEPTOCLAW_HEARTBEAT_ENABLED") {
            Some(b) => {
                self.enabled = b;
            },
            None => {},
        }
        match env_var(env, "ZEPTOCLAW_HEARTBEAT_INTERVAL_SECS") {
            Some(v) => match parse_unsigned(v.as_str(), 18446744073709551615u64) {
                Some(n) => {
                    self.interval_secs = if n < 30 {
                        30
                    } else if n > 86400 {
                        86400
                    } else {
                        n
                    };
                },
                None => {},
            },
            None => {},
        }
        match env_var(env, "ZEPTOCLAW_HEARTBEAT_FILE_PATH") {
            Some(v) => {
                if !trimmed(v.as_str()).as_str().is_empty() {
                    self.file_path = Some(v);
                }
            },
            None => {},
        }
    }
}

impl SkillsConfig {
    /// Applies the skills variables; the lists are comma-separated.
    pub fn apply_env_overrides(&mut self, env: &Vec<(String, String)>)
        ensures
            final(self).enabled == or_else(
                env_bool(pair_texts(env@), "ZEPTOCLAW_SKILLS_ENABLED"@),
                old(self).enabled,
            ),
            match env_value(pair_texts(env@), "ZEPTOCLAW_SKILLS_WORKSPACE_DIR"@) {
                Some(v) => if trim(v).len() > 0 {
                    opt_text(final(self).workspace_dir) == Some(v)
                } else {
                    final(self).workspace_dir == old(self).workspace_dir
                },
                None => final(self).workspace_dir == old(self).workspace_dir,
            },
            match env_value(pair_texts(env@), "ZEPTOCLAW_SKILLS_ALWAYS_LOAD"@) {
                Some(v) => texts(final(self).always_load@) == comma_list_spec(v),
                None => final(self).always_load == old(self).always_load,
            },
            match env_value(pair_texts(env@), "ZEPTOCLAW_SKILLS_DISABLED"@) {
                Some(v) => texts(final(self).disabled@) == comma_list_spec(v),
                None => final(self).disabled == old(self).disabled,
            },
    {
        match env_bool_of(env, "ZEPTOCLAW_SKILLS_ENABLED") {
            Some(b) => {
                self.enabled = b;
            },
            None => {},
        }
        match env_var(env, "ZEPTOCLAW_SKILLS_WORKSPACE_DIR") {
            Some(v) => {
                if !trimmed(v.as_str()).as_str().is_empty() {
                    self.workspace_dir = Some(v);
                }
            },
            None => {},
        }
        match env_var(env, "ZEPTOCLAW_SKILLS_ALWAYS_LOAD") {
            Some(v) => {
                self.always_load = comma_list(v.as_str());
            },
            None => {},
        }
        match env_var(env, "ZEPTOCLAW_SKILLS_DISABLED") {
            Some(v) => {
                self.disabled = comma_list(v.as_str());
            },
            None => {},
        }
    }
}

impl GatewayConfig {
    /// Applies the gateway host and port variables (a port that does not
    /// parse is ignored).
    pub fn apply_env_overrides(&mut self, env: &Vec<(String, String)>)
        ensures
            final(self).host@ == or_else(env_value(pair_texts(env@), "ZEPTOCLAW_GATEWAY_HOST"@), old(self).host@),
            final(self).port == match env_uint(pair_texts(env@), "ZEPTOCLAW_GATEWAY_PORT"@, 65535) {
                Some(n) => n,
                None => old(self).port as nat,
            },
            final(self).rate_limit == old(self).rate_limit,
    {
        match env_var(env, "ZEPTOCLAW_GATEWAY_HOST") {
            Some(v) => {
                self.host = v;
            },
            None => {},
        }
        match env_var(env, "ZEPTOCLAW_GATEWAY_PORT") {
            Some(v) => match parse_unsigned(v.as_str(), 65535) {
                Some(n) => {
                    self.port = n as u16;
                },
                None => {},
            },
            None => {},
        }
    }
}

// ---------------------------------------------------------------------------
// Memory and agent defaults
// ---------------------------------------------------------------------------

/// The memory backend named by a variable (trimmed, without ASCII case):
/// only `none`/`disabled`, `builtin` and `qmd` are accepted.
pub open spec fn memory_backend_named(v: Seq<char>) -> Option<MemoryBackend> {
    let n = ascii_lowercase(trim(v));
    if n == "none"@ || n == "disabled"@ {
        Some(MemoryBackend::Disabled)
    } else if n == "builtin"@ {
        Some(MemoryBackend::Builtin)
    } else if n == "qmd"@ {
        Some(MemoryBackend::Qmd)
    } else {
        None
    }
}

/// The citations mode named by a variable (trimmed, without ASCII case).
pub open spec fn citations_named(v: Seq<char>) -> Option<MemoryCitationsMode> {
    let n = ascii_lowercase(trim(v));
    if n == "on"@ || n == "true"@ {
        Some(MemoryCitationsMode::On)
    } else if n == "off"@ || n == "false"@ {
        Some(MemoryCitationsMode::Off)
    } else if n == "auto"@ {
        Some(MemoryCitationsMode::Auto)
    } else {
        None
    }
}

/// Reads a memory backend name.
pub fn parse_memory_backend(v: &str) -> (r: Option<MemoryBackend>)
    ensures
        r == memory_backend_named(v@),
{
    let t = trimmed(v);
    let n = to_ascii_lowercase(t.as_str());
    if str_eq(n.as_str(), "none") || str_eq(n.as_str(), "disabled") {
        Some(MemoryBackend::Disabled)
    } else if str_eq(n.as_str(), "builtin") {
        Some(MemoryBackend::Builtin)
    } else if str_eq(n.as_str(), "qmd") {
        Some(MemoryBackend::Qmd)
    } else {
        None
    }
}

/// Reads a citations mode name.
pub fn parse_citations(v: &str) -> (r: Option<MemoryCitationsMode>)
    ensures
        r == citations_named(v@),
{
    let t = trimmed(v);
    let n = to_ascii_lowercase(t.as_str());
    if str_eq(n.as_str(), "on") || str_eq(n.as_str(), "true") {
        Some(MemoryCitationsMode::On)
    } else if str_eq(n.as_str(), "off") || str_eq(n.as_str(), "false") {
        Some(MemoryCitationsMode::Off)
    } else if str_eq(n.as_str(), "auto") {
        Some(MemoryCitationsMode::Auto)
    } else {
        None
    }
}

/// The memory settings that variables override (each `None` when its
/// variable is unset or does not parse). The minimum score, a float, is
/// read where the configuration is assembled.
pub struct MemoryOverrides {
    pub backend: Option<MemoryBackend>,
    pub citations: Option<MemoryCitationsMode>,
    /// Kept within 1..=50.
    pub max_results: Option<u32>,
    /// Kept within 64..=10000.
    pub max_snippet_chars: Option<u32>,
    pub include_default_memory: Option<bool>,
    pub extra_paths: Option<Vec<String>>,
}

/// A parsed, clamped integer variable.
pub open spec fn clamped_var(env: Seq<(Seq<char>, Seq<char>)>, name: Seq<char>, max: nat, lo: nat, hi: nat) -> Option<nat> {
    match env_uint(env, name, max) {
        Some(n) => Some(clamp(n, lo, hi)),
        None => None,
    }
}

fn clamped_u32(env: &Vec<(String, String)>, name: &str, lo: u32, hi: u32) -> (r: Option<u32>)
    requires
        lo <= hi,
    ensures
        match clamped_var(pair_texts(env@), name@, u32::MAX as nat, lo as nat, hi as nat) {
            Some(n) => r == Some(n as u32),
            None => r is None,
        },
{
    match env_var(env, name) {
        Some(v) => match parse_unsigned(v.as_str(), 4294967295u64) {
            Some(n) => Some(
                if n < lo as u64 {
                    lo
                } else if n > hi as u64 {
                    hi
                } else {
                    n as u32
                },
            ),
            None => None,
        },
        None => None,
    }
}

/// Reads the memory variables.
pub fn memory_overrides(env: &Vec<(String, String)>) -> (r: MemoryOverrides)
    ensures
        r.backend == match env_value(pair_texts(env@), "ZEPTOCLAW_MEMORY_BACKEND"@) {
            Some(v) => memory_backend_named(v),
            None => None,
        },
        r.citations == match env_value(pair_texts(env@), "ZEPTOCLAW_MEMORY_CITATIONS"@) {
            Some(v) => citations_named(v),
            None => None,
        },
        match clamped_var(pair_texts(env@), "ZEPTOCLAW_MEMORY_MAX_RESULTS"@, u32::MAX as nat, 1, 50) {
            Some(n) => r.max_results == Some(n as u32),
            None => r.max_results is None,
        },
        match clamped_var(
            pair_texts(env@),
            "ZEPTOCLAW_MEMORY_MAX_SNIPPET_CHARS"@,
            u32::MAX as nat,
            64,
            10000,
        ) {
            Some(n) => r.max_snippet_chars == Some(n as u32),
            None => r.max_snippet_chars is None,
        },
        r.include_default_memory == env_bool(pair_texts(env@), "ZEPTOCLAW_MEMORY_INCLUDE_DEFAULT_MEMORY"@),
        match env_value(pair_texts(env@), "ZEPTOCLAW_MEMORY_EXTRA_PATHS"@) {
            Some(v) => r.extra_paths matches Some(p) && texts(p@) == comma_list_spec(v),
            None => r.extra_paths is None,
        },
{
    let backend = match env_var(env, "ZEPTOCLAW_MEMORY_BACKEND") {
        Some(v) => parse_memory_backend(v.as_str()),
        None => None,
    };
    let citations = match env_var(env, "ZEPTOCLAW_MEMORY_CITATIONS") {
        Some(v) => parse_citations(v.as_str()),
        None => None,
    };
    let extra_paths = match env_var(env, "ZEPTOCLAW_MEMORY_EXTRA_PATHS") {
        Some(v) => Some(comma_list(v.as_str())),
        None => None,
    };
    MemoryOverrides {
        backend,
        citations,
        max_results: clamped_u32(env, "ZEPTOCLAW_MEMORY_MAX_RESULTS", 1, 50),
        max_snippet_chars: clamped_u32(env, "ZEPTOCLAW_MEMORY_MAX_SNIPPET_CHARS", 64, 10000),
        include_default_memory: env_bool_of(env, "ZEPTOCLAW_MEMORY_INCLUDE_DEFAULT_MEMORY"),
        extra_paths,
    }
}

/// The agent defaults that variables override (each `None` when its
/// variable is unset or does not parse). The temperature, a float, is read
/// where the configuration is assembled.
pub struct AgentOverrides {
    pub workspace: Option<String>,
    pub model: Option<String>,
    pub max_tokens: Option<u32>,
    pub max_tool_iterations: Option<u32>,
    pub agent_timeout_secs: Option<u64>,
}

fn uint_var(env: &Vec<(String, String)>, name: &str, max: u64) -> (r: Option<u64>)
    ensures
        match env_uint(pair_texts(env@), name@, max as nat) {
            Some(n) => r == Some(n as u64),
            None => r is None,
        },
{
    match env_var(env, name) {
        Some(v) => parse_unsigned(v.as_str(), max),
        None => None,
    }
}

/// Reads the agent default variables.
pub fn agent_overrides(env: &Vec<(String, String)>) -> (r: AgentOverrides)
    ensures
        opt_text(r.workspace) == env_value(pair_texts(env@), "ZEPTOCLAW_AGENTS_DEFAULTS_WORKSPACE"@),
        opt_text(r.model) == env_value(pair_texts(env@), "ZEPTOCLAW_AGENTS_DEFAULTS_MODEL"@),
        match env_uint(pair_texts(env@), "ZEPTOCLAW_AGENTS_DEFAULTS_MAX_TOKENS"@, u32::MAX as nat) {
            Some(n) => r.max_tokens == Some(n as u32),
            None => r.max_tokens is None,
        },
        match env_uint(
            pair_texts(env@),
            "ZEPTOCLAW_AGENTS_DEFAULTS_MAX_TOOL_ITERATIONS"@,
            u32::MAX as nat,
        ) {
            Some(n) => r.max_tool_iterations == Some(n as u32),
            None => r.max_tool_iterations is None,
        },
        match env_uint(
            pair_texts(env@),
            "ZEPTOCLAW_AGENTS_DEFAULTS_AGENT_TIMEOUT_SECS"@,
            u64::MAX as nat,
        ) {
            Some(n) => r.agent_timeout_secs == Some(n as u64),
            None => r.agent_timeout_secs is None,
        },
{
    let max_tokens = match uint_var(env, "ZEPTOCLAW_AGENTS_DEFAULTS_MAX_TOKENS", 4294967295u64) {
        Some(n) => Some(n as u32),
        None => None,
    };
    let max_tool_iterations = match uint_var(
        env,
        "ZEPTOCLAW_AGENTS_DEFAULTS_MAX_TOOL_ITERATIONS",
        4294967295u64,
    ) {
        Some(n) => Some(n as u32),
        None => None,
    };
    AgentOverrides {
        workspace: env_var(env, "ZEPTOCLAW_AGENTS_DEFAULTS_WORKSPACE"),
        model: env_var(env, "ZEPTOCLAW_AGENTS_DEFAULTS_MODEL"),
        max_tokens,
        max_tool_iterations,
        agent_timeout_secs: uint_var(
            env,
            "ZEPTOCLAW_AGENTS_DEFAULTS_AGENT_TIMEOUT_SECS",
            18446744073709551615u64,
        ),
    }
}

// ---------------------------------------------------------------------------
// Reading the configured providers
// ---------------------------------------------------------------------------

/// A provider with a non-empty API key.
pub open spec fn has_key(p: Option<ProviderConfig>) -> bool {
    p matches Some(c) && c.api_key matches Some(k) && k@.len() > 0
}

/// The first non-empty API key of OpenRouter, Anthropic, OpenAI, Gemini,
/// Zhipu and Groq, in that order.
pub open spec fn api_key_spec(p: ProvidersConfig) -> Option<Seq<char>> {
    if has_key(p.openrouter) {
        opt_text(p.openrouter.unwrap().api_key)
    } else if has_key(p.anthropic) {
        opt_text(p.anthropic.unwrap().api_key)
    } else if has_key(p.openai) {
        opt_text(p.openai.unwrap().api_key)
    } else if has_key(p.gemini) {
        opt_text(p.gemini.unwrap().api_key)
    } else if has_key(p.zhipu) {
        opt_text(p.zhipu.unwrap().api_key)
    } else if has_key(p.groq) {
        opt_text(p.groq.unwrap().api_key)
    } else {
        None
    }
}

fn key_of(p: &Option<ProviderConfig>) -> (r: Option<String>)
    ensures
        has_key(*p) ==> opt_text(r) == opt_text(p.unwrap().api_key),
        !has_key(*p) ==> r is None,
{
    match p {
        Some(c) => match &c.api_key {
            Some(k) => if k.as_str().is_empty() {
                None
            } else {
                Some(k.clone())
            },
            None => None,
        },
        None => None,
    }
}

/// The API base URL of the first provider with a key among OpenRouter
/// (defaulting to its public endpoint), Zhipu and VLLM.
pub open spec fn api_base_spec(p: ProvidersConfig) -> Option<Seq<char>> {
    if has_key(p.openrouter) {
        match p.openrouter.unwrap().api_base {
            Some(b) => Some(b@),
            None => Some("https://openrouter.ai/api/v1"@),
        }
    } else if has_key(p.zhipu) {
        opt_text(p.zhipu.unwrap().api_base)
    } else if has_key(p.vllm) {
        opt_text(p.vllm.unwrap().api_base)
    } else {
        None
    }
}

impl ProvidersConfig {
    /// The first available API key from configured providers.
    pub fn get_api_key(&self) -> (r: Option<String>)
        ensures
            opt_text(r) == api_key_spec(*self),
    {
        let k = key_of(&self.openrouter);
        if k.is_some() {
            return k;
        }
        let k = key_of(&self.anthropic);
        if k.is_some() {
            return k;
        }
        let k = key_of(&self.openai);
        if k.is_some() {
            return k;
        }
        let k = key_of(&self.gemini);
        if k.is_some() {
            return k;
        }
        let k = key_of(&self.zhipu);
        if k.is_some() {
            return k;
        }
        key_of(&self.groq)
    }

    /// The API base URL for the first configured provider.
    pub fn get_api_base(&self) -> (r: Option<String>)
        ensures
            opt_text(r) == api_base_spec(*self),
    {
        if key_of(&self.openrouter).is_some() {
            let c = self.openrouter.as_ref().unwrap();
            return match &c.api_base {
                Some(b) => Some(b.clone()),
                None => Some(String::from_str("https://openrouter.ai/api/v1")),
            };
        }
        if key_of(&self.zhipu).is_some() {
            let c = self.zhipu.as_ref().unwrap();
            return match &c.api_base {
                Some(b) => Some(b.clone()),
                None => None,
            };
        }
        if key_of(&self.vllm).is_some() {
            let c = self.vllm.as_ref().unwrap();
            return match &c.api_base {
                Some(b) => Some(b.clone()),
                None => None,
            };
        }
        None
    }
}

} // verus!
