//! Agent setup decisions shared by the CLI commands: which tools an agent
//! gets, the order of the provider fallback chain, and the texts shown when
//! an API key is rejected.

use vstd::prelude::*;
use crate::text::ascii_lowercase;
use crate::validate::JsonValue;
use crate::validate::member;
use crate::validate::get_member;
use crate::validate::parse_json;
use crate::validate::parsed_json;
use crate::text::texts;
use crate::text::pair_texts;
use crate::text::opt_texts;
use crate::text::to_ascii_lowercase;
use crate::text::trim;
use crate::text::trimmed;
use crate::text::chars_of;
use crate::text::push_char;
use crate::text::str_eq;
use crate::whatsapp::eq_ignore_ascii_case;
use crate::whatsapp::text_eq_ignore_ascii_case;

verus! {

// ---------------------------------------------------------------------------
// Lists of names
// ---------------------------------------------------------------------------

/// The names of a list, each with ASCII letters in lower case.
pub open spec fn lowered(v: Seq<Seq<char>>) -> Seq<Seq<char>> {
    v.map_values(|t: Seq<char>| ascii_lowercase(t))
}

/// Each name of the list with ASCII letters in lower case.
pub fn lowercase_all(v: &Vec<String>) -> (r: Vec<String>)
    ensures
        texts(r@) == lowered(texts(v@)),
{
    let mut r: Vec<String> = Vec::new();
    let mut i: usize = 0;
    while i < v.len()
        invariant
            i <= v@.len(),
            texts(r@) == lowered(texts(v@.take(i as int))),
        decreases v@.len() - i,
    {
        let l = to_ascii_lowercase(v[i].as_str());
        let ghost before = r@;
        r.push(l);
        assert(texts(r@) =~= texts(before).push(ascii_lowercase(v@[i as int]@)));
        assert(texts(v@.take(i + 1)) =~= texts(v@.take(i as int)).push(v@[i as int]@));
        assert(lowered(texts(v@.take(i + 1))) =~= lowered(texts(v@.take(i as int))).push(
            ascii_lowercase(v@[i as int]@),
        ));
        i += 1;
    }
    assert(v@.take(i as int) =~= v@);
    r
}

/// Whether the list holds the name.
pub fn contains_text(v: &Vec<String>, key: &str) -> (b: bool)
    ensures
        b == texts(v@).contains(key@),
{
    let mut i: usize = 0;
    while i < v.len()
        invariant
            i <= v@.len(),
            forall|k: int| 0 <= k < i ==> v@[k]@ != key@,
        decreases v@.len() - i,
    {
        if str_eq(v[i].as_str(), key) {
            assert(texts(v@)[i as int] == key@);
            return true;
        }
        i += 1;
    }
    assert forall|k: int| 0 <= k < texts(v@).len() implies texts(v@)[k] != key@ by {}
    false
}

// ---------------------------------------------------------------------------
// Which tools an agent may use
// ---------------------------------------------------------------------------

/// The filters that decide whether a tool is registered. Names are kept with
/// ASCII letters in lower case, and tools are matched the same way.
pub struct ToolFilter {
    /// Tools never registered (such as those the startup guard denies).
    pub deny: Vec<String>,
    /// The active tool profile's tools; `None` when no profile limits them.
    pub profile: Option<Vec<String>>,
    /// The template's allowed tools; `None` when it names none.
    pub allowed: Option<Vec<String>>,
    /// The template's blocked tools.
    pub blocked: Vec<String>,
}

/// An optional list of names in lower case.
pub open spec fn opt_lowered(o: Option<Seq<Seq<char>>>) -> Option<Seq<Seq<char>>> {
    match o {
        Some(v) => Some(lowered(v)),
        None => None,
    }
}

impl ToolFilter {
    /// Whether a tool of this name is registered: it is not denied, the
    /// profile (if any) and the allowed list (if any) hold it, and it is not
    /// blocked, all compared without ASCII case.
    #[verifier::opaque]
    pub open spec fn allows(self, name: Seq<char>) -> bool {
        let key = ascii_lowercase(name);
        &&& !texts(self.deny@).contains(key)
        &&& match self.profile {
            Some(p) => texts(p@).contains(key),
            None => true,
        }
        &&& match self.allowed {
            Some(a) => texts(a@).contains(key),
            None => true,
        }
        &&& !texts(self.blocked@).contains(key)
    }

    /// The filter for a deny list, a profile's tools, and a template's
    /// allowed and blocked tools.
    pub fn new(
        deny: &Vec<String>,
        profile: Option<&Vec<String>>,
        allowed: Option<&Vec<String>>,
        blocked: Option<&Vec<String>>,
    ) -> (f: Self)
        ensures
            texts(f.deny@) == lowered(texts(deny@)),
            opt_texts(f.profile) == opt_lowered(
                match profile {
                    Some(p) => Some(texts(p@)),
                    None => None,
                },
            ),
            opt_texts(f.allowed) == opt_lowered(
                match allowed {
                    Some(a) => Some(texts(a@)),
                    None => None,
                },
            ),
            texts(f.blocked@) == match blocked {
                Some(b) => lowered(texts(b@)),
                None => Seq::<Seq<char>>::empty(),
            },
    {
        let deny = lowercase_all(deny);
        let profile = match profile {
            Some(p) => Some(lowercase_all(p)),
            None => None,
        };
        let allowed = match allowed {
            Some(a) => Some(lowercase_all(a)),
            None => None,
        };
        let blocked = match blocked {
            Some(b) => lowercase_all(b),
            None => {
                let e: Vec<String> = Vec::new();
                assert(texts(e@) =~= Seq::<Seq<char>>::empty());
                e
            },
        };
        ToolFilter { deny, profile, allowed, blocked }
    }

    /// Whether a tool of this name is registered.
    pub fn tool_enabled(&self, name: &str) -> (b: bool)
        ensures
            b == self.allows(name@),
    {
        proof {
            reveal(ToolFilter::allows);
        }
        let key = to_ascii_lowercase(name);
        if contains_text(&self.deny, key.as_str()) {
            return false;
        }
        match &self.profile {
            Some(p) => {
                if !contains_text(p, key.as_str()) {
                    return false;
                }
            },
            None => {},
        }
        match &self.allowed {
            Some(a) => {
                if !contains_text(a, key.as_str()) {
                    return false;
                }
            },
            None => {},
        }
        !contains_text(&self.blocked, key.as_str())
    }
}

/// The first entry of `profiles` named `name`.
pub open spec fn profile_entry(
    profiles: Seq<(Seq<char>, Option<Seq<Seq<char>>>)>,
    name: Seq<char>,
) -> Option<Option<Seq<Seq<char>>>>
    decreases profiles.len(),
{
    if profiles.len() == 0 {
        None
    } else if profiles[0].0 == name {
        Some(profiles[0].1)
    } else {
        profile_entry(profiles.drop_first(), name)
    }
}

/// The view of configured tool profiles.
pub open spec fn profiles_view(p: Seq<(String, Option<Vec<String>>)>) -> Seq<(Seq<char>, Option<Seq<Seq<char>>>)> {
    p.map_values(|e: (String, Option<Vec<String>>)| (e.0@, opt_texts(e.1)))
}

/// The tools of the selected profile: `None` (all tools) when no profile is
/// selected, when the selected one is not configured (the second result is
/// then `true`, for a warning), or when it lists no tools.
pub open spec fn profile_tools_spec(
    profile_name: Option<Seq<char>>,
    profiles: Seq<(Seq<char>, Option<Seq<Seq<char>>>)>,
) -> (Option<Seq<Seq<char>>>, bool) {
    match profile_name {
        None => (None, false),
        Some(n) => match profile_entry(profiles, n) {
            Some(tools) => (tools, false),
            None => (None, true),
        },
    }
}

/// Resolves the selected tool profile against the configured profiles.
pub fn resolve_profile_tools(
    profile_name: Option<&str>,
    profiles: &Vec<(String, Option<Vec<String>>)>,
) -> (r: (Option<Vec<String>>, bool))
    ensures
        (opt_texts(r.0), r.1) == profile_tools_spec(
            match profile_name {
                Some(n) => Some(n@),
                None => None,
            },
            profiles_view(profiles@),
        ),
{
    let name = match profile_name {
        None => return (None, false),
        Some(n) => n,
    };
    let ghost pv = profiles_view(profiles@);
    let mut i: usize = 0;
    assert(pv.skip(0) =~= pv);
    while i < profiles.len()
        invariant
            i <= profiles@.len(),
            pv == profiles_view(profiles@),
            profile_name == Some(name),
            profile_entry(pv, name@) == profile_entry(pv.skip(i as int), name@),
        decreases profiles@.len() - i,
    {
        assert(pv.skip(i as int)[0] == pv[i as int]);
        assert(pv.skip(i as int).drop_first() =~= pv.skip(i + 1));
        if str_eq(profiles[i].0.as_str(), name) {
            let tools = match &profiles[i].1 {
                Some(t) => Some(t.clone()),
                None => None,
            };
            proof {
                assert(pv[i as int] == (profiles@[i as int].0@, opt_texts(profiles@[i as int].1)));
                assert(profile_entry(pv, name@) == Some(pv[i as int].1));
                match profiles@[i as int].1 {
                    Some(t) => {
                        assert(tools matches Some(x) && x@ == t@);
                    },
                    None => {},
                }
            }
            return (tools, false);
        }
        i += 1;
    }
    assert(pv.skip(i as int) =~= Seq::<(Seq<char>, Option<Seq<Seq<char>>>)>::empty());
    (None, true)
}

// ---------------------------------------------------------------------------
// The provider fallback chain
// ---------------------------------------------------------------------------

/// The first index from `i` on whose name equals `p` without ASCII case.
pub open spec fn match_from(names: Seq<Seq<char>>, p: Seq<char>, i: int) -> Option<int>
    decreases names.len() - i,
{
    if i < 0 || i >= names.len() {
        None
    } else if eq_ignore_ascii_case(names[i], p) {
        Some(i)
    } else {
        match_from(names, p, i + 1)
    }
}

/// `names` with the entry at `i` moved to the second place.
pub open spec fn moved_to_second(names: Seq<Seq<char>>, i: int) -> Seq<Seq<char>> {
    names.remove(i).insert(1, names[i])
}

/// The provider order once the preferred fallback provider is applied: the
/// first provider stays primary; the first later one whose name matches the
/// preferred name (trimmed, without ASCII case) moves up to be the first
/// fallback. An empty preferred name, a single provider, a preferred name
/// that is already primary, or one that matches no provider keeps the order.
pub open spec fn fallback_order(names: Seq<Seq<char>>, preferred: Option<Seq<char>>) -> Seq<Seq<char>> {
    match preferred {
        None => names,
        Some(p0) => {
            let p = trim(p0);
            if p.len() == 0 || names.len() < 2 || eq_ignore_ascii_case(names[0], p) {
                names
            } else {
                match match_from(names, p, 1) {
                    Some(i) => moved_to_second(names, i),
                    None => names,
                }
            }
        },
    }
}

proof fn lemma_match_from_range(names: Seq<Seq<char>>, p: Seq<char>, i: int)
    requires
        i >= 0,
    ensures
        match_from(names, p, i) matches Some(k) ==> i <= k < names.len() && eq_ignore_ascii_case(
            names[k],
            p,
        ),
    decreases names.len() - i,
{
    if i < names.len() && !eq_ignore_ascii_case(names[i], p) {
        lemma_match_from_range(names, p, i + 1);
    }
}

/// Reorders candidate providers by the preferred fallback provider.
pub fn apply_fallback_preference(candidates: &mut Vec<String>, preferred: Option<&str>)
    ensures
        texts(final(candidates)@) == fallback_order(
            texts(old(candidates)@),
            match preferred {
                Some(p) => Some(p@),
                None => None,
            },
        ),
{
    let pr = match preferred {
        None => return,
        Some(pr) => pr,
    };
    let ghost q = pr@;
    let p = trimmed(pr);
    let ghost names = texts(candidates@);
    if p.as_str().is_empty() || candidates.len() < 2 {
        return;
    }
    if text_eq_ignore_ascii_case(candidates[0].as_str(), p.as_str()) {
        return;
    }
    let mut i: usize = 1;
    while i < candidates.len()
        invariant
            1 <= i <= candidates@.len(),
            names == texts(candidates@),
            names == texts(old(candidates)@),
            preferred matches Some(x) && x@ == q,
            p@ == trim(q),
            p@.len() > 0,
            names.len() >= 2,
            !eq_ignore_ascii_case(names[0], p@),
            match_from(names, p@, 1) == match_from(names, p@, i as int),
        decreases candidates@.len() - i,
    {
        if text_eq_ignore_ascii_case(candidates[i].as_str(), p.as_str()) {
            assert(match_from(names, p@, i as int) == Some(i as int));
            let c = candidates.remove(i);
            candidates.insert(1, c);
            assert(texts(candidates@) =~= moved_to_second(names, i as int));
            return;
        }
        i += 1;
    }
}

/// The names in the provider chain: none without candidates; only the first
/// when fallback is disabled or there is one candidate; otherwise all of
/// them, in fallback order.
pub open spec fn provider_chain_spec(
    candidates: Seq<Seq<char>>,
    fallback_enabled: bool,
    preferred: Option<Seq<char>>,
) -> Option<Seq<Seq<char>>> {
    if candidates.len() == 0 {
        None
    } else if !fallback_enabled || candidates.len() == 1 {
        Some(seq![candidates[0]])
    } else {
        Some(fallback_order(candidates, preferred))
    }
}

/// The provider names of the runtime chain, from the runtime-supported
/// providers in registry order.
pub fn provider_chain_names(candidates: Vec<String>, fallback_enabled: bool, preferred: Option<&str>) -> (r: Option<Vec<String>>)
    ensures
        opt_texts(r) == provider_chain_spec(
            texts(candidates@),
            fallback_enabled,
            match preferred {
                Some(p) => Some(p@),
                None => None,
            },
        ),
{
    let mut candidates = candidates;
    if candidates.len() == 0 {
        return None;
    }
    if !fallback_enabled || candidates.len() == 1 {
        let first = candidates[0].clone();
        let mut r: Vec<String> = Vec::new();
        r.push(first);
        assert(texts(r@) =~= seq![texts(candidates@)[0]]);
        return Some(r);
    }
    apply_fallback_preference(&mut candidates, preferred);
    Some(candidates)
}

/// Applying a preferred fallback provider only reorders: the result has the
/// same names, each as often, and the same primary provider.
pub proof fn lemma_fallback_order_permutes(names: Seq<Seq<char>>, preferred: Option<Seq<char>>)
    ensures
        fallback_order(names, preferred).len() == names.len(),
        fallback_order(names, preferred).to_multiset() == names.to_multiset(),
        names.len() > 0 ==> fallback_order(names, preferred)[0] == names[0],
{
    broadcast use vstd::multiset::group_multiset_axioms;
    match preferred {
        None => {},
        Some(p0) => {
            let p = trim(p0);
            if p.len() == 0 || names.len() < 2 || eq_ignore_ascii_case(names[0], p) {
            } else {
                lemma_match_from_range(names, p, 1);
                match match_from(names, p, 1) {
                    Some(i) => {
                        let x = names[i];
                        let r = names.remove(i);
                        vstd::seq_lib::to_multiset_remove(names, i);
                        vstd::seq_lib::to_multiset_insert(r, 1, x);
                        vstd::seq_lib::to_multiset_contains(names, x);
                        assert(names.to_multiset().remove(x).insert(x) =~= names.to_multiset());
                    },
                    None => {},
                }
            }
        },
    }
}

/// With fallback enabled and several providers, the chain holds every
/// candidate; otherwise it holds only the primary one.
pub proof fn lemma_provider_chain_members(
    candidates: Seq<Seq<char>>,
    fallback_enabled: bool,
    preferred: Option<Seq<char>>,
)
    ensures
        candidates.len() > 0 ==> (provider_chain_spec(candidates, fallback_enabled, preferred) matches Some(
            c,
        ) && c[0] == candidates[0] && (if fallback_enabled && candidates.len() > 1 {
            c.to_multiset() == candidates.to_multiset()
        } else {
            c.len() == 1
        })),
        candidates.len() == 0 ==> provider_chain_spec(candidates, fallback_enabled, preferred) is None,
{
    lemma_fallback_order_permutes(candidates, preferred);
}

/// The names of a provider plugin chain: the first plugin, then the others
/// as fallbacks when fallback is enabled.
pub open spec fn plugin_chain_spec(plugins: Seq<Seq<char>>, fallback_enabled: bool) -> Seq<Seq<char>> {
    if plugins.len() == 0 {
        Seq::empty()
    } else if fallback_enabled {
        plugins
    } else {
        seq![plugins[0]]
    }
}

/// The names of the provider plugin chain.
pub fn plugin_chain_names(plugins: &Vec<String>, fallback_enabled: bool) -> (r: Vec<String>)
    ensures
        texts(r@) == plugin_chain_spec(texts(plugins@), fallback_enabled),
{
    let mut r: Vec<String> = Vec::new();
    if plugins.len() == 0 {
        assert(texts(r@) =~= Seq::<Seq<char>>::empty());
        return r;
    }
    if !fallback_enabled {
        r.push(plugins[0].clone());
        assert(texts(r@) =~= seq![texts(plugins@)[0]]);
        return r;
    }
    let mut i: usize = 0;
    while i < plugins.len()
        invariant
            i <= plugins@.len(),
            texts(r@) == texts(plugins@.take(i as int)),
        decreases plugins@.len() - i,
    {
        r.push(plugins[i].clone());
        assert(texts(plugins@.take(i + 1)) =~= texts(plugins@.take(i as int)).push(plugins@[i as int]@));
        assert(texts(r@) =~= texts(plugins@.take(i + 1)));
        i += 1;
    }
    assert(plugins@.take(i as int) =~= plugins@);
    r
}

/// The label of a chain: its names joined by ` -> `.
pub open spec fn chain_label_spec(names: Seq<Seq<char>>) -> Seq<char>
    decreases names.len(),
{
    if names.len() == 0 {
        Seq::empty()
    } else if names.len() == 1 {
        names[0]
    } else {
        chain_label_spec(names.drop_last()) + " -> "@ + names.last()
    }
}

/// The label of a provider chain.
pub fn chain_label(names: &Vec<String>) -> (r: String)
    ensures
        r@ == chain_label_spec(texts(names@)),
{
    let mut r = String::new();
    let mut i: usize = 0;
    while i < names.len()
        invariant
            i <= names@.len(),
            r@ == chain_label_spec(texts(names@.take(i as int))),
        decreases names@.len() - i,
    {
        assert(texts(names@.take(i + 1)).drop_last() =~= texts(names@.take(i as int)));
        if i > 0 {
            r.append(" -> ");
        }
        r.append(names[i].as_str());
        i += 1;
    }
    assert(names@.take(i as int) =~= names@);
    r
}

// ---------------------------------------------------------------------------
// Tool registration
// ---------------------------------------------------------------------------

/// An optional text that holds something besides whitespace.
pub open spec fn nonblank(o: Option<String>) -> bool {
    o matches Some(t) && trim(t@).len() > 0
}

fn is_nonblank(o: &Option<String>) -> (b: bool)
    ensures
        b == nonblank(*o),
{
    match o {
        Some(t) => !trimmed(t.as_str()).as_str().is_empty(),
        None => false,
    }
}

/// The HTTP request tool is registered when it is configured with at least
/// one allowed domain.
pub open spec fn http_ready(h: Option<crate::config::HttpRequestConfig>) -> bool {
    h matches Some(c) && c.allowed_domains@.len() > 0
}

/// The WhatsApp tool is registered when both the phone number id and the
/// access token hold more than whitespace.
pub open spec fn whatsapp_ready(w: crate::config::WhatsAppToolConfig) -> bool {
    nonblank(w.phone_number_id) && nonblank(w.access_token)
}

/// What the Google Sheets tool is built from.
pub enum SheetsSource {
    /// A bearer access token (trimmed).
    Token(String),
    /// A base64 service account payload (trimmed).
    ServiceAccount(String),
    /// Not configured: no tool.
    Unconfigured,
}

/// What the Google Sheets tool is built from: a configured access token
/// decides alone (no tool when it is blank); without one, a service account
/// payload.
pub open spec fn sheets_source_ok(r: SheetsSource, g: crate::config::GoogleSheetsToolConfig) -> bool {
    match g.access_token {
        Some(t) => if trim(t@).len() > 0 {
            r matches SheetsSource::Token(x) && x@ == trim(t@)
        } else {
            r is Unconfigured
        },
        None => match g.service_account_base64 {
            Some(b) => r matches SheetsSource::ServiceAccount(x) && x@ == trim(b@),
            None => r is Unconfigured,
        },
    }
}

/// What the Google Sheets tool is built from.
pub fn google_sheets_source(g: &crate::config::GoogleSheetsToolConfig) -> (r: SheetsSource)
    ensures
        sheets_source_ok(r, *g),
{
    match &g.access_token {
        Some(t) => {
            let token = trimmed(t.as_str());
            if token.as_str().is_empty() {
                SheetsSource::Unconfigured
            } else {
                SheetsSource::Token(token)
            }
        },
        None => match &g.service_account_base64 {
            Some(b) => SheetsSource::ServiceAccount(trimmed(b.as_str())),
            None => SheetsSource::Unconfigured,
        },
    }
}

/// Whether the Google Sheets tool has something to be built from.
pub open spec fn sheets_configured(g: crate::config::GoogleSheetsToolConfig) -> bool {
    match g.access_token {
        Some(t) => trim(t@).len() > 0,
        None => g.service_account_base64 is Some,
    }
}

/// The project tool is registered when the selected backend has a
/// non-empty token.
pub open spec fn project_has_token(p: crate::config::ProjectConfig) -> bool {
    match p.backend {
        crate::config::ProjectBackend::Github => p.github_token matches Some(t) && t@.len() > 0,
        crate::config::ProjectBackend::Jira => p.jira_token matches Some(t) && t@.len() > 0,
        crate::config::ProjectBackend::Linear => p.linear_api_key matches Some(t) && t@.len() > 0,
    }
}

fn has_text(o: &Option<String>) -> (b: bool)
    ensures
        b == (*o matches Some(t) && t@.len() > 0),
{
    match o {
        Some(t) => !t.as_str().is_empty(),
        None => false,
    }
}

/// Whether the selected project backend has a token.
pub fn project_token_present(p: &crate::config::ProjectConfig) -> (b: bool)
    ensures
        b == project_has_token(*p),
{
    match p.backend {
        crate::config::ProjectBackend::Github => has_text(&p.github_token),
        crate::config::ProjectBackend::Jira => has_text(&p.jira_token),
        crate::config::ProjectBackend::Linear => has_text(&p.linear_api_key),
    }
}

/// The skills marketplace tools are offered when both the marketplace and
/// its registry are enabled.
pub open spec fn marketplace_on(t: crate::config::ToolsConfig) -> bool {
    t.skills.enabled && t.skills.clawhub.enabled
}

/// The built-in tools, in registration order.
pub open spec fn builtin_tool_names() -> Seq<Seq<char>> {
    seq![
        "echo"@, "read_file"@, "write_file"@, "list_dir"@, "edit_file"@, "shell"@, "git"@,
        "web_search"@, "web_fetch"@, "http_request"@, "pdf_read"@, "message"@, "whatsapp_send"@,
        "google_sheets"@, "memory_search"@, "memory_get"@, "longterm_memory"@, "cron"@, "spawn"@,
        "r8r"@, "project"@, "transcribe"@, "reminder"@, "find_skills"@, "install_skill"@,
        "create_tool"@,
    ]
}

/// Whether the configuration asks for a built-in tool: git must be
/// installed, the HTTP request tool needs allowed domains, the WhatsApp,
/// Google Sheets and project tools need credentials, the memory tools need
/// memory enabled, the transcriber needs to be enabled with a key, and the
/// marketplace tools need the marketplace and its registry enabled. Every
/// other tool is always asked for.
pub open spec fn tool_ready(
    name: Seq<char>,
    t: crate::config::ToolsConfig,
    project: crate::config::ProjectConfig,
    memory_on: bool,
    git_available: bool,
) -> bool {
    if name == "git"@ {
        git_available
    } else if name == "http_request"@ {
        http_ready(t.http_request)
    } else if name == "whatsapp_send"@ {
        whatsapp_ready(t.whatsapp)
    } else if name == "google_sheets"@ {
        sheets_configured(t.google_sheets)
    } else if name == "memory_search"@ || name == "memory_get"@ || name == "longterm_memory"@ {
        memory_on
    } else if name == "project"@ {
        project_has_token(project)
    } else if name == "transcribe"@ {
        t.transcribe.enabled && t.transcribe.groq_api_key is Some
    } else if name == "find_skills"@ || name == "install_skill"@ {
        marketplace_on(t)
    } else {
        true
    }
}

/// Which built-in tools are registered.
pub open spec fn plan_pred(
    f: ToolFilter,
    t: crate::config::ToolsConfig,
    project: crate::config::ProjectConfig,
    memory_on: bool,
    git_available: bool,
) -> spec_fn(Seq<char>) -> bool {
    |n: Seq<char>| f.allows(n) && tool_ready(n, t, project, memory_on, git_available)
}

/// The built-in tools registered, in order: those the filter allows and the
/// configuration asks for.
pub open spec fn builtin_tool_plan(
    f: ToolFilter,
    t: crate::config::ToolsConfig,
    project: crate::config::ProjectConfig,
    memory_on: bool,
    git_available: bool,
) -> Seq<Seq<char>> {
    builtin_tool_names().filter(plan_pred(f, t, project, memory_on, git_available))
}

fn tool_ready_now(
    name: &str,
    t: &crate::config::ToolsConfig,
    project: &crate::config::ProjectConfig,
    memory_on: bool,
    git_available: bool,
) -> (b: bool)
    ensures
        b == tool_ready(name@, *t, *project, memory_on, git_available),
{
    if str_eq(name, "git") {
        git_available
    } else if str_eq(name, "http_request") {
        match &t.http_request {
            Some(c) => c.allowed_domains.len() > 0,
            None => false,
        }
    } else if str_eq(name, "whatsapp_send") {
        is_nonblank(&t.whatsapp.phone_number_id) && is_nonblank(&t.whatsapp.access_token)
    } else if str_eq(name, "google_sheets") {
        match &t.google_sheets.access_token {
            Some(tok) => !trimmed(tok.as_str()).as_str().is_empty(),
            None => t.google_sheets.service_account_base64.is_some(),
        }
    } else if str_eq(name, "memory_search") || str_eq(name, "memory_get") || str_eq(
        name,
        "longterm_memory",
    ) {
        memory_on
    } else if str_eq(name, "project") {
        project_token_present(project)
    } else if str_eq(name, "transcribe") {
        t.transcribe.enabled && t.transcribe.groq_api_key.is_some()
    } else if str_eq(name, "find_skills") || str_eq(name, "install_skill") {
        t.skills.enabled && t.skills.clawhub.enabled
    } else {
        true
    }
}

fn builtin_tool_name_list() -> (v: Vec<&'static str>)
    ensures
        v@.map_values(|x: &str| x@) == builtin_tool_names(),
{
    let v = vec![
        "echo", "read_file", "write_file", "list_dir", "edit_file", "shell", "git",
        "web_search", "web_fetch", "http_request", "pdf_read", "message", "whatsapp_send",
        "google_sheets", "memory_search", "memory_get", "longterm_memory", "cron", "spawn",
        "r8r", "project", "transcribe", "reminder", "find_skills", "install_skill",
        "create_tool",
    ];
    assert(v@.map_values(|x: &str| x@) =~= builtin_tool_names());
    v
}

/// The names of the built-in tools to register, in registration order.
/// Tools whose construction can still fail (a Google Sheets service account
/// that does not decode, the transcriber) are listed when their
/// configuration asks for them.
pub fn builtin_tools(
    f: &ToolFilter,
    t: &crate::config::ToolsConfig,
    project: &crate::config::ProjectConfig,
    memory_on: bool,
    git_available: bool,
) -> (r: Vec<String>)
    ensures
        texts(r@) == builtin_tool_plan(*f, *t, *project, memory_on, git_available),
{
    let names = builtin_tool_name_list();
    let ghost all = builtin_tool_names();
    let ghost pred = plan_pred(*f, *t, *project, memory_on, git_available);
    let mut r: Vec<String> = Vec::new();
    let mut i: usize = 0;
    assert(all.take(0).filter(pred) =~= Seq::<Seq<char>>::empty()) by {
        reveal(Seq::filter);
    }
    assert(texts(r@) =~= Seq::<Seq<char>>::empty());
    while i < names.len()
        invariant
            i <= names@.len(),
            names@.map_values(|x: &str| x@) == all,
            all == builtin_tool_names(),
            pred == plan_pred(*f, *t, *project, memory_on, git_available),
            texts(r@) == all.take(i as int).filter(pred),
        decreases names@.len() - i,
    {
        let name = names[i];
        assert(all[i as int] == name@);
        proof {
            crate::seqs::lemma_filter_take_step(all, pred, i as int);
        }
        if f.tool_enabled(name) && tool_ready_now(name, t, project, memory_on, git_available) {
            let ghost before = r@;
            r.push(String::from_str(name));
            assert(texts(r@) =~= texts(before).push(name@));
        }
        i += 1;
    }
    assert(all.take(i as int) =~= all);
    r
}

/// No tool the filter refuses is ever planned, and every planned tool is a
/// built-in one.
pub proof fn lemma_plan_respects_filter(
    f: ToolFilter,
    t: crate::config::ToolsConfig,
    project: crate::config::ProjectConfig,
    memory_on: bool,
    git_available: bool,
    name: Seq<char>,
)
    requires
        builtin_tool_plan(f, t, project, memory_on, git_available).contains(name),
    ensures
        f.allows(name),
        builtin_tool_names().contains(name),
{
    let pred = plan_pred(f, t, project, memory_on, git_available);
    crate::seqs::lemma_filter_facts(builtin_tool_names(), pred);
    let plan = builtin_tool_names().filter(pred);
    let k = choose|k: int| 0 <= k < plan.len() && plan[k] == name;
    assert(pred(plan[k]));
}

/// The web search backend: Brave with the configured key (trimmed) when it
/// holds more than whitespace, else DuckDuckGo (`None`).
pub open spec fn web_search_key(k: Option<String>) -> Option<Seq<char>> {
    match k {
        Some(x) => if trim(x@).len() > 0 {
            Some(trim(x@))
        } else {
            None
        },
        None => None,
    }
}

/// The Brave API key to search with, if any.
pub fn brave_search_key(k: &Option<String>) -> (r: Option<String>)
    ensures
        match r {
            Some(x) => web_search_key(*k) == Some(x@),
            None => web_search_key(*k) is None,
        },
{
    match k {
        Some(x) => {
            let t = trimmed(x.as_str());
            if t.as_str().is_empty() {
                None
            } else {
                Some(t)
            }
        },
        None => None,
    }
}

/// The WhatsApp tool's phone number id, access token and default language,
/// each trimmed, when both credentials hold more than whitespace.
pub fn whatsapp_tool_credentials(w: &crate::config::WhatsAppToolConfig) -> (r: Option<(String, String, String)>)
    ensures
        match r {
            Some((p, tok, lang)) => whatsapp_ready(*w) && p@ == trim(w.phone_number_id.unwrap()@)
                && tok@ == trim(w.access_token.unwrap()@) && lang@ == trim(w.default_language@),
            None => !whatsapp_ready(*w),
        },
{
    match (&w.phone_number_id, &w.access_token) {
        (Some(p), Some(tok)) => {
            let p = trimmed(p.as_str());
            let tok = trimmed(tok.as_str());
            if p.as_str().is_empty() || tok.as_str().is_empty() {
                None
            } else {
                Some((p, tok, trimmed(w.default_language.as_str())))
            }
        },
        _ => None,
    }
}

/// The indices of the custom tools to register: those the filter allows
/// whose command holds more than whitespace.
pub open spec fn custom_tool_wanted(f: ToolFilter, d: crate::config::CustomToolDef) -> bool {
    f.allows(d.name@) && trim(d.command@).len() > 0
}

/// The indices, in order, of the custom tools to register.
pub fn custom_tool_indices(f: &ToolFilter, defs: &Vec<crate::config::CustomToolDef>) -> (r: Vec<usize>)
    ensures
        forall|k: int| 0 <= k < r@.len() ==> r@[k] < defs@.len() && custom_tool_wanted(*f, defs@[r@[k] as int]),
        forall|k: int, m: int| 0 <= k < m < r@.len() ==> r@[k] < r@[m],
        forall|i: int| 0 <= i < defs@.len() && custom_tool_wanted(*f, #[trigger] defs@[i]) ==> r@.contains(i as usize),
{
    let mut r: Vec<usize> = Vec::new();
    let mut i: usize = 0;
    while i < defs.len()
        invariant
            i <= defs@.len(),
            forall|k: int| 0 <= k < r@.len() ==> r@[k] < i && custom_tool_wanted(*f, defs@[r@[k] as int]),
            forall|k: int, m: int| 0 <= k < m < r@.len() ==> r@[k] < r@[m],
            forall|j: int| 0 <= j < i && custom_tool_wanted(*f, #[trigger] defs@[j]) ==> r@.contains(j as usize),
        decreases defs@.len() - i,
    {
        let d = &defs[i];
        if f.tool_enabled(d.name.as_str()) && !trimmed(d.command.as_str()).as_str().is_empty() {
            let ghost before = r@;
            r.push(i);
            assert forall|j: int| 0 <= j < i + 1 && custom_tool_wanted(*f, #[trigger] defs@[j]) implies r@.contains(j as usize) by {
                if j < i {
                    let k = choose|k: int| 0 <= k < before.len() && before[k] == j as usize;
                    assert(r@[k] == j as usize);
                } else {
                    assert(r@[before.len() as int] == j as usize);
                }
            }
        }
        i += 1;
    }
    r
}

/// What happens to the delegate tool.
#[derive(Debug, Clone, Copy, PartialEq, Eq, Structural)]
pub enum DelegateDecision {
    Register,
    /// Swarm delegation is on but no provider is configured.
    WarnNoProvider,
    Skip,
}

/// The delegate tool is registered when the filter allows it, swarm
/// delegation is enabled and a provider is set.
pub fn delegate_decision(f: &ToolFilter, swarm_enabled: bool, has_provider: bool) -> (d: DelegateDecision)
    ensures
        d == (if f.allows("delegate"@) && swarm_enabled {
            if has_provider {
                DelegateDecision::Register
            } else {
                DelegateDecision::WarnNoProvider
            }
        } else {
            DelegateDecision::Skip
        }),
{
    if f.tool_enabled("delegate") && swarm_enabled {
        if has_provider {
            DelegateDecision::Register
        } else {
            DelegateDecision::WarnNoProvider
        }
    } else {
        DelegateDecision::Skip
    }
}

/// The directory that skills are installed into: the configured one, or
/// the default.
pub fn skills_install_dir(workspace_dir: &Option<String>, default_dir: &str) -> (r: String)
    ensures
        r@ == match *workspace_dir {
            Some(d) => d@,
            None => default_dir@,
        },
{
    match workspace_dir {
        Some(d) => d.clone(),
        None => String::from_str(default_dir),
    }
}

/// The `Debug` name of a runtime type.
pub open spec fn runtime_type_name(r: crate::config::RuntimeType) -> Seq<char> {
    match r {
        crate::config::RuntimeType::Native => "Native"@,
        crate::config::RuntimeType::Docker => "Docker"@,
        crate::config::RuntimeType::AppleContainer => "AppleContainer"@,
    }
}

/// What happens when the configured runtime cannot be created: with the
/// native fallback allowed, fall back (`None`); else this error.
pub open spec fn runtime_failure_spec(r: crate::config::RuntimeType, allow_fallback: bool, err: Seq<char>) -> Option<Seq<char>> {
    if allow_fallback {
        None
    } else {
        Some(
            "Configured runtime '"@ + runtime_type_name(r) + "' unavailable: "@ + err
                + ". Enable runtime.allow_fallback_to_native to opt in to native fallback."@,
        )
    }
}

/// Decides on a failure to create the configured runtime.
pub fn runtime_failure(r: crate::config::RuntimeType, allow_fallback: bool, err: &str) -> (e: Option<String>)
    ensures
        match e {
            Some(x) => runtime_failure_spec(r, allow_fallback, err@) == Some(x@),
            None => runtime_failure_spec(r, allow_fallback, err@) is None,
        },
{
    if allow_fallback {
        return None;
    }
    let mut s = String::from_str("Configured runtime '");
    s.append(
        match r {
            crate::config::RuntimeType::Native => "Native",
            crate::config::RuntimeType::Docker => "Docker",
            crate::config::RuntimeType::AppleContainer => "AppleContainer",
        },
    );
    s.append("' unavailable: ");
    s.append(err);
    s.append(". Enable runtime.allow_fallback_to_native to opt in to native fallback.");
    Some(s)
}

/// The part of a path after a leading `~/` (or all of `~`), which is then
/// taken from the home directory; `None` for other paths.
pub open spec fn tilde_rest(path: Seq<char>) -> Option<Seq<char>> {
    if path.len() >= 2 && path[0] == '~' && path[1] == '/' {
        Some(path.skip(2))
    } else if path == "~"@ {
        Some(Seq::empty())
    } else {
        None
    }
}

/// Splits a leading `~/` (or a lone `~`) off a path.
pub fn tilde_suffix(path: &str) -> (r: Option<String>)
    ensures
        match r {
            Some(x) => tilde_rest(path@) == Some(x@),
            None => tilde_rest(path@) is None,
        },
{
    let v = chars_of(path);
    let n = v.len();
    if n >= 2 && v[0] == '~' && v[1] == '/' {
        let rest = crate::text::string_of_range(&v, 2, n);
        assert(v@.subrange(2, n as int) =~= path@.skip(2));
        return Some(rest);
    }
    if str_eq(path, "~") {
        return Some(String::new());
    }
    None
}

// ---------------------------------------------------------------------------
// The skills section of the system prompt
// ---------------------------------------------------------------------------

/// The XML escape of one character.
pub open spec fn escaped_char(c: char) -> Seq<char> {
    if c == '&' {
        "&amp;"@
    } else if c == '<' {
        "&lt;"@
    } else if c == '>' {
        "&gt;"@
    } else {
        seq![c]
    }
}

/// The text with `&`, `<` and `>` replaced by their XML entities.
pub open spec fn escape_xml_spec(s: Seq<char>) -> Seq<char>
    decreases s.len(),
{
    if s.len() == 0 {
        Seq::empty()
    } else {
        escape_xml_spec(s.drop_last()) + escaped_char(s.last())
    }
}

/// Escapes `&`, `<` and `>` for XML text.
pub fn escape_xml(input: &str) -> (r: String)
    ensures
        r@ == escape_xml_spec(input@),
{
    let v = chars_of(input);
    let mut r = String::new();
    let mut i: usize = 0;
    while i < v.len()
        invariant
            i <= v@.len(),
            v@ == input@,
            r@ == escape_xml_spec(v@.take(i as int)),
        decreases v@.len() - i,
    {
        let c = v[i];
        assert(v@.take(i + 1).drop_last() =~= v@.take(i as int));
        if c == '&' {
            r.append("&amp;");
        } else if c == '<' {
            r.append("&lt;");
        } else if c == '>' {
            r.append("&gt;");
        } else {
            let ghost before = r@;
            push_char(&mut r, c);
            assert(r@ =~= before + seq![c]);
        }
        i += 1;
    }
    assert(v@.take(i as int) =~= v@);
    r
}

/// A skill listed in the system prompt.
pub struct SkillSummary {
    pub name: String,
    pub description: String,
    /// Where the skill is stored.
    pub path: String,
    /// Whether the skill's requirements are met.
    pub available: bool,
}

/// `true` or `false`.
pub open spec fn bool_text(b: bool) -> Seq<char> {
    if b {
        "true"@
    } else {
        "false"@
    }
}

/// The lines of one skill, each preceded by a line break.
pub open spec fn skill_block(s: SkillSummary) -> Seq<char> {
    "\n  <skill available=\""@ + bool_text(s.available) + "\">\n    <name>"@ + escape_xml_spec(s.name@)
        + "</name>\n    <description>"@ + escape_xml_spec(s.description@) + "</description>\n    <location>"@
        + escape_xml_spec(s.path@) + "</location>\n  </skill>"@
}

/// The lines of all skills.
pub open spec fn skill_blocks(ss: Seq<SkillSummary>) -> Seq<char>
    decreases ss.len(),
{
    if ss.len() == 0 {
        Seq::empty()
    } else {
        skill_blocks(ss.drop_last()) + skill_block(ss.last())
    }
}

/// The skills section: empty when skills are disabled or none is visible;
/// else a `<skills>` summary of the loaded skills, followed by the content
/// of the always-loaded skills when there is any.
pub open spec fn skills_prompt_spec(
    enabled: bool,
    any_visible: bool,
    skills: Seq<SkillSummary>,
    always_content: Seq<char>,
) -> Seq<char> {
    if !enabled || !any_visible {
        Seq::empty()
    } else {
        let summary = "<skills>"@ + skill_blocks(skills) + "\n</skills>"@;
        if always_content.len() == 0 {
            summary
        } else {
            summary + "\n\n## Active Skills\n\n"@ + always_content
        }
    }
}

/// The skills section of the system prompt.
pub fn skills_prompt(
    enabled: bool,
    any_visible: bool,
    skills: &Vec<SkillSummary>,
    always_content: &str,
) -> (r: String)
    ensures
        r@ == skills_prompt_spec(enabled, any_visible, skills@, always_content@),
{
    if !enabled || !any_visible {
        return String::new();
    }
    let mut r = String::from_str("<skills>");
    let mut i: usize = 0;
    while i < skills.len()
        invariant
            i <= skills@.len(),
            r@ == "<skills>"@ + skill_blocks(skills@.take(i as int)),
        decreases skills@.len() - i,
    {
        let s = &skills[i];
        assert(skills@.take(i + 1).drop_last() =~= skills@.take(i as int));
        let ghost before = r@;
        r.append("\n  <skill available=\"");
        r.append(if s.available { "true" } else { "false" });
        r.append("\">\n    <name>");
        let n = escape_xml(s.name.as_str());
        r.append(n.as_str());
        r.append("</name>\n    <description>");
        let d = escape_xml(s.description.as_str());
        r.append(d.as_str());
        r.append("</description>\n    <location>");
        let l = escape_xml(s.path.as_str());
        r.append(l.as_str());
        r.append("</location>\n  </skill>");
        assert(r@ =~= before + skill_block(skills@[i as int]));
        i += 1;
    }
    assert(skills@.take(i as int) =~= skills@);
    r.append("\n</skills>");
    if always_content.is_empty() {
        return r;
    }
    r.append("\n\n## Active Skills\n\n");
    r.append(always_content);
    r
}

/// Whether a skill is disabled: its name, without ASCII case, is among the
/// disabled names.
pub open spec fn skill_disabled_spec(name: Seq<char>, disabled: Seq<Seq<char>>) -> bool {
    lowered(disabled).contains(ascii_lowercase(name))
}

/// Whether a skill is disabled by the configured names.
pub fn skill_disabled(name: &str, disabled: &Vec<String>) -> (b: bool)
    ensures
        b == skill_disabled_spec(name@, texts(disabled@)),
{
    let lowered_names = lowercase_all(disabled);
    let key = to_ascii_lowercase(name);
    contains_text(&lowered_names, key.as_str())
}

// ---------------------------------------------------------------------------
// Rejected API keys
// ---------------------------------------------------------------------------

/// The message for an HTTP status from a provider's API.
pub open spec fn api_error_base(provider: Seq<char>, status: u16) -> Seq<char> {
    if status == 401 {
        "Invalid API key. Check your "@ + provider + " key and try again.\n  "@ + (if provider == "anthropic"@ {
            "Get key: https://console.anthropic.com/"@
        } else if provider == "openrouter"@ {
            "Get key: https://openrouter.ai/settings/keys"@
        } else {
            "Get key: https://platform.openai.com/api-keys"@
        })
    } else if status == 402 {
        if provider == "openrouter"@ {
            "Insufficient OpenRouter credits. Add credits and try again.\n  Credits: https://openrouter.ai/settings/credits"@
        } else {
            "Billing issue on your "@ + provider + " account. Add a payment method.\n  "@ + (if provider
                == "anthropic"@ {
                "Billing: https://console.anthropic.com/settings/billing"@
            } else {
                "Billing: https://platform.openai.com/settings/organization/billing"@
            })
        }
    } else if status == 429 {
        "Rate limited. Wait a moment and try again."@
    } else if status == 404 {
        "Model not found. Your API key may not have access to the default model."@
    } else {
        "API returned HTTP "@ + crate::text::decimal(status as nat) + ". Check your API key and account status."@
    }
}

/// The message, with the provider's own detail when it gave one.
pub open spec fn friendly_error_text(provider: Seq<char>, status: u16, detail: Option<Seq<char>>) -> Seq<char> {
    match detail {
        Some(d) => api_error_base(provider, status) + "\n  Detail: "@ + d,
        None => api_error_base(provider, status),
    }
}

/// The user-facing message for a rejected API request, given the detail
/// read from the response (if any).
pub fn friendly_api_message(provider: &str, status: u16, detail: Option<&str>) -> (r: String)
    ensures
        r@ == friendly_error_text(
            provider@,
            status,
            match detail {
                Some(d) => Some(d@),
                None => None,
            },
        ),
{
    let mut r: String;
    if status == 401 {
        r = String::from_str("Invalid API key. Check your ");
        r.append(provider);
        r.append(" key and try again.\n  ");
        if str_eq(provider, "anthropic") {
            r.append("Get key: https://console.anthropic.com/");
        } else if str_eq(provider, "openrouter") {
            r.append("Get key: https://openrouter.ai/settings/keys");
        } else {
            r.append("Get key: https://platform.openai.com/api-keys");
        }
    } else if status == 402 {
        if str_eq(provider, "openrouter") {
            r = String::from_str(
                "Insufficient OpenRouter credits. Add credits and try again.\n  Credits: https://openrouter.ai/settings/credits",
            );
        } else {
            r = String::from_str("Billing issue on your ");
            r.append(provider);
            r.append(" account. Add a payment method.\n  ");
            if str_eq(provider, "anthropic") {
                r.append("Billing: https://console.anthropic.com/settings/billing");
            } else {
                r.append("Billing: https://platform.openai.com/settings/organization/billing");
            }
        }
    } else if status == 429 {
        r = String::from_str("Rate limited. Wait a moment and try again.");
    } else if status == 404 {
        r = String::from_str("Model not found. Your API key may not have access to the default model.");
    } else {
        r = String::from_str("API returned HTTP ");
        let d = crate::text::decimal_text(status as u64);
        r.append(d.as_str());
        r.append(". Check your API key and account status.");
    }
    match detail {
        Some(d) => {
            r.append("\n  Detail: ");
            r.append(d);
        },
        None => {},
    }
    r
}

/// The detail of a provider's JSON error response: the text at
/// `error.message`, or `error` itself when it is a text.
pub open spec fn error_detail_of(v: JsonValue) -> Option<Seq<char>> {
    match v {
        JsonValue::Object(es) => match member(es@, "error"@) {
            Some(e) => {
                let m = match e {
                    JsonValue::Object(fs) => match member(fs@, "message"@) {
                        Some(x) => x,
                        None => e,
                    },
                    _ => e,
                };
                match m {
                    JsonValue::String(t) => Some(t@),
                    _ => None,
                }
            },
            None => None,
        },
        _ => None,
    }
}

/// The detail of a response body: none when it is not JSON.
pub open spec fn api_error_detail(body: Seq<char>) -> Option<Seq<char>> {
    match parsed_json(body) {
        Some(v) => error_detail_of(v),
        None => None,
    }
}

/// Reads the detail of a provider's parsed JSON error response.
pub fn detail_of_json(v: &JsonValue) -> (r: Option<String>)
    ensures
        match error_detail_of(*v) {
            Some(t) => r matches Some(s) && s@ == t,
            None => r is None,
        },
{
    let es = match v {
        JsonValue::Object(es) => es,
        _ => return None,
    };
    let e = match get_member(es, "error") {
        Some(e) => e,
        None => return None,
    };
    let m = match e {
        JsonValue::Object(fs) => match get_member(fs, "message") {
            Some(x) => x,
            None => e,
        },
        _ => e,
    };
    match m {
        JsonValue::String(t) => Some(t.clone()),
        _ => None,
    }
}

fn error_detail(body: &str) -> (r: Option<String>)
    ensures
        match api_error_detail(body@) {
            Some(t) => r matches Some(s) && s@ == t,
            None => r is None,
        },
{
    match parse_json(body) {
        Ok(v) => detail_of_json(&v),
        Err(_) => None,
    }
}

/// Map an HTTP status to a user-friendly error message with actionable
/// guidance, adding the detail of the provider's JSON error body.
pub fn friendly_api_error(provider: &str, status: u16, body: &str) -> (r: String)
    ensures
        r@ == friendly_error_text(provider@, status, api_error_detail(body@)),
{
    let detail = error_detail(body);
    match detail {
        Some(d) => friendly_api_message(provider, status, Some(d.as_str())),
        None => friendly_api_message(provider, status, None),
    }
}

/// The model and limits an agent runs with.
pub struct AgentSettings {
    pub model: String,
    pub max_tokens: u32,
    pub max_tool_iterations: u32,
}

/// The agent settings under a template: each of the configured model, max
/// tokens and max tool iterations replaced by the template's override when
/// it has one.
pub fn apply_template_overrides(
    t: &crate::templates::AgentTemplate,
    model: &str,
    max_tokens: u32,
    max_tool_iterations: u32,
) -> (r: AgentSettings)
    ensures
        r.model@ == match t.model {
            Some(m) => m@,
            None => model@,
        },
        r.max_tokens == match t.max_tokens {
            Some(n) => n,
            None => max_tokens,
        },
        r.max_tool_iterations == match t.max_tool_iterations {
            Some(n) => n,
            None => max_tool_iterations,
        },
{
    let m = match &t.model {
        Some(m) => m.clone(),
        None => String::from_str(model),
    };
    AgentSettings {
        model: m,
        max_tokens: match t.max_tokens {
            Some(n) => n,
            None => max_tokens,
        },
        max_tool_iterations: match t.max_tool_iterations {
            Some(n) => n,
            None => max_tool_iterations,
        },
    }
}

/// A request that checks an API key: the URL to fetch with GET, and its
/// headers.
pub struct KeyCheckRequest {
    pub url: String,
    pub headers: Vec<(String, String)>,
}

/// The configured base URL, or the provider's default.
pub open spec fn base_or(base: Option<Seq<char>>, default: Seq<char>) -> Seq<char> {
    match base {
        Some(b) => b,
        None => default,
    }
}

/// How a key of `provider` is checked, for the providers that support it: a
/// read-only endpoint of the API (the models list, or the key's own info on
/// OpenRouter) with the key in the provider's header.
pub open spec fn key_check_spec(provider: Seq<char>, key: Seq<char>, base: Option<Seq<char>>) -> Option<
    (Seq<char>, Seq<(Seq<char>, Seq<char>)>),
> {
    if provider == "anthropic"@ {
        Some(
            (
                base_or(base, "https://api.anthropic.com"@) + "/v1/models"@,
                seq![("x-api-key"@, key), ("anthropic-version"@, "2023-06-01"@)],
            ),
        )
    } else if provider == "openai"@ {
        Some((base_or(base, "https://api.openai.com/v1"@) + "/models"@, seq![("Authorization"@, "Bearer "@ + key)]))
    } else if provider == "openrouter"@ {
        Some((base_or(base, "https://openrouter.ai/api/v1"@) + "/key"@, seq![("Authorization"@, "Bearer "@ + key)]))
    } else {
        None
    }
}

fn header(name: &str, value: String) -> (r: (String, String))
    ensures
        r.0@ == name@,
        r.1@ == value@,
{
    (String::from_str(name), value)
}

/// The request that checks `api_key` for `provider`; `None` for providers
/// whose keys are not checked.
pub fn key_check_request(provider: &str, api_key: &str, api_base: Option<&str>) -> (r: Option<KeyCheckRequest>)
    ensures
        match key_check_spec(
            provider@,
            api_key@,
            match api_base {
                Some(b) => Some(b@),
                None => None,
            },
        ) {
            Some((url, headers)) => (r matches Some(q) && q.url@ == url && pair_texts(q.headers@) == headers),
            None => r is None,
        },
{
    let (default, path): (&str, &str) = if str_eq(provider, "anthropic") {
        ("https://api.anthropic.com", "/v1/models")
    } else if str_eq(provider, "openai") {
        ("https://api.openai.com/v1", "/models")
    } else if str_eq(provider, "openrouter") {
        ("https://openrouter.ai/api/v1", "/key")
    } else {
        return None;
    };
    let mut url = match api_base {
        Some(b) => String::from_str(b),
        None => String::from_str(default),
    };
    url.append(path);
    let mut headers: Vec<(String, String)> = Vec::new();
    if str_eq(provider, "anthropic") {
        headers.push(header("x-api-key", String::from_str(api_key)));
        headers.push(header("anthropic-version", String::from_str("2023-06-01")));
        assert(pair_texts(headers@) =~= seq![("x-api-key"@, api_key@), ("anthropic-version"@, "2023-06-01"@)]);
    } else {
        let mut bearer = String::from_str("Bearer ");
        bearer.append(api_key);
        headers.push(header("Authorization", bearer));
        assert(pair_texts(headers@) =~= seq![("Authorization"@, "Bearer "@ + api_key@)]);
    }
    Some(KeyCheckRequest { url, headers })
}

/// What a key check gives for the response's status and body: success for a
/// 2xx status, else the user-facing message for the rejection.
pub fn key_check_outcome(provider: &str, status: u16, body: &str) -> (r: Result<(), String>)
    ensures
        200 <= status <= 299 ==> r is Ok,
        !(200 <= status <= 299) ==> (r matches Err(m) && m@ == friendly_error_text(
            provider@,
            status,
            api_error_detail(body@),
        )),
{
    if 200 <= status && status <= 299 {
        Ok(())
    } else {
        Err(friendly_api_error(provider, status, body))
    }
}

} // verus!
