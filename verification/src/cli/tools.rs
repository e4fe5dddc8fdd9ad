//! The agent tools as the CLI lists them: the table of tools, whether each
//! is set up, the summary, and the `tools info` text.

use vstd::prelude::*;
use crate::text::str_eq;
use crate::text::trim;
use crate::text::decimal;
use crate::text::decimal_text;

verus! {

/// Static tool info for CLI display.
#[derive(Debug, Clone, Copy)]
pub struct ToolInfo {
    pub name: &'static str,
    pub description: &'static str,
    pub requires_config: bool,
    pub config_hint: &'static str,
    pub opt_in: bool,
}

/// The tools, as (name, description, requires_config, config_hint, opt_in).
pub open spec fn tool_table() -> Seq<(Seq<char>, Seq<char>, bool, Seq<char>, bool)> {
    seq![
        ("echo"@, "Echo input back (testing)"@, false, ""@, false),
        ("read_file"@, "Read a file from workspace"@, false, ""@, false),
        ("write_file"@, "Write content to a file in workspace"@, false, ""@, false),
        ("list_dir"@, "List directory contents in workspace"@, false, ""@, false),
        ("edit_file"@, "Edit a file with search/replace"@, false, ""@, false),
        ("shell"@, "Execute shell commands (with runtime isolation)"@, false, ""@, false),
        ("web_search"@, "Search the web (Brave with API key, DuckDuckGo free fallback)"@, false, "Optional: Set tools.web.search.api_key for Brave Search"@, false),
        ("web_fetch"@, "Fetch and extract content from URLs"@, false, ""@, false),
        ("memory_search"@, "Search workspace markdown memory"@, false, ""@, false),
        ("memory_get"@, "Get specific workspace memory file"@, false, ""@, false),
        ("longterm_memory"@, "Persistent key-value memory (set/get/search/delete/list)"@, false, ""@, false),
        ("message"@, "Send proactive messages to channels"@, true, "Configure at least one channel (telegram, slack, discord)"@, false),
        ("cron"@, "Schedule recurring tasks"@, false, ""@, false),
        ("spawn"@, "Delegate tasks to background workers"@, false, ""@, false),
        ("delegate"@, "Delegate to specialized sub-agents"@, false, ""@, false),
        ("whatsapp_send"@, "Send WhatsApp messages via Cloud API"@, true, "Set tools.whatsapp.phone_number_id + access_token"@, false),
        ("google_sheets"@, "Read/write Google Sheets"@, true, "Set tools.google_sheets.access_token"@, false),
        ("google"@, "Gmail + Calendar (search, read, send, schedule)"@, true, "Run `zeptoclaw auth login google` or set tools.google.access_token"@, false),
        ("r8r"@, "Execute R8r deterministic workflows"@, true, "Set R8R_API_URL env var"@, false),
        ("reminder"@, "Persistent reminders (add/complete/snooze/overdue)"@, false, ""@, false),
        ("grep"@, "Search file contents by regex pattern"@, false, ""@, true),
        ("find"@, "Find files by glob pattern"@, false, ""@, true),
    ]
}

/// The texts of a list of tools.
pub open spec fn tool_texts(t: Seq<ToolInfo>) -> Seq<(Seq<char>, Seq<char>, bool, Seq<char>, bool)> {
    t.map_values(|x: ToolInfo| (x.name@, x.description@, x.requires_config, x.config_hint@, x.opt_in))
}

fn tool(
    name: &'static str,
    description: &'static str,
    requires_config: bool,
    config_hint: &'static str,
    opt_in: bool,
) -> (r: ToolInfo)
    ensures
        r == (ToolInfo { name, description, requires_config, config_hint, opt_in }),
{
    ToolInfo { name, description, requires_config, config_hint, opt_in }
}

/// The tools the CLI knows.
pub fn tools() -> (r: Vec<ToolInfo>)
    ensures
        tool_texts(r@) == tool_table(),
{
    let r = vec![
        tool("echo", "Echo input back (testing)", false, "", false),
        tool("read_file", "Read a file from workspace", false, "", false),
        tool("write_file", "Write content to a file in workspace", false, "", false),
        tool("list_dir", "List directory contents in workspace", false, "", false),
        tool("edit_file", "Edit a file with search/replace", false, "", false),
        tool("shell", "Execute shell commands (with runtime isolation)", false, "", false),
        tool("web_search", "Search the web (Brave with API key, DuckDuckGo free fallback)", false, "Optional: Set tools.web.search.api_key for Brave Search", false),
        tool("web_fetch", "Fetch and extract content from URLs", false, "", false),
        tool("memory_search", "Search workspace markdown memory", false, "", false),
        tool("memory_get", "Get specific workspace memory file", false, "", false),
        tool("longterm_memory", "Persistent key-value memory (set/get/search/delete/list)", false, "", false),
        tool("message", "Send proactive messages to channels", true, "Configure at least one channel (telegram, slack, discord)", false),
        tool("cron", "Schedule recurring tasks", false, "", false),
        tool("spawn", "Delegate tasks to background workers", false, "", false),
        tool("delegate", "Delegate to specialized sub-agents", false, "", false),
        tool("whatsapp_send", "Send WhatsApp messages via Cloud API", true, "Set tools.whatsapp.phone_number_id + access_token", false),
        tool("google_sheets", "Read/write Google Sheets", true, "Set tools.google_sheets.access_token", false),
        tool("google", "Gmail + Calendar (search, read, send, schedule)", true, "Run `zeptoclaw auth login google` or set tools.google.access_token", false),
        tool("r8r", "Execute R8r deterministic workflows", true, "Set R8R_API_URL env var", false),
        tool("reminder", "Persistent reminders (add/complete/snooze/overdue)", false, "", false),
        tool("grep", "Search file contents by regex pattern", false, "", true),
        tool("find", "Find files by glob pattern", false, "", true),
    ];
    assert(tool_texts(r@) =~= tool_table());
    r
}

/// The configuration values that decide whether a tool is set up.
pub struct ToolConfigFacts {
    pub whatsapp_phone_number_id: Option<String>,
    pub whatsapp_access_token: Option<String>,
    pub google_sheets_access_token: Option<String>,
    pub google_sheets_service_account_base64: Option<String>,
    pub google_access_token: Option<String>,
    pub google_client_id: Option<String>,
    pub telegram_enabled: Option<bool>,
    pub slack_enabled: Option<bool>,
    pub discord_enabled: Option<bool>,
    /// Whether the `R8R_API_URL` environment variable is set.
    pub r8r_api_url_set: bool,
}

/// A value that is present and not blank.
pub open spec fn present(v: Option<String>) -> bool {
    match v {
        Some(s) => trim(s@).len() > 0,
        None => false,
    }
}

/// An enabled channel.
pub open spec fn on(v: Option<bool>) -> bool {
    match v {
        Some(b) => b,
        None => false,
    }
}

/// Whether the tool `name` is set up.
pub open spec fn tool_configured(f: ToolConfigFacts, name: Seq<char>) -> bool {
    if name == "web_search"@ {
        true
    } else if name == "whatsapp_send"@ {
        present(f.whatsapp_phone_number_id) && present(f.whatsapp_access_token)
    } else if name == "google_sheets"@ {
        present(f.google_sheets_access_token) || present(f.google_sheets_service_account_base64)
    } else if name == "google"@ {
        present(f.google_access_token) || present(f.google_client_id)
    } else if name == "message"@ {
        on(f.telegram_enabled) || on(f.slack_enabled) || on(f.discord_enabled)
    } else if name == "r8r"@ {
        f.r8r_api_url_set
    } else {
        true
    }
}

fn is_present(v: &Option<String>) -> (b: bool)
    ensures
        b == present(*v),
{
    match v {
        Some(s) => !crate::text::trimmed(s.as_str()).as_str().is_empty(),
        None => false,
    }
}

fn is_on(v: &Option<bool>) -> (b: bool)
    ensures
        b == on(*v),
{
    match v {
        Some(b) => *b,
        None => false,
    }
}

/// Whether the tool `name` is set up.
pub fn is_tool_configured(facts: &ToolConfigFacts, name: &str) -> (b: bool)
    ensures
        b == tool_configured(*facts, name@),
{
    if str_eq(name, "web_search") {
        true
    } else if str_eq(name, "whatsapp_send") {
        is_present(&facts.whatsapp_phone_number_id) && is_present(&facts.whatsapp_access_token)
    } else if str_eq(name, "google_sheets") {
        is_present(&facts.google_sheets_access_token) || is_present(
            &facts.google_sheets_service_account_base64,
        )
    } else if str_eq(name, "google") {
        is_present(&facts.google_access_token) || is_present(&facts.google_client_id)
    } else if str_eq(name, "message") {
        is_on(&facts.telegram_enabled) || is_on(&facts.slack_enabled) || is_on(&facts.discord_enabled)
    } else if str_eq(name, "r8r") {
        facts.r8r_api_url_set
    } else {
        true
    }
}

/// Whether a tool is ready: an opt-in tool when coding tools are on, any
/// other when it needs no configuration or is configured.
pub open spec fn tool_ready(t: (Seq<char>, Seq<char>, bool, Seq<char>, bool), f: ToolConfigFacts, coding_on: bool) -> bool {
    if t.4 {
        coding_on
    } else {
        !t.2 || tool_configured(f, t.0)
    }
}

/// How many of the tools are ready.
pub open spec fn ready_count(t: Seq<(Seq<char>, Seq<char>, bool, Seq<char>, bool)>, f: ToolConfigFacts, coding_on: bool) -> nat
    decreases t.len(),
{
    if t.len() == 0 {
        0
    } else {
        ready_count(t.drop_last(), f, coding_on) + if tool_ready(t.last(), f, coding_on) {
            1nat
        } else {
            0nat
        }
    }
}

/// The summary counts: tools ready, and tools that need setup or activation.
pub fn tools_summary_counts(facts: &ToolConfigFacts, coding_on: bool) -> (r: (usize, usize))
    ensures
        r.0 == ready_count(tool_table(), *facts, coding_on),
        r.0 + r.1 == tool_table().len(),
{
    let list = tools();
    let ghost t = tool_texts(list@);
    let mut ready: usize = 0;
    let mut needs: usize = 0;
    let mut i: usize = 0;
    assert(t.take(0) =~= Seq::<(Seq<char>, Seq<char>, bool, Seq<char>, bool)>::empty());
    while i < list.len()
        invariant
            i <= list@.len(),
            t == tool_texts(list@),
            t == tool_table(),
            ready == ready_count(t.take(i as int), *facts, coding_on),
            ready + needs == i,
        decreases list@.len() - i,
    {
        let x = list[i];
        assert(t.take(i + 1).drop_last() =~= t.take(i as int));
        assert(t.take(i + 1).last() == t[i as int]);
        let ok = if x.opt_in {
            coding_on
        } else {
            !x.requires_config || is_tool_configured(facts, x.name)
        };
        if ok {
            ready += 1;
        } else {
            needs += 1;
        }
        i += 1;
    }
    assert(t.take(i as int) =~= t);
    (ready, needs)
}

/// The tool of this name.
pub fn find_tool(name: &str) -> (r: Option<ToolInfo>)
    ensures
        match r {
            Some(x) => x.name@ == name@ && exists|k: int|
                0 <= k < tool_table().len() && tool_table()[k] == (
                    x.name@,
                    x.description@,
                    x.requires_config,
                    x.config_hint@,
                    x.opt_in,
                ),
            None => forall|k: int| 0 <= k < tool_table().len() ==> tool_table()[k].0 != name@,
        },
{
    let list = tools();
    let ghost t = tool_texts(list@);
    let mut i: usize = 0;
    while i < list.len()
        invariant
            i <= list@.len(),
            t == tool_texts(list@),
            t == tool_table(),
            forall|k: int| 0 <= k < i ==> t[k].0 != name@,
        decreases list@.len() - i,
    {
        let x = list[i];
        assert(t[i as int] == (x.name@, x.description@, x.requires_config, x.config_hint@, x.opt_in));
        if str_eq(x.name, name) {
            return Some(x);
        }
        i += 1;
    }
    None
}

/// The `tools info` text for a tool.
pub open spec fn tool_info_spec(t: (Seq<char>, Seq<char>, bool, Seq<char>, bool), f: ToolConfigFacts, coding_on: bool) -> Seq<char> {
    "Tool: "@ + t.0 + "\n----------------------------------------\nDescription: "@ + t.1 + "\n"@ + if t.4 {
        if coding_on {
            "Status: ready (coding tools enabled)"@
        } else {
            "Status: disabled (opt-in)\nEnable: `--template coder` or set `tools.coding_tools: true` in config\n       or set env var `ZEPTOCLAW_TOOLS_CODING_TOOLS=true`"@
        }
    } else if !t.2 || tool_configured(f, t.0) {
        "Status: ready"@
    } else {
        "Status: needs setup\nSetup: "@ + t.3
    }
}

/// The text for a tool name that is not in the table.
pub open spec fn unknown_tool_text(name: Seq<char>) -> Seq<char> {
    "Unknown tool '"@ + name + "'. Run 'zeptoclaw tools list' to see all tools."@
}

/// The `tools info` text for a name.
pub fn tool_info_text(name: &str, facts: &ToolConfigFacts, coding_on: bool) -> (r: String)
    ensures
        match find_tool_spec(name@) {
            Some(t) => r@ == tool_info_spec(t, *facts, coding_on),
            None => r@ == unknown_tool_text(name@),
        },
{
    match find_tool(name) {
        Some(t) => {
            proof {
                lemma_tool_names_unique();
            }
            let mut r = String::from_str("Tool: ");
            r.append(t.name);
            r.append("\n----------------------------------------\nDescription: ");
            r.append(t.description);
            r.append("\n");
            if t.opt_in {
                if coding_on {
                    r.append("Status: ready (coding tools enabled)");
                } else {
                    r.append(
                        "Status: disabled (opt-in)\nEnable: `--template coder` or set `tools.coding_tools: true` in config\n       or set env var `ZEPTOCLAW_TOOLS_CODING_TOOLS=true`",
                    );
                }
            } else if !t.requires_config || is_tool_configured(facts, t.name) {
                r.append("Status: ready");
            } else {
                r.append("Status: needs setup\nSetup: ");
                r.append(t.config_hint);
            }
            r
        },
        None => {
            let mut r = String::from_str("Unknown tool '");
            r.append(name);
            r.append("'. Run 'zeptoclaw tools list' to see all tools.");
            r
        },
    }
}

/// The table entry named `name`.
pub open spec fn find_tool_spec(name: Seq<char>) -> Option<(Seq<char>, Seq<char>, bool, Seq<char>, bool)> {
    if exists|k: int| 0 <= k < tool_table().len() && tool_table()[k].0 == name {
        Some(tool_table()[choose|k: int| 0 <= k < tool_table().len() && tool_table()[k].0 == name])
    } else {
        None
    }
}

/// No two tools share a name.
pub proof fn lemma_tool_names_unique()
    ensures
        forall|j: int, k: int|
            0 <= j < k < tool_table().len() ==> tool_table()[j].0 != tool_table()[k].0,
{
    let t = tool_table();
    reveal_strlit("echo");
    reveal_strlit("read_file");
    reveal_strlit("write_file");
    reveal_strlit("list_dir");
    reveal_strlit("edit_file");
    reveal_strlit("shell");
    reveal_strlit("web_search");
    reveal_strlit("web_fetch");
    reveal_strlit("memory_search");
    reveal_strlit("memory_get");
    reveal_strlit("longterm_memory");
    reveal_strlit("message");
    reveal_strlit("cron");
    reveal_strlit("spawn");
    reveal_strlit("delegate");
    reveal_strlit("whatsapp_send");
    reveal_strlit("google_sheets");
    reveal_strlit("google");
    reveal_strlit("r8r");
    reveal_strlit("reminder");
    reveal_strlit("grep");
    reveal_strlit("find");
    assert forall|j: int, k: int| 0 <= j < k < t.len() implies t[j].0 != t[k].0 by {
        if t[j].0 == t[k].0 {
            assert(t[j].0.len() == t[k].0.len());
            assert(t[j].0[0] == t[k].0[0]);
            assert(t[j].0[t[j].0.len() - 1] == t[k].0[t[k].0.len() - 1]);
        }
    }
}

/// The summary line of a tool.
pub open spec fn summary_line(t: (Seq<char>, Seq<char>, bool, Seq<char>, bool), f: ToolConfigFacts, coding_on: bool) -> Seq<char> {
    if t.4 {
        if coding_on {
            "  + "@ + t.0 + " (coding)"@
        } else {
            "  o "@ + t.0 + " (opt-in: --template coder)"@
        }
    } else if !t.2 || tool_configured(f, t.0) {
        "  + "@ + t.0
    } else {
        "  - "@ + t.0 + " ("@ + t.3 + ")"@
    }
}

/// The summary lines of the tools.
pub open spec fn summary_lines(t: Seq<(Seq<char>, Seq<char>, bool, Seq<char>, bool)>, f: ToolConfigFacts, coding_on: bool) -> Seq<char>
    decreases t.len(),
{
    if t.len() == 0 {
        Seq::empty()
    } else {
        summary_lines(t.drop_last(), f, coding_on) + summary_line(t.last(), f, coding_on) + "\n"@
    }
}

/// The tools summary of the status command: a line per tool, then the
/// counts of those ready and of those that need setup.
pub open spec fn tools_summary_spec(facts: ToolConfigFacts, coding_on: bool) -> Seq<char> {
    summary_lines(tool_table(), facts, coding_on) + "\n  "@ + decimal(
        ready_count(tool_table(), facts, coding_on),
    ) + " ready, "@ + decimal((tool_table().len() - ready_count(tool_table(), facts, coding_on)) as nat)
        + " need setup/activation"@
}

/// The tools summary of the status command (see `tools_summary_spec`).
pub fn tools_summary_text(facts: &ToolConfigFacts, coding_on: bool) -> (r: String)
    ensures
        r@ == tools_summary_spec(*facts, coding_on),
{
    let list = tools();
    let ghost t = tool_texts(list@);
    let mut r = String::new();
    let mut i: usize = 0;
    assert(t.take(0) =~= Seq::<(Seq<char>, Seq<char>, bool, Seq<char>, bool)>::empty());
    while i < list.len()
        invariant
            i <= list@.len(),
            t == tool_texts(list@),
            t == tool_table(),
            r@ == summary_lines(t.take(i as int), *facts, coding_on),
        decreases list@.len() - i,
    {
        let x = list[i];
        assert(t.take(i + 1).drop_last() =~= t.take(i as int));
        assert(t.take(i + 1).last() == t[i as int]);
        if x.opt_in {
            if coding_on {
                r.append("  + ");
                r.append(x.name);
                r.append(" (coding)");
            } else {
                r.append("  o ");
                r.append(x.name);
                r.append(" (opt-in: --template coder)");
            }
        } else if !x.requires_config || is_tool_configured(facts, x.name) {
            r.append("  + ");
            r.append(x.name);
        } else {
            r.append("  - ");
            r.append(x.name);
            r.append(" (");
            r.append(x.config_hint);
            r.append(")");
        }
        r.append("\n");
        i += 1;
    }
    assert(t.take(i as int) =~= t);
    let (ready, needs) = tools_summary_counts(facts, coding_on);
    r.append("\n  ");
    let a = decimal_text(ready as u64);
    r.append(a.as_str());
    r.append(" ready, ");
    let b = decimal_text(needs as u64);
    r.append(b.as_str());
    r.append(" need setup/activation");
    r
}

} // verus!
