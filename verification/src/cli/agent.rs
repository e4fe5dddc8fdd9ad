//! The agent command's texts and decisions: error guidance, the tool list,
//! terminal detection, model overrides and approval answers.

use vstd::prelude::*;
use crate::text::chars_of;
use crate::text::contains;
use crate::text::str_contains;
use crate::text::trim;
use crate::text::trim_end;
use crate::text::trimmed;
use crate::text::string_of_range;
use crate::text::decimal;
use crate::text::decimal_text;
use crate::text::starts_with;
use crate::text::str_eq;
use crate::text::str_starts_with;
use crate::text::pair_texts;
use crate::whatsapp::occurs;
use crate::whatsapp::first_index;
use crate::whatsapp::eq_ignore_ascii_case;
use crate::whatsapp::text_eq_ignore_ascii_case;

verus! {

/// The channel name of CLI messages.
pub const CLI_CHANNEL: &'static str = "cli";

/// The chat id of CLI messages.
pub const CLI_CHAT_ID: &'static str = "cli";

/// The session key of the CLI conversation.
pub fn cli_session_key() -> (r: String)
    ensures
        r@ == "cli:cli"@,
{
    proof {
        reveal_strlit("cli");
        reveal_strlit(":");
        reveal_strlit("cli:cli");
    }
    let mut s = String::from_str(CLI_CHANNEL);
    s.append(":");
    s.append(CLI_CHAT_ID);
    s
}

/// Guidance appended to an error message, chosen by what the message says.
pub open spec fn cli_error_text(msg: Seq<char>) -> Seq<char> {
    if contains(msg, "Authentication error"@) {
        msg + "\n\n  Fix: Check your API key. Run 'zeptoclaw auth status' to verify.\n  Or:  Set ZEPTOCLAW_PROVIDERS_ANTHROPIC_API_KEY=sk-ant-..."@
    } else if contains(msg, "Billing error"@) {
        msg + "\n\n  Fix: Add a payment method to your AI provider account."@
    } else if contains(msg, "Rate limit"@) {
        msg + "\n\n  Fix: Wait a moment and try again. Or set up a fallback provider."@
    } else if contains(msg, "Model not found"@) {
        msg + "\n\n  Fix: Check model name in config. Run 'zeptoclaw config check'."@
    } else if contains(msg, "Timeout"@) {
        msg + "\n\n  Fix: Try again. If persistent, check your network connection."@
    } else if contains(msg, "No AI provider configured"@) || contains(msg, "provider"@) {
        msg + "\n\n  Fix: Run 'zeptoclaw onboard' to set up an AI provider."@
    } else {
        msg
    }
}

/// Format agent errors (their displayed text) with actionable guidance for
/// CLI users.
pub fn format_cli_error(msg: &str) -> (r: String)
    ensures
        r@ == cli_error_text(msg@),
{
    let mut s = String::from_str(msg);
    if str_contains(msg, "Authentication error") {
        s.append(
            "\n\n  Fix: Check your API key. Run 'zeptoclaw auth status' to verify.\n  Or:  Set ZEPTOCLAW_PROVIDERS_ANTHROPIC_API_KEY=sk-ant-...",
        );
    } else if str_contains(msg, "Billing error") {
        s.append("\n\n  Fix: Add a payment method to your AI provider account.");
    } else if str_contains(msg, "Rate limit") {
        s.append("\n\n  Fix: Wait a moment and try again. Or set up a fallback provider.");
    } else if str_contains(msg, "Model not found") {
        s.append("\n\n  Fix: Check model name in config. Run 'zeptoclaw config check'.");
    } else if str_contains(msg, "Timeout") {
        s.append("\n\n  Fix: Try again. If persistent, check your network connection.");
    } else if str_contains(msg, "No AI provider configured") || str_contains(msg, "provider") {
        s.append("\n\n  Fix: Run 'zeptoclaw onboard' to set up an AI provider.");
    }
    s
}

/// One line per tool name.
pub open spec fn tool_lines(names: Seq<&str>) -> Seq<char>
    decreases names.len(),
{
    if names.len() == 0 {
        Seq::empty()
    } else {
        tool_lines(names.drop_last()) + "  "@ + names.last()@ + "\n"@
    }
}

/// The tool list text.
pub open spec fn tool_list_text(names: Seq<&str>) -> Seq<char> {
    if names.len() == 0 {
        "No tools registered."@
    } else {
        trim_end("Available tools ("@ + decimal(names.len()) + "):\n\n"@ + tool_lines(names))
    }
}

/// The list of registered tools.
pub fn format_tool_list(tool_names: &[&str]) -> (r: String)
    ensures
        r@ == tool_list_text(tool_names@),
{
    if tool_names.len() == 0 {
        return String::from_str("No tools registered.");
    }
    let mut out = String::from_str("Available tools (");
    let d = decimal_text(tool_names.len() as u64);
    out.append(d.as_str());
    out.append("):\n\n");
    let ghost head = out@;
    let mut i: usize = 0;
    assert(tool_names@.take(0) =~= Seq::<&str>::empty());
    assert(out@ =~= head + tool_lines(tool_names@.take(0)));
    while i < tool_names.len()
        invariant
            i <= tool_names@.len(),
            out@ == head + tool_lines(tool_names@.take(i as int)),
        decreases tool_names@.len() - i,
    {
        let ghost before = out@;
        out.append("  ");
        out.append(tool_names[i]);
        out.append("\n");
        assert(tool_names@.take(i + 1).drop_last() =~= tool_names@.take(i as int));
        assert(tool_names@.take(i + 1).last() == tool_names@[i as int]);
        assert(out@ =~= before + "  "@ + tool_names@[i as int]@ + "\n"@);
        i += 1;
    }
    assert(tool_names@.take(i as int) =~= tool_names@);
    crate::text::trimmed_end(out.as_str())
}

/// Whether the CLI runs interactively: both stdin and stdout are terminals.
pub fn is_interactive_cli_terminal(stdin_terminal: bool, stdout_terminal: bool) -> (b: bool)
    ensures
        b == (stdin_terminal && stdout_terminal),
{
    stdin_terminal && stdout_terminal
}

/// The model in use when overridden.
pub struct ModelOverride {
    pub provider: Option<String>,
    pub model: String,
}

/// The provider part of a `provider:model` name, if it has one.
pub open spec fn model_provider(name: Seq<char>) -> Option<Seq<char>> {
    if occurs(name, ':') {
        Some(name.take(first_index(name, ':')))
    } else {
        None
    }
}

/// The active override: its own provider, or else the default model's.
pub fn active_model_override(model_override: &Option<(Option<String>, String)>, default_model: &str) -> (r: Option<ModelOverride>)
    ensures
        match *model_override {
            None => r is None,
            Some((p, m)) => r matches Some(o) && o.model@ == m@ && match p {
                Some(pp) => o.provider matches Some(x) && x@ == pp@,
                None => match model_provider(default_model@) {
                    Some(dp) => o.provider matches Some(x) && x@ == dp,
                    None => o.provider is None,
                },
            },
        },
{
    match model_override {
        None => None,
        Some((p, m)) => {
            let provider = match p {
                Some(pp) => Some(pp.clone()),
                None => {
                    let v = chars_of(default_model);
                    let n = v.len();
                    match crate::text::find_char(&v, 0, n, ':') {
                        Some(k) => {
                            proof {
                                crate::whatsapp::lemma_first_index(default_model@, ':', k as int);
                            }
                            assert(v@.subrange(0, k as int) =~= default_model@.take(k as int));
                            Some(string_of_range(&v, 0, k))
                        },
                        None => None,
                    }
                },
            };
            Some(ModelOverride { provider, model: m.clone() })
        },
    }
}

/// The answer to an approval prompt.
#[derive(Debug, Clone, Copy, PartialEq, Eq, Structural)]
pub enum ApprovalAnswer {
    Approve,
    Deny,
    /// Not understood: ask again.
    AskAgain,
}

/// What an approval reply means: `y`/`yes` approve, an empty reply or
/// `n`/`no` deny (ignoring surrounding whitespace and ASCII case).
pub open spec fn approval_answer_spec(reply: Seq<char>) -> ApprovalAnswer {
    let t = trim(reply);
    if eq_ignore_ascii_case(t, "y"@) || eq_ignore_ascii_case(t, "yes"@) {
        ApprovalAnswer::Approve
    } else if t.len() == 0 || eq_ignore_ascii_case(t, "n"@) || eq_ignore_ascii_case(t, "no"@) {
        ApprovalAnswer::Deny
    } else {
        ApprovalAnswer::AskAgain
    }
}

/// Reads a reply to the approval prompt.
pub fn approval_answer(reply: &str) -> (r: ApprovalAnswer)
    ensures
        r == approval_answer_spec(reply@),
{
    let t = trimmed(reply);
    if text_eq_ignore_ascii_case(t.as_str(), "y") || text_eq_ignore_ascii_case(t.as_str(), "yes") {
        ApprovalAnswer::Approve
    } else if t.as_str().is_empty() || text_eq_ignore_ascii_case(t.as_str(), "n")
        || text_eq_ignore_ascii_case(t.as_str(), "no") {
        ApprovalAnswer::Deny
    } else {
        ApprovalAnswer::AskAgain
    }
}

// ---------------------------------------------------------------------------
// The interactive loop: what each line typed at the prompt does
// ---------------------------------------------------------------------------

/// What a line typed at the interactive prompt asks for.
#[derive(Debug, Clone, Copy, PartialEq, Eq, Structural)]
pub enum ReplKind {
    /// Nothing but whitespace: ignored.
    Blank,
    /// `/quit`, `/exit`, or (without the slash) `quit`, `exit`.
    Quit,
    Help,
    /// `/model` and `/model ...`.
    Model,
    /// `/persona` and `/persona ...`.
    Persona,
    Tools,
    /// `/template` or `/template list`.
    TemplateList,
    /// `/template` followed by anything else.
    TemplateUsage,
    History,
    Memory,
    Clear,
    Trust,
    TrustOn,
    TrustOff,
    /// Any other slash command.
    Unknown,
    /// A message for the agent.
    Message,
}

/// Whether `cmd` is the word `w` alone or followed by a space and more.
pub open spec fn is_command_word(cmd: Seq<char>, w: Seq<char>) -> bool {
    cmd == w || starts_with(cmd, w + " "@)
}

/// What a slash command (the text after the slash) asks for.
pub open spec fn command_kind(cmd: Seq<char>) -> ReplKind {
    if cmd == "quit"@ || cmd == "exit"@ {
        ReplKind::Quit
    } else if cmd == "help"@ {
        ReplKind::Help
    } else if is_command_word(cmd, "model"@) {
        ReplKind::Model
    } else if is_command_word(cmd, "persona"@) {
        ReplKind::Persona
    } else if cmd == "tools"@ {
        ReplKind::Tools
    } else if is_command_word(cmd, "template"@) {
        if cmd == "template list"@ || cmd == "template"@ {
            ReplKind::TemplateList
        } else {
            ReplKind::TemplateUsage
        }
    } else if cmd == "history"@ {
        ReplKind::History
    } else if cmd == "memory"@ {
        ReplKind::Memory
    } else if cmd == "clear"@ {
        ReplKind::Clear
    } else if cmd == "trust"@ {
        ReplKind::Trust
    } else if cmd == "trust on"@ {
        ReplKind::TrustOn
    } else if cmd == "trust off"@ {
        ReplKind::TrustOff
    } else {
        ReplKind::Unknown
    }
}

/// What a typed line asks for, judged on the line without surrounding
/// whitespace.
pub open spec fn repl_kind(line: Seq<char>) -> ReplKind {
    let t = trim(line);
    if t.len() == 0 {
        ReplKind::Blank
    } else if t[0] == '/' {
        command_kind(t.drop_first())
    } else if t == "quit"@ || t == "exit"@ {
        ReplKind::Quit
    } else {
        ReplKind::Message
    }
}

fn str_is_command_word(cmd: &str, w: &str) -> (b: bool)
    ensures
        b == is_command_word(cmd@, w@),
{
    if str_eq(cmd, w) {
        return true;
    }
    let mut p = String::from_str(w);
    p.append(" ");
    str_starts_with(cmd, p.as_str())
}

/// Classifies a slash command (the text after the slash).
pub fn classify_command(cmd: &str) -> (k: ReplKind)
    ensures
        k == command_kind(cmd@),
{
    if str_eq(cmd, "quit") || str_eq(cmd, "exit") {
        ReplKind::Quit
    } else if str_eq(cmd, "help") {
        ReplKind::Help
    } else if str_is_command_word(cmd, "model") {
        ReplKind::Model
    } else if str_is_command_word(cmd, "persona") {
        ReplKind::Persona
    } else if str_eq(cmd, "tools") {
        ReplKind::Tools
    } else if str_is_command_word(cmd, "template") {
        if str_eq(cmd, "template list") || str_eq(cmd, "template") {
            ReplKind::TemplateList
        } else {
            ReplKind::TemplateUsage
        }
    } else if str_eq(cmd, "history") {
        ReplKind::History
    } else if str_eq(cmd, "memory") {
        ReplKind::Memory
    } else if str_eq(cmd, "clear") {
        ReplKind::Clear
    } else if str_eq(cmd, "trust") {
        ReplKind::Trust
    } else if str_eq(cmd, "trust on") {
        ReplKind::TrustOn
    } else if str_eq(cmd, "trust off") {
        ReplKind::TrustOff
    } else {
        ReplKind::Unknown
    }
}

/// Classifies a typed line; also gives the line without surrounding
/// whitespace, and the command text after the slash where there is one.
pub fn classify_repl_input(line: &str) -> (r: (ReplKind, String, String))
    ensures
        r.0 == repl_kind(line@),
        r.1@ == trim(line@),
        trim(line@).len() > 0 && trim(line@)[0] == '/' ==> r.2@ == trim(line@).drop_first(),
{
    let t = trimmed(line);
    let v = chars_of(t.as_str());
    let n = v.len();
    if n == 0 {
        return (ReplKind::Blank, t, String::new());
    }
    if v[0] == '/' {
        let cmd = string_of_range(&v, 1, n);
        assert(v@.subrange(1, n as int) =~= t@.drop_first());
        let k = classify_command(cmd.as_str());
        return (k, t, cmd);
    }
    if str_eq(t.as_str(), "quit") || str_eq(t.as_str(), "exit") {
        (ReplKind::Quit, t, String::new())
    } else {
        (ReplKind::Message, t, String::new())
    }
}

/// What the interactive loop keeps between lines.
pub struct ReplState {
    /// Both stdin and stdout are terminals.
    pub interactive: bool,
    /// Approval prompts are bypassed (`/trust on`).
    pub trusted: bool,
    /// `(provider, model)` chosen with `/model`.
    pub model_override: Option<(Option<String>, String)>,
    /// The persona chosen with `/persona`.
    pub persona_override: Option<String>,
}

impl ReplState {
    /// The state at the start of a session.
    pub fn new(interactive: bool) -> (s: Self)
        ensures
            s.interactive == interactive,
            !s.trusted,
            s.model_override is None,
            s.persona_override is None,
    {
        ReplState { interactive, trusted: false, model_override: None, persona_override: None }
    }
}

/// What the loop does with a line.
pub enum ReplAction {
    /// Nothing; read the next line.
    Skip,
    /// Say goodbye and leave the loop.
    Exit,
    ShowHelp,
    /// Hand the line to the model command.
    ModelCommand,
    /// Hand the line to the persona command.
    PersonaCommand,
    ShowTools,
    ListTemplates,
    ClearSession,
    /// Print this text on stdout.
    Say(String),
    /// Print this text on stderr.
    Complain(String),
    /// Send a message to the agent, with these metadata entries.
    Send { content: String, metadata: Vec<(String, String)> },
}

pub open spec fn not_interactive_text() -> Seq<char> {
    "Trusted session override is only available in interactive CLI mode."@
}

/// The trust flag after a line of the given kind.
pub open spec fn next_trusted(k: ReplKind, interactive: bool, trusted: bool) -> bool {
    match k {
        ReplKind::TrustOn => if interactive { true } else { trusted },
        ReplKind::TrustOff => false,
        _ => trusted,
    }
}

/// What `/trust`, `/trust on` and `/trust off` print.
pub open spec fn trust_text(k: ReplKind, interactive: bool, trusted: bool) -> Seq<char> {
    match k {
        ReplKind::Trust => if interactive {
            if trusted {
                "Trusted local session is ON."@
            } else {
                "Trusted local session is OFF.\nUse /trust on to bypass approval prompts for this local interactive CLI session."@
            }
        } else {
            not_interactive_text()
        },
        ReplKind::TrustOn => if interactive {
            "Trusted local session enabled for this interactive CLI session."@
        } else {
            not_interactive_text()
        },
        _ => "Trusted local session disabled."@,
    }
}

/// The view of a model override.
pub open spec fn override_view(o: Option<(Option<String>, String)>) -> Option<(Option<Seq<char>>, Seq<char>)> {
    match o {
        Some((p, m)) => Some((match p { Some(x) => Some(x@), None => None }, m@)),
        None => None,
    }
}

/// The metadata attached to a message sent from the interactive loop.
pub open spec fn message_metadata_spec(
    interactive: bool,
    trusted: bool,
    model: Option<(Option<Seq<char>>, Seq<char>)>,
    persona: Option<Seq<char>>,
) -> Seq<(Seq<char>, Seq<char>)> {
    let terminal: Seq<(Seq<char>, Seq<char>)> = if interactive {
        seq![("interactive_cli"@, "true"@)] + if trusted {
            seq![("trusted_local_session"@, "true"@)]
        } else {
            Seq::empty()
        }
    } else {
        Seq::empty()
    };
    let chosen: Seq<(Seq<char>, Seq<char>)> = match model {
        Some((p, m)) => seq![("model_override"@, m)] + match p {
            Some(x) => seq![("provider_override"@, x)],
            None => Seq::empty(),
        },
        None => Seq::empty(),
    };
    let persona_part: Seq<(Seq<char>, Seq<char>)> = match persona {
        Some(x) => seq![("persona_override"@, x)],
        None => Seq::empty(),
    };
    terminal + chosen + persona_part
}

fn pair(k: &str, v: &str) -> (r: (String, String))
    ensures
        r.0@ == k@,
        r.1@ == v@,
{
    (String::from_str(k), String::from_str(v))
}

/// The metadata for a message sent in the given state.
pub fn message_metadata(state: &ReplState) -> (r: Vec<(String, String)>)
    ensures
        pair_texts(r@) == message_metadata_spec(
            state.interactive,
            state.trusted,
            override_view(state.model_override),
            match state.persona_override { Some(x) => Some(x@), None => None },
        ),
{
    let mut r: Vec<(String, String)> = Vec::new();
    let ghost mut spec: Seq<(Seq<char>, Seq<char>)> = Seq::empty();
    if state.interactive {
        r.push(pair("interactive_cli", "true"));
        proof { spec = spec.push(("interactive_cli"@, "true"@)); }
        if state.trusted {
            r.push(pair("trusted_local_session", "true"));
            proof { spec = spec.push(("trusted_local_session"@, "true"@)); }
        }
    }
    assert(pair_texts(r@) =~= spec);
    match &state.model_override {
        Some((p, m)) => {
            r.push(pair("model_override", m.as_str()));
            proof { spec = spec.push(("model_override"@, m@)); }
            match p {
                Some(x) => {
                    r.push(pair("provider_override", x.as_str()));
                    proof { spec = spec.push(("provider_override"@, x@)); }
                },
                None => {},
            }
        },
        None => {},
    }
    assert(pair_texts(r@) =~= spec);
    match &state.persona_override {
        Some(x) => {
            r.push(pair("persona_override", x.as_str()));
            proof { spec = spec.push(("persona_override"@, x@)); }
        },
        None => {},
    }
    assert(pair_texts(r@) =~= spec);
    assert(spec =~= message_metadata_spec(
        state.interactive,
        state.trusted,
        override_view(state.model_override),
        match state.persona_override { Some(x) => Some(x@), None => None },
    ));
    r
}

/// The text printed for an unknown slash command.
pub open spec fn unknown_command_text(cmd: Seq<char>) -> Seq<char> {
    "Unknown command: /"@ + cmd + "\nType /help to see available commands."@
}

/// What the action for a line is, given the state before it.
pub open spec fn repl_action_ok(
    a: ReplAction,
    line: Seq<char>,
    interactive: bool,
    trusted: bool,
    model: Option<(Option<Seq<char>>, Seq<char>)>,
    persona: Option<Seq<char>>,
) -> bool {
    let k = repl_kind(line);
    match k {
        ReplKind::Blank => a is Skip,
        ReplKind::Quit => a is Exit,
        ReplKind::Help => a is ShowHelp,
        ReplKind::Model => a is ModelCommand,
        ReplKind::Persona => a is PersonaCommand,
        ReplKind::Tools => a is ShowTools,
        ReplKind::TemplateList => a is ListTemplates,
        ReplKind::TemplateUsage => a matches ReplAction::Say(s) && s@ == "Usage: /template list"@,
        ReplKind::History => a matches ReplAction::Say(s) && s@
            == "Use 'zeptoclaw history list' for full history.\nThis session's messages are tracked automatically."@,
        ReplKind::Memory => a matches ReplAction::Say(s) && s@
            == "Use 'zeptoclaw memory list' or 'zeptoclaw memory search <query>'."@,
        ReplKind::Clear => a is ClearSession,
        ReplKind::Trust | ReplKind::TrustOn | ReplKind::TrustOff => a matches ReplAction::Say(s)
            && s@ == trust_text(k, interactive, trusted),
        ReplKind::Unknown => a matches ReplAction::Complain(s) && s@ == unknown_command_text(
            trim(line).drop_first(),
        ),
        ReplKind::Message => a matches ReplAction::Send { content, metadata } && content@ == trim(line)
            && pair_texts(metadata@) == message_metadata_spec(interactive, trusted, model, persona),
    }
}

/// Decides what a typed line does, and updates the loop's state.
pub fn repl_step(state: &mut ReplState, line: &str) -> (a: ReplAction)
    ensures
        final(state).interactive == old(state).interactive,
        final(state).model_override == old(state).model_override,
        final(state).persona_override == old(state).persona_override,
        final(state).trusted == next_trusted(repl_kind(line@), old(state).interactive, old(state).trusted),
        repl_action_ok(
            a,
            line@,
            old(state).interactive,
            old(state).trusted,
            override_view(old(state).model_override),
            match old(state).persona_override { Some(x) => Some(x@), None => None },
        ),
{
    let (k, t, cmd) = classify_repl_input(line);
    match k {
        ReplKind::Blank => ReplAction::Skip,
        ReplKind::Quit => ReplAction::Exit,
        ReplKind::Help => ReplAction::ShowHelp,
        ReplKind::Model => ReplAction::ModelCommand,
        ReplKind::Persona => ReplAction::PersonaCommand,
        ReplKind::Tools => ReplAction::ShowTools,
        ReplKind::TemplateList => ReplAction::ListTemplates,
        ReplKind::TemplateUsage => ReplAction::Say(String::from_str("Usage: /template list")),
        ReplKind::History => ReplAction::Say(
            String::from_str(
                "Use 'zeptoclaw history list' for full history.\nThis session's messages are tracked automatically.",
            ),
        ),
        ReplKind::Memory => ReplAction::Say(
            String::from_str("Use 'zeptoclaw memory list' or 'zeptoclaw memory search <query>'."),
        ),
        ReplKind::Clear => ReplAction::ClearSession,
        ReplKind::Trust => {
            if state.interactive {
                if state.trusted {
                    ReplAction::Say(String::from_str("Trusted local session is ON."))
                } else {
                    ReplAction::Say(
                        String::from_str(
                            "Trusted local session is OFF.\nUse /trust on to bypass approval prompts for this local interactive CLI session.",
                        ),
                    )
                }
            } else {
                ReplAction::Say(
                    String::from_str("Trusted session override is only available in interactive CLI mode."),
                )
            }
        },
        ReplKind::TrustOn => {
            if state.interactive {
                state.trusted = true;
                ReplAction::Say(
                    String::from_str("Trusted local session enabled for this interactive CLI session."),
                )
            } else {
                ReplAction::Say(
                    String::from_str("Trusted session override is only available in interactive CLI mode."),
                )
            }
        },
        ReplKind::TrustOff => {
            state.trusted = false;
            ReplAction::Say(String::from_str("Trusted local session disabled."))
        },
        ReplKind::Unknown => {
            let mut s = String::from_str("Unknown command: /");
            s.append(cmd.as_str());
            s.append("\nType /help to see available commands.");
            ReplAction::Complain(s)
        },
        ReplKind::Message => {
            let metadata = message_metadata(state);
            ReplAction::Send { content: t, metadata }
        },
    }
}

// ---------------------------------------------------------------------------
// `/model` and `/persona`
// ---------------------------------------------------------------------------

/// The argument of a `/<word>` command: the trimmed text after the word.
pub open spec fn command_arg(line: Seq<char>, word_len: nat) -> Seq<char> {
    let t = trim(line);
    trim(
        if t.len() > word_len + 1 {
            t.skip((word_len + 1) as int)
        } else {
            Seq::empty()
        },
    )
}

fn command_arg_exec(line: &str, word_len: usize) -> (r: String)
    requires
        word_len < usize::MAX,
    ensures
        r@ == command_arg(line@, word_len as nat),
{
    let t = trimmed(line);
    let v = chars_of(t.as_str());
    let n = v.len();
    if n > word_len + 1 {
        let rest = string_of_range(&v, word_len + 1, n);
        assert(v@.subrange(word_len + 1, n as int) =~= t@.skip(word_len + 1));
        trimmed(rest.as_str())
    } else {
        let e = String::new();
        assert(e@ =~= Seq::<char>::empty());
        trimmed(e.as_str())
    }
}

/// What a `/model` argument asks: show the model, list the models, switch
/// to `provider:model` or `model`, or go back to the default; `None` for an
/// argument with an empty provider or model around its `:`.
pub open spec fn model_choice(arg: Seq<char>) -> Option<ModelChoice> {
    if arg.len() == 0 {
        Some(ModelChoice::Show)
    } else if arg == "list"@ {
        Some(ModelChoice::List)
    } else if arg == "reset"@ {
        Some(ModelChoice::Reset)
    } else if occurs(arg, ':') {
        let k = first_index(arg, ':');
        if k == 0 || k + 1 == arg.len() {
            None
        } else {
            Some(ModelChoice::Switch(Some(arg.take(k)), arg.skip(k + 1)))
        }
    } else {
        Some(ModelChoice::Switch(None, arg))
    }
}

/// A `/model` request, as plain values.
pub enum ModelChoice {
    Show,
    List,
    Switch(Option<Seq<char>>, Seq<char>),
    Reset,
}

/// What a switch command does next: print a text, or list the models or
/// personas the runtime offers.
pub enum SwitchOutcome {
    Say(String),
    ListModels,
    ListPersonas,
}

/// The override after a `/model` request, and the text it prints (`None`
/// when it lists the models).
pub open spec fn model_step_spec(
    o: Option<(Option<Seq<char>>, Seq<char>)>,
    arg: Seq<char>,
    default_model: Seq<char>,
) -> (Option<(Option<Seq<char>>, Seq<char>)>, Option<Seq<char>>) {
    match model_choice(arg) {
        None => (o, Some("Current model: "@ + default_model)),
        Some(ModelChoice::Show) => (
            o,
            Some(
                match o {
                    Some((p, m)) => "Current model: "@ + match p {
                        Some(x) => x,
                        None => "auto"@,
                    } + ":"@ + m + " (override)"@,
                    None => "Current model: "@ + default_model + " (default)"@,
                },
            ),
        ),
        Some(ModelChoice::List) => (o, None),
        Some(ModelChoice::Switch(p, m)) => (
            Some((p, m)),
            Some(
                match p {
                    Some(x) => "Switched to "@ + x + ":"@ + m,
                    None => "Switched to "@ + m,
                },
            ),
        ),
        Some(ModelChoice::Reset) => (None, Some("Model reset to default: "@ + default_model)),
    }
}

/// Handles a `/model` line: shows, lists, sets or resets the model override
/// (sent with later messages as metadata).
pub fn model_step(state: &mut ReplState, line: &str, default_model: &str) -> (r: SwitchOutcome)
    ensures
        final(state).interactive == old(state).interactive,
        final(state).trusted == old(state).trusted,
        final(state).persona_override == old(state).persona_override,
        ({
            let (o, text) = model_step_spec(override_view(old(state).model_override), command_arg(line@, 5), default_model@);
            &&& override_view(final(state).model_override) == o
            &&& match text {
                Some(t) => r matches SwitchOutcome::Say(s) && s@ == t,
                None => r is ListModels,
            }
        }),
{
    let arg = command_arg_exec(line, 5);
    let v = chars_of(arg.as_str());
    let n = v.len();
    if n == 0 {
        let mut s = String::from_str("Current model: ");
        match &state.model_override {
            Some((p, m)) => {
                match p {
                    Some(x) => s.append(x.as_str()),
                    None => s.append("auto"),
                }
                s.append(":");
                s.append(m.as_str());
                s.append(" (override)");
            },
            None => {
                s.append(default_model);
                s.append(" (default)");
            },
        }
        return SwitchOutcome::Say(s);
    }
    if str_eq(arg.as_str(), "list") {
        return SwitchOutcome::ListModels;
    }
    if str_eq(arg.as_str(), "reset") {
        state.model_override = None;
        let mut s = String::from_str("Model reset to default: ");
        s.append(default_model);
        return SwitchOutcome::Say(s);
    }
    let (provider, model) = match crate::text::find_char(&v, 0, n, ':') {
        Some(k) => {
            proof {
                crate::whatsapp::lemma_first_index(arg@, ':', k as int);
            }
            if k == 0 || k + 1 == n {
                let mut s = String::from_str("Current model: ");
                s.append(default_model);
                return SwitchOutcome::Say(s);
            }
            assert(v@.subrange(0, k as int) =~= arg@.take(k as int));
            assert(v@.subrange(k + 1, n as int) =~= arg@.skip(k + 1));
            (Some(string_of_range(&v, 0, k)), string_of_range(&v, k + 1, n))
        },
        None => {
            assert(!occurs(arg@, ':'));
            (None, arg.clone())
        },
    };
    let mut s = String::from_str("Switched to ");
    match &provider {
        Some(x) => {
            s.append(x.as_str());
            s.append(":");
        },
        None => {},
    }
    s.append(model.as_str());
    state.model_override = Some((provider, model));
    SwitchOutcome::Say(s)
}

/// The persona override after a `/persona` line, and the text it prints
/// (`None` when it lists the personas): no argument shows it, `list` lists,
/// `reset` clears it, any other argument sets it.
pub open spec fn persona_step_spec(o: Option<Seq<char>>, arg: Seq<char>) -> (Option<Seq<char>>, Option<Seq<char>>) {
    if arg.len() == 0 {
        (
            o,
            Some(
                match o {
                    Some(p) => "Current persona: "@ + p + " (override)"@,
                    None => "Current persona: default"@,
                },
            ),
        )
    } else if arg == "list"@ {
        (o, None)
    } else if arg == "reset"@ {
        (None, Some("Persona reset to default."@))
    } else {
        (Some(arg), Some("Persona set to: "@ + arg))
    }
}

/// Handles a `/persona` line: shows, lists, sets or resets the persona
/// override (sent with later messages as metadata).
pub fn persona_step(state: &mut ReplState, line: &str) -> (r: SwitchOutcome)
    ensures
        final(state).interactive == old(state).interactive,
        final(state).trusted == old(state).trusted,
        final(state).model_override == old(state).model_override,
        ({
            let (o, text) = persona_step_spec(
                match old(state).persona_override {
                    Some(x) => Some(x@),
                    None => None,
                },
                command_arg(line@, 7),
            );
            &&& match final(state).persona_override {
                Some(x) => Some(x@),
                None => None,
            } == o
            &&& match text {
                Some(t) => r matches SwitchOutcome::Say(s) && s@ == t,
                None => r is ListPersonas,
            }
        }),
{
    let arg = command_arg_exec(line, 7);
    if arg.as_str().unicode_len() == 0 {
        let s = match &state.persona_override {
            Some(p) => {
                let mut s = String::from_str("Current persona: ");
                s.append(p.as_str());
                s.append(" (override)");
                s
            },
            None => String::from_str("Current persona: default"),
        };
        return SwitchOutcome::Say(s);
    }
    if str_eq(arg.as_str(), "list") {
        return SwitchOutcome::ListPersonas;
    }
    if str_eq(arg.as_str(), "reset") {
        state.persona_override = None;
        return SwitchOutcome::Say(String::from_str("Persona reset to default."));
    }
    let mut s = String::from_str("Persona set to: ");
    s.append(arg.as_str());
    state.persona_override = Some(arg);
    SwitchOutcome::Say(s)
}

/// Approval prompts are bypassed only in an interactive session: a state
/// whose trust flag implies an interactive terminal keeps that after any
/// line, and `/trust off` always ends the bypass.
pub proof fn lemma_trust_needs_interactive(k: ReplKind, interactive: bool, trusted: bool)
    ensures
        (trusted ==> interactive) ==> (next_trusted(k, interactive, trusted) ==> interactive),
        k == ReplKind::TrustOff ==> !next_trusted(k, interactive, trusted),
        !interactive && !trusted ==> !next_trusted(k, interactive, trusted),
{
}

/// A message from a session that was never trusted, or from a
/// non-interactive one, never carries the trusted-session flag.
pub proof fn lemma_metadata_trust_flag(
    interactive: bool,
    trusted: bool,
    model: Option<(Option<Seq<char>>, Seq<char>)>,
    persona: Option<Seq<char>>,
)
    ensures
        (!interactive || !trusted) ==> !message_metadata_spec(interactive, trusted, model, persona).contains(
            ("trusted_local_session"@, "true"@),
        ),
        interactive && trusted ==> message_metadata_spec(interactive, trusted, model, persona).contains(
            ("trusted_local_session"@, "true"@),
        ),
{
    let m = message_metadata_spec(interactive, trusted, model, persona);
    reveal_strlit("trusted_local_session");
    reveal_strlit("interactive_cli");
    reveal_strlit("model_override");
    reveal_strlit("provider_override");
    reveal_strlit("persona_override");
    if interactive && trusted {
        assert(m[1] == ("trusted_local_session"@, "true"@));
    } else {
        assert forall|i: int| 0 <= i < m.len() implies m[i].0.len() != "trusted_local_session"@.len() by {}
    }
}

} // verus!
