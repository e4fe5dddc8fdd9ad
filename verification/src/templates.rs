//! Agent templates: named agent configurations (a system prompt, optional
//! model and generation overrides, tool policies), the built-in ones, and
//! the registry that holds templates by name, where a registration replaces
//! any earlier template of the same name.

use vstd::prelude::*;
use crate::text::texts;
use crate::text::opt_text;
use crate::text::opt_texts;
use crate::text::str_eq;
use crate::text::text_le;
use crate::text::text_le_exec;
use crate::text::lemma_text_le_total;
use crate::text::lemma_text_le_reflexive;
use crate::text::lemma_text_le_transitive;
use crate::text::lemma_text_le_antisymmetric;

verus! {

/// A predefined agent configuration that can be referenced by name.
#[derive(Clone, Debug)]
pub struct AgentTemplate {
    /// Unique template name (e.g. "coder", "researcher", "writer").
    pub name: String,
    /// Human-readable description of the template's purpose.
    pub description: String,
    /// The system prompt injected for this agent role.
    pub system_prompt: String,
    /// Optional model override; `None` uses the configured default.
    pub model: Option<String>,
    /// Optional max tokens override for responses.
    pub max_tokens: Option<u32>,
    /// Optional temperature override, held as the bit pattern of its `f32`
    /// (`f32::to_bits`): the library only carries it.
    pub temperature_bits: Option<u32>,
    /// Whitelist of tool names; `None` means all tools.
    pub allowed_tools: Option<Vec<String>>,
    /// Blacklist of tool names, applied after the whitelist.
    pub blocked_tools: Option<Vec<String>>,
    /// Optional max tool iterations override per turn.
    pub max_tool_iterations: Option<u32>,
    /// Tags for categorization and filtering.
    pub tags: Vec<String>,
    /// Shell command allowlist; `None` keeps the default shell policy, an
    /// empty list denies every command.
    pub shell_allowlist: Option<Vec<String>>,
    /// Token budget for a run; `None` inherits the configured one.
    pub max_token_budget: Option<u64>,
    /// Hard cap on tool calls across a run.
    pub max_tool_calls: Option<u32>,
}

/// A template as plain values.
pub struct AgentTemplateView {
    pub name: Seq<char>,
    pub description: Seq<char>,
    pub system_prompt: Seq<char>,
    pub model: Option<Seq<char>>,
    pub max_tokens: Option<u32>,
    pub temperature_bits: Option<u32>,
    pub allowed_tools: Option<Seq<Seq<char>>>,
    pub blocked_tools: Option<Seq<Seq<char>>>,
    pub max_tool_iterations: Option<u32>,
    pub tags: Seq<Seq<char>>,
    pub shell_allowlist: Option<Seq<Seq<char>>>,
    pub max_token_budget: Option<u64>,
    pub max_tool_calls: Option<u32>,
}

impl AgentTemplate {
    pub open spec fn view(&self) -> AgentTemplateView {
        AgentTemplateView {
            name: self.name@,
            description: self.description@,
            system_prompt: self.system_prompt@,
            model: opt_text(self.model),
            max_tokens: self.max_tokens,
            temperature_bits: self.temperature_bits,
            allowed_tools: opt_texts(self.allowed_tools),
            blocked_tools: opt_texts(self.blocked_tools),
            max_tool_iterations: self.max_tool_iterations,
            tags: texts(self.tags@),
            shell_allowlist: opt_texts(self.shell_allowlist),
            max_token_budget: self.max_token_budget,
            max_tool_calls: self.max_tool_calls,
        }
    }
}

// ---------------------------------------------------------------------------
// Built-in templates
// ---------------------------------------------------------------------------

/// A template with the given name, description, prompt, tool whitelist and
/// tags, and no other override.
pub open spec fn plain_template(
    name: Seq<char>,
    description: Seq<char>,
    system_prompt: Seq<char>,
    allowed_tools: Option<Seq<Seq<char>>>,
    tags: Seq<Seq<char>>,
) -> AgentTemplateView {
    AgentTemplateView {
        name,
        description,
        system_prompt,
        model: None,
        max_tokens: None,
        temperature_bits: None,
        allowed_tools,
        blocked_tools: None,
        max_tool_iterations: None,
        tags,
        shell_allowlist: None,
        max_token_budget: None,
        max_tool_calls: None,
    }
}

/// The built-in "coder" template: an expert software engineer with every
/// tool.
pub open spec fn coder_view() -> AgentTemplateView {
    plain_template(
        "coder"@,
        "Expert software engineer that writes clean, well-tested code"@,
        "You are an expert software engineer. You write clean, idiomatic, well-structured code following best practices for the language and framework in use. You explain your reasoning, consider edge cases, handle errors properly, and write tests when appropriate. You prefer simple, readable solutions over clever ones. You have access to grep (regex search across files) and find (glob file discovery) tools for navigating and understanding codebases."@,
        None,
        seq!["development"@, "coding"@],
    )
}

/// The built-in "researcher" template: information-gathering tools only.
pub open spec fn researcher_view() -> AgentTemplateView {
    plain_template(
        "researcher"@,
        "Research assistant that finds, analyzes, and summarizes information"@,
        "You are a thorough research assistant. You find relevant information, analyze it critically, summarize your findings clearly, and cite your sources. You distinguish between facts and opinions, flag uncertainties, and present multiple perspectives when they exist."@,
        Some(seq!["web_search"@, "web_fetch"@, "memory_search"@, "memory_get"@, "longterm_memory"@]),
        seq!["research"@, "information"@],
    )
}

/// The built-in "writer" template: file and memory tools only.
pub open spec fn writer_view() -> AgentTemplateView {
    plain_template(
        "writer"@,
        "Professional writer that produces clear, concise, well-structured content"@,
        "You are a professional writer. You produce clear, concise, and well-structured content. You adapt your tone and style to the context and audience. You pay attention to grammar, flow, and readability. You organize ideas logically and use examples to illustrate points."@,
        Some(seq!["read_file"@, "write_file"@, "edit_file"@, "memory_search"@, "memory_get"@]),
        seq!["writing"@, "content"@],
    )
}

/// The built-in "assistant" template: a general assistant with every tool.
pub open spec fn assistant_view() -> AgentTemplateView {
    plain_template(
        "assistant"@,
        "Helpful general assistant for everyday tasks and questions"@,
        "You are a helpful general assistant. You answer questions accurately, perform tasks efficiently, and communicate clearly. You ask for clarification when a request is ambiguous and provide concise but complete responses."@,
        None,
        seq!["general"@],
    )
}

/// The built-in "task-manager" template: reminders, long-term memory,
/// messages and cron.
pub open spec fn task_manager_view() -> AgentTemplateView {
    plain_template(
        "task-manager"@,
        "AI project manager that captures tasks, sets reminders, and tracks progress"@,
        "You are an AI task and project manager. You help the user capture tasks from natural conversation, set reminders for deadlines, track completion, and provide daily summaries.\n\nWhen the user mentions something to do, proactively offer to add it as a reminder. When asked about their list, show pending reminders grouped by category. When a task is completed, mark it done and congratulate briefly.\n\nUse long-term memory to remember user preferences (preferred categories, working hours, recurring patterns). Use the reminder tool for all task tracking. Use the message tool to send proactive updates.\n\nKeep responses concise and action-oriented. Use bullet points for lists. Always confirm actions taken (e.g., 'Added reminder: Call dentist at 2pm')."@,
        Some(seq!["reminder"@, "longterm_memory"@, "message"@, "cron"@]),
        seq!["productivity"@, "tasks"@, "personal-assistant"@],
    )
}

fn text_list(items: Vec<&str>) -> (r: Vec<String>)
    ensures
        texts(r@) == items@.map_values(|s: &str| s@),
{
    let mut r: Vec<String> = Vec::new();
    let mut i: usize = 0;
    while i < items.len()
        invariant
            i <= items@.len(),
            texts(r@) == items@.take(i as int).map_values(|s: &str| s@),
        decreases items@.len() - i,
    {
        let ghost before = r@;
        r.push(String::from_str(items[i]));
        assert(texts(r@) =~= texts(before).push(items@[i as int]@));
        assert(items@.take(i + 1).map_values(|s: &str| s@) =~= items@.take(i as int).map_values(
            |s: &str| s@,
        ).push(items@[i as int]@));
        i += 1;
    }
    assert(items@.take(i as int) =~= items@);
    r
}

fn plain(
    name: &str,
    description: &str,
    system_prompt: &str,
    allowed_tools: Option<Vec<&str>>,
    tags: Vec<&str>,
) -> (t: AgentTemplate)
    ensures
        t@ == plain_template(
            name@,
            description@,
            system_prompt@,
            match allowed_tools {
                Some(v) => Some(v@.map_values(|s: &str| s@)),
                None => None,
            },
            tags@.map_values(|s: &str| s@),
        ),
{
    let allowed = match allowed_tools {
        Some(v) => Some(text_list(v)),
        None => None,
    };
    AgentTemplate {
        name: String::from_str(name),
        description: String::from_str(description),
        system_prompt: String::from_str(system_prompt),
        model: None,
        max_tokens: None,
        temperature_bits: None,
        allowed_tools: allowed,
        blocked_tools: None,
        max_tool_iterations: None,
        tags: text_list(tags),
        shell_allowlist: None,
        max_token_budget: None,
        max_tool_calls: None,
    }
}

fn builtin_coder() -> (t: AgentTemplate)
    ensures
        t@ == coder_view(),
{
    let t = plain(
        "coder",
        "Expert software engineer that writes clean, well-tested code",
        "You are an expert software engineer. You write clean, idiomatic, well-structured code following best practices for the language and framework in use. You explain your reasoning, consider edge cases, handle errors properly, and write tests when appropriate. You prefer simple, readable solutions over clever ones. You have access to grep (regex search across files) and find (glob file discovery) tools for navigating and understanding codebases.",
        None,
        vec!["development", "coding"],
    );
    assert(seq!["development", "coding"].map_values(|s: &str| s@) =~= seq!["development"@, "coding"@]);
    t
}

fn builtin_researcher() -> (t: AgentTemplate)
    ensures
        t@ == researcher_view(),
{
    let t = plain(
        "researcher",
        "Research assistant that finds, analyzes, and summarizes information",
        "You are a thorough research assistant. You find relevant information, analyze it critically, summarize your findings clearly, and cite your sources. You distinguish between facts and opinions, flag uncertainties, and present multiple perspectives when they exist.",
        Some(vec!["web_search", "web_fetch", "memory_search", "memory_get", "longterm_memory"]),
        vec!["research", "information"],
    );
    assert(seq!["web_search", "web_fetch", "memory_search", "memory_get", "longterm_memory"].map_values(
        |s: &str| s@,
    ) =~= seq!["web_search"@, "web_fetch"@, "memory_search"@, "memory_get"@, "longterm_memory"@]);
    assert(seq!["research", "information"].map_values(|s: &str| s@) =~= seq!["research"@, "information"@]);
    t
}

fn builtin_writer() -> (t: AgentTemplate)
    ensures
        t@ == writer_view(),
{
    let t = plain(
        "writer",
        "Professional writer that produces clear, concise, well-structured content",
        "You are a professional writer. You produce clear, concise, and well-structured content. You adapt your tone and style to the context and audience. You pay attention to grammar, flow, and readability. You organize ideas logically and use examples to illustrate points.",
        Some(vec!["read_file", "write_file", "edit_file", "memory_search", "memory_get"]),
        vec!["writing", "content"],
    );
    assert(seq!["read_file", "write_file", "edit_file", "memory_search", "memory_get"].map_values(
        |s: &str| s@,
    ) =~= seq!["read_file"@, "write_file"@, "edit_file"@, "memory_search"@, "memory_get"@]);
    assert(seq!["writing", "content"].map_values(|s: &str| s@) =~= seq!["writing"@, "content"@]);
    t
}

fn builtin_assistant() -> (t: AgentTemplate)
    ensures
        t@ == assistant_view(),
{
    let mut tags: Vec<&str> = Vec::new();
    tags.push("general");
    assert(tags@ =~= seq!["general"]);
    let t = plain(
        "assistant",
        "Helpful general assistant for everyday tasks and questions",
        "You are a helpful general assistant. You answer questions accurately, perform tasks efficiently, and communicate clearly. You ask for clarification when a request is ambiguous and provide concise but complete responses.",
        None,
        tags,
    );
    assert(seq!["general"].map_values(|s: &str| s@) =~= seq!["general"@]);
    t
}

fn builtin_task_manager() -> (t: AgentTemplate)
    ensures
        t@ == task_manager_view(),
{
    let t = plain(
        "task-manager",
        "AI project manager that captures tasks, sets reminders, and tracks progress",
        "You are an AI task and project manager. You help the user capture tasks from natural conversation, set reminders for deadlines, track completion, and provide daily summaries.\n\nWhen the user mentions something to do, proactively offer to add it as a reminder. When asked about their list, show pending reminders grouped by category. When a task is completed, mark it done and congratulate briefly.\n\nUse long-term memory to remember user preferences (preferred categories, working hours, recurring patterns). Use the reminder tool for all task tracking. Use the message tool to send proactive updates.\n\nKeep responses concise and action-oriented. Use bullet points for lists. Always confirm actions taken (e.g., 'Added reminder: Call dentist at 2pm').",
        Some(vec!["reminder", "longterm_memory", "message", "cron"]),
        vec!["productivity", "tasks", "personal-assistant"],
    );
    assert(seq!["reminder", "longterm_memory", "message", "cron"].map_values(|s: &str| s@) =~= seq![
        "reminder"@,
        "longterm_memory"@,
        "message"@,
        "cron"@,
    ]);
    assert(seq!["productivity", "tasks", "personal-assistant"].map_values(|s: &str| s@) =~= seq![
        "productivity"@,
        "tasks"@,
        "personal-assistant"@,
    ]);
    t
}

// ---------------------------------------------------------------------------
// The registry
// ---------------------------------------------------------------------------

/// The views of a list of templates.
pub open spec fn template_views(s: Seq<AgentTemplate>) -> Seq<AgentTemplateView> {
    s.map_values(|t: AgentTemplate| t@)
}

/// The names of a list of template views.
pub open spec fn names_of(s: Seq<AgentTemplateView>) -> Seq<Seq<char>> {
    s.map_values(|t: AgentTemplateView| t.name)
}

/// The templates of a list by name, a later one replacing an earlier one of
/// the same name.
pub open spec fn by_name(s: Seq<AgentTemplateView>) -> Map<Seq<char>, AgentTemplateView>
    decreases s.len(),
{
    if s.len() == 0 {
        Map::empty()
    } else {
        by_name(s.drop_last()).insert(s.last().name, s.last())
    }
}

/// A name has a template exactly when it is the name of an element, and
/// finitely many names do.
proof fn lemma_by_name_dom(s: Seq<AgentTemplateView>)
    ensures
        by_name(s).dom().finite(),
        forall|n: Seq<char>| by_name(s).contains_key(n) <==> names_of(s).contains(n),
    decreases s.len(),
{
    if s.len() > 0 {
        let q = s.drop_last();
        lemma_by_name_dom(q);
        assert(names_of(s) =~= names_of(q).push(s.last().name));
        assert forall|n: Seq<char>| by_name(s).contains_key(n) <==> names_of(s).contains(n) by {
            assert(names_of(s)[s.len() - 1] == s.last().name);
            if n == s.last().name {
                assert(by_name(s).contains_key(n));
                assert(names_of(s).contains(n));
            }
            if names_of(q).contains(n) {
                let i = choose|i: int| 0 <= i < names_of(q).len() && names_of(q)[i] == n;
                assert(names_of(s)[i] == n);
            }
            if names_of(s).contains(n) {
                let i = choose|i: int| 0 <= i < names_of(s).len() && names_of(s)[i] == n;
                if i < q.len() {
                    assert(names_of(q)[i] == n);
                }
            }
        }
    }
}

/// With distinct names, each element is the template of its name.
proof fn lemma_by_name_at(s: Seq<AgentTemplateView>, i: int)
    requires
        names_of(s).no_duplicates(),
        0 <= i < s.len(),
    ensures
        by_name(s).contains_key(s[i].name),
        by_name(s)[s[i].name] == s[i],
    decreases s.len(),
{
    if i < s.len() - 1 {
        let q = s.drop_last();
        assert(names_of(q) =~= names_of(s).drop_last());
        assert(names_of(s)[i] != names_of(s)[s.len() - 1]);
        lemma_by_name_at(q, i);
    }
}

/// With distinct names, replacing an element by a template of the same name
/// registers that template.
proof fn lemma_by_name_update(s: Seq<AgentTemplateView>, i: int, t: AgentTemplateView)
    requires
        names_of(s).no_duplicates(),
        0 <= i < s.len(),
        t.name == s[i].name,
    ensures
        by_name(s.update(i, t)) == by_name(s).insert(t.name, t),
    decreases s.len(),
{
    let q = s.drop_last();
    let u = s.update(i, t);
    if i == s.len() - 1 {
        assert(u.drop_last() =~= q);
        assert(by_name(u) =~= by_name(s).insert(t.name, t));
    } else {
        assert(names_of(q) =~= names_of(s).drop_last());
        assert(names_of(s)[i] != names_of(s)[s.len() - 1]);
        lemma_by_name_update(q, i, t);
        assert(u.drop_last() =~= q.update(i, t));
        assert(u.last() == s.last());
        assert(by_name(u) =~= by_name(s).insert(t.name, t));
    }
}

/// With distinct names, there are as many names as elements.
proof fn lemma_by_name_len(s: Seq<AgentTemplateView>)
    requires
        names_of(s).no_duplicates(),
    ensures
        by_name(s).dom().len() == s.len(),
    decreases s.len(),
{
    if s.len() > 0 {
        let q = s.drop_last();
        assert(names_of(q) =~= names_of(s).drop_last());
        lemma_by_name_len(q);
        lemma_by_name_dom(q);
        if names_of(q).contains(s.last().name) {
            let k = choose|k: int| 0 <= k < names_of(q).len() && names_of(q)[k] == s.last().name;
            assert(names_of(s)[k] == names_of(s)[s.len() - 1]);
        }
        assert(by_name(s).dom() =~= by_name(q).dom().insert(s.last().name));
    }
}

/// The templates of the built-in registry, by name.
pub open spec fn builtin_map() -> Map<Seq<char>, AgentTemplateView> {
    Map::empty().insert(coder_view().name, coder_view()).insert(researcher_view().name, researcher_view()).insert(
        writer_view().name,
        writer_view(),
    ).insert(assistant_view().name, assistant_view()).insert(task_manager_view().name, task_manager_view())
}

/// Registry of agent templates, keyed by name.
///
/// The templates are held as a list with distinct names, viewed as a map by
/// name, so that what a lookup finds after an insert or a removal is
/// proved. vstd specifies `std::collections::HashMap` only for keys that
/// obey its key model (`obeys_key_model`), which it grants to the
/// primitive integer types and not to `String`; with `String` names a
/// `HashMap` would carry no provable contract.
pub struct TemplateRegistry {
    templates: Vec<AgentTemplate>,
}

impl TemplateRegistry {
    /// The registered templates, in registration order.
    pub closed spec fn entries(&self) -> Seq<AgentTemplateView> {
        template_views(self.templates@)
    }

    /// The registered templates by name.
    pub open spec fn view(&self) -> Map<Seq<char>, AgentTemplateView> {
        by_name(self.entries())
    }

    /// No two registered templates share a name.
    pub closed spec fn wf(&self) -> bool {
        names_of(self.entries()).no_duplicates()
    }

    /// The registry holds finitely many templates.
    pub proof fn lemma_finite(&self)
        ensures
            self@.dom().finite(),
    {
        lemma_by_name_dom(self.entries());
    }

    /// The index of the template named `name`, if one is registered.
    fn find_index(&self, name: &str) -> (r: Option<usize>)
        requires
            self.wf(),
        ensures
            match r {
                Some(i) => i < self.templates@.len() && self.entries()[i as int].name == name@,
                None => !self@.contains_key(name@),
            },
    {
        let mut i: usize = 0;
        while i < self.templates.len()
            invariant
                i <= self.templates@.len(),
                forall|j: int| 0 <= j < i ==> self.templates@[j].name@ != name@,
            decreases self.templates@.len() - i,
        {
            if str_eq(self.templates[i].name.as_str(), name) {
                return Some(i);
            }
            i += 1;
        }
        proof {
            lemma_by_name_dom(self.entries());
            if names_of(self.entries()).contains(name@) {
                let k = choose|k: int| 0 <= k < names_of(self.entries()).len() && names_of(self.entries())[k] == name@;
                assert(self.templates@[k].name@ == name@);
            }
        }
        None
    }

    /// An empty registry.
    fn empty() -> (r: Self)
        ensures
            r.wf(),
            r@ == Map::<Seq<char>, AgentTemplateView>::empty(),
    {
        let r = TemplateRegistry { templates: Vec::new() };
        assert(r.entries() =~= Seq::<AgentTemplateView>::empty());
        assert(names_of(r.entries()) =~= Seq::<Seq<char>>::empty());
        r
    }

    /// A registry holding the built-in templates.
    pub fn new() -> (r: Self)
        ensures
            r.wf(),
            r@ == builtin_map(),
    {
        let mut r = Self::empty();
        r.register(builtin_coder());
        r.register(builtin_researcher());
        r.register(builtin_writer());
        r.register(builtin_assistant());
        r.register(builtin_task_manager());
        r
    }

    /// Registers a template, replacing any template of the same name.
    pub fn register(&mut self, template: AgentTemplate)
        requires
            old(self).wf(),
        ensures
            final(self).wf(),
            final(self)@ == old(self)@.insert(template@.name, template@),
    {
        let ghost t = template@;
        let ghost before = self.entries();
        match self.find_index(template.name.as_str()) {
            Some(i) => {
                self.templates.set(i, template);
                proof {
                    assert(self.entries() =~= before.update(i as int, t));
                    assert(names_of(self.entries()) =~= names_of(before));
                    lemma_by_name_update(before, i as int, t);
                }
            },
            None => {
                self.templates.push(template);
                proof {
                    assert(self.entries() =~= before.push(t));
                    assert(names_of(self.entries()) =~= names_of(before).push(t.name));
                    lemma_by_name_dom(before);
                    assert(!names_of(before).contains(t.name));
                    assert forall|a: int, b: int|
                        0 <= a < b < names_of(self.entries()).len() implies names_of(self.entries())[a]
                        != names_of(self.entries())[b] by {
                        if b == names_of(before).len() {
                            assert(names_of(before)[a] == names_of(self.entries())[a]);
                        }
                    }
                    assert(self.entries().drop_last() =~= before);
                }
            },
        }
    }

    /// The template registered under `name`, if any.
    pub fn get(&self, name: &str) -> (r: Option<&AgentTemplate>)
        requires
            self.wf(),
        ensures
            match r {
                Some(t) => self@.contains_key(name@) && t@ == self@[name@],
                None => !self@.contains_key(name@),
            },
    {
        match self.find_index(name) {
            Some(i) => {
                proof {
                    lemma_by_name_at(self.entries(), i as int);
                }
                Some(&self.templates[i])
            },
            None => None,
        }
    }

    /// References to the registered templates, in registration order.
    fn refs(&self) -> (r: Vec<&AgentTemplate>)
        ensures
            ref_views(r@) == self.entries(),
    {
        let mut r: Vec<&AgentTemplate> = Vec::new();
        let mut i: usize = 0;
        while i < self.templates.len()
            invariant
                i <= self.templates@.len(),
                ref_views(r@) == template_views(self.templates@.take(i as int)),
            decreases self.templates@.len() - i,
        {
            r.push(&self.templates[i]);
            assert(template_views(self.templates@.take(i + 1)) =~= template_views(self.templates@.take(i as int)).push(
                self.templates@[i as int]@,
            ));
            assert(ref_views(r@) =~= ref_views(r@.drop_last()).push(self.templates@[i as int]@));
            i += 1;
        }
        assert(self.templates@.take(i as int) =~= self.templates@);
        r
    }

    /// All registered templates, each once (in no promised order).
    pub fn list(&self) -> (r: Vec<&AgentTemplate>)
        requires
            self.wf(),
        ensures
            r@.len() == self@.dom().len(),
            forall|k: int| 0 <= k < r@.len() ==> self@.contains_key(#[trigger] r@[k]@.name) && self@[r@[k]@.name] == r@[k]@,
            forall|n: Seq<char>| #[trigger] self@.contains_key(n) ==> exists|k: int| 0 <= k < r@.len() && r@[k]@.name == n,
            forall|a: int, b: int| 0 <= a < b < r@.len() ==> r@[a]@.name != r@[b]@.name,
    {
        let r = self.refs();
        proof {
            let e = self.entries();
            lemma_by_name_len(e);
            lemma_by_name_dom(e);
            assert forall|k: int| 0 <= k < r@.len() implies self@.contains_key(#[trigger] r@[k]@.name)
                && self@[r@[k]@.name] == r@[k]@ by {
                assert(r@[k]@ == ref_views(r@)[k]);
                lemma_by_name_at(e, k);
            }
            assert(ref_views(r@).len() == r@.len());
            assert forall|n: Seq<char>| #[trigger] self@.contains_key(n) implies exists|k: int|
                0 <= k < r@.len() && r@[k]@.name == n by {
                assert(names_of(e).contains(n));
                let k = choose|k: int| 0 <= k < names_of(e).len() && names_of(e)[k] == n;
                assert(r@[k]@ == ref_views(r@)[k]);
                assert(r@[k]@.name == n);
            }
            assert forall|a: int, b: int| 0 <= a < b < r@.len() implies r@[a]@.name != r@[b]@.name by {
                assert(r@[a]@ == ref_views(r@)[a]);
                assert(r@[b]@ == ref_views(r@)[b]);
                assert(names_of(e)[a] != names_of(e)[b]);
            }
        }
        r
    }

    /// The registered templates carrying `tag`, each once (in no promised
    /// order).
    pub fn list_by_tag(&self, tag: &str) -> (r: Vec<&AgentTemplate>)
        requires
            self.wf(),
        ensures
            forall|k: int| 0 <= k < r@.len() ==> self@.contains_key(#[trigger] r@[k]@.name) && self@[r@[k]@.name] == r@[k]@
                && r@[k]@.tags.contains(tag@),
            forall|n: Seq<char>| #[trigger] self@.contains_key(n) && self@[n].tags.contains(tag@) ==> exists|k: int|
                0 <= k < r@.len() && r@[k]@.name == n,
            forall|a: int, b: int| 0 <= a < b < r@.len() ==> r@[a]@.name != r@[b]@.name,
    {
        let all = self.refs();
        let ghost e = self.entries();
        let mut r: Vec<&AgentTemplate> = Vec::new();
        let ghost mut idx: Seq<int> = Seq::empty();
        let mut i: usize = 0;
        while i < all.len()
            invariant
                i <= all@.len(),
                ref_views(all@) == e,
                e == self.entries(),
                names_of(e).no_duplicates(),
                idx.len() == r@.len(),
                forall|k: int| 0 <= k < idx.len() ==> 0 <= #[trigger] idx[k] < i && r@[k]@ == e[idx[k]]
                    && e[idx[k]].tags.contains(tag@),
                forall|a: int, b: int| 0 <= a < b < idx.len() ==> idx[a] < idx[b],
                forall|j: int| 0 <= j < i && #[trigger] e[j].tags.contains(tag@) ==> exists|k: int|
                    0 <= k < idx.len() && idx[k] == j,
            decreases all@.len() - i,
        {
            assert(all@[i as int]@ == e[i as int]);
            if has_tag(all[i], tag) {
                r.push(all[i]);
                proof {
                    let ghost old_idx = idx;
                    idx = idx.push(i as int);
                    assert forall|j: int| 0 <= j < i + 1 && #[trigger] e[j].tags.contains(tag@) implies exists|k: int|
                        0 <= k < idx.len() && idx[k] == j by {
                        if j == i {
                            assert(idx[idx.len() - 1] == j);
                        } else {
                            assert(exists|k: int| 0 <= k < old_idx.len() && old_idx[k] == j);
                            let k = choose|k: int| 0 <= k < old_idx.len() && old_idx[k] == j;
                            assert(idx[k] == j);
                        }
                    }
                }
            }
            i += 1;
        }
        proof {
            lemma_by_name_dom(e);
            assert forall|k: int| 0 <= k < r@.len() implies self@.contains_key(#[trigger] r@[k]@.name)
                && self@[r@[k]@.name] == r@[k]@ && r@[k]@.tags.contains(tag@) by {
                lemma_by_name_at(e, idx[k]);
            }
            assert forall|n: Seq<char>| #[trigger] self@.contains_key(n) && self@[n].tags.contains(tag@) implies exists|k: int|
                0 <= k < r@.len() && r@[k]@.name == n by {
                assert(names_of(e).contains(n));
                let j = choose|j: int| 0 <= j < names_of(e).len() && names_of(e)[j] == n;
                lemma_by_name_at(e, j);
                assert(e[j].tags.contains(tag@));
                let k = choose|k: int| 0 <= k < idx.len() && idx[k] == j;
                assert(r@[k]@.name == n);
            }
            assert forall|a: int, b: int| 0 <= a < b < r@.len() implies r@[a]@.name != r@[b]@.name by {
                assert(idx[a] < idx[b]);
                assert(names_of(e)[idx[a]] != names_of(e)[idx[b]]);
            }
        }
        r
    }

    /// The names of the registered templates, each once (in no promised
    /// order).
    pub fn names(&self) -> (r: Vec<&str>)
        requires
            self.wf(),
        ensures
            r@.len() == self@.dom().len(),
            forall|k: int| 0 <= k < r@.len() ==> self@.contains_key(#[trigger] r@[k]@),
            forall|n: Seq<char>| #[trigger] self@.contains_key(n) ==> exists|k: int| 0 <= k < r@.len() && r@[k]@ == n,
            forall|a: int, b: int| 0 <= a < b < r@.len() ==> r@[a]@ != r@[b]@,
    {
        let all = self.list();
        let mut r: Vec<&str> = Vec::new();
        let mut i: usize = 0;
        while i < all.len()
            invariant
                i <= all@.len(),
                r@.len() == i,
                forall|k: int| 0 <= k < i ==> #[trigger] r@[k]@ == all@[k]@.name,
            decreases all@.len() - i,
        {
            r.push(all[i].name.as_str());
            i += 1;
        }
        proof {
            assert forall|n: Seq<char>| #[trigger] self@.contains_key(n) implies exists|k: int|
                0 <= k < r@.len() && r@[k]@ == n by {
                let k = choose|k: int| 0 <= k < all@.len() && all@[k]@.name == n;
                assert(r@[k]@ == n);
            }
            assert forall|k: int| 0 <= k < r@.len() implies self@.contains_key(#[trigger] r@[k]@) by {
                assert(r@[k]@ == all@[k]@.name);
            }
            assert forall|a: int, b: int| 0 <= a < b < r@.len() implies r@[a]@ != r@[b]@ by {
                assert(r@[a]@ == all@[a]@.name);
                assert(r@[b]@ == all@[b]@.name);
            }
        }
        r
    }

    /// Registers each of `templates` in order (a later one replacing an
    /// earlier one of the same name) and gives how many were registered.
    pub fn merge(&mut self, templates: Vec<AgentTemplate>) -> (r: usize)
        requires
            old(self).wf(),
        ensures
            final(self).wf(),
            final(self)@ == register_all(old(self)@, template_views(templates@)),
            r == templates@.len(),
    {
        let ghost start = self@;
        let ghost src = template_views(templates@);
        let n = templates.len();
        let mut rest = templates;
        let mut k: usize = 0;
        assert(src.take(0) =~= Seq::<AgentTemplateView>::empty());
        while rest.len() > 0
            invariant
                k <= n,
                n == src.len(),
                template_views(rest@) == src.skip(k as int),
                self.wf(),
                self@ == register_all(start, src.take(k as int)),
            decreases rest@.len(),
        {
            let ghost old_rest = rest@;
            assert(template_views(old_rest).len() == old_rest.len());
            let t = rest.remove(0);
            assert(template_views(old_rest)[0] == old_rest[0]@);
            assert(src.skip(k as int)[0] == src[k as int]);
            assert(t@ == src[k as int]);
            assert(rest@ =~= old_rest.skip(1));
            assert(template_views(rest@) =~= template_views(old_rest).skip(1));
            assert(template_views(rest@) =~= src.skip(k + 1));
            self.register(t);
            assert(src.take(k + 1).drop_last() =~= src.take(k as int));
            k += 1;
        }
        assert(src.take(k as int) =~= src);
        n
    }
}

impl Default for TemplateRegistry {
    fn default() -> (r: Self)
        ensures
            r.wf(),
            r@ == builtin_map(),
    {
        Self::new()
    }
}

/// The views of a list of template references.
pub open spec fn ref_views(s: Seq<&AgentTemplate>) -> Seq<AgentTemplateView> {
    s.map_values(|t: &AgentTemplate| t@)
}

/// `m` after registering each of `s` in order.
pub open spec fn register_all(
    m: Map<Seq<char>, AgentTemplateView>,
    s: Seq<AgentTemplateView>,
) -> Map<Seq<char>, AgentTemplateView>
    decreases s.len(),
{
    if s.len() == 0 {
        m
    } else {
        register_all(m, s.drop_last()).insert(s.last().name, s.last())
    }
}

/// Whether a template carries `tag`.
pub fn has_tag(t: &AgentTemplate, tag: &str) -> (b: bool)
    ensures
        b == t@.tags.contains(tag@),
{
    let mut i: usize = 0;
    while i < t.tags.len()
        invariant
            i <= t.tags@.len(),
            forall|j: int| 0 <= j < i ==> t.tags@[j]@ != tag@,
        decreases t.tags@.len() - i,
    {
        if str_eq(t.tags[i].as_str(), tag) {
            assert(t@.tags[i as int] == tag@);
            return true;
        }
        i += 1;
    }
    assert forall|j: int| 0 <= j < t@.tags.len() implies t@.tags[j] != tag@ by {
        assert(t@.tags[j] == t.tags@[j]@);
    }
    false
}

// ---------------------------------------------------------------------------
// Listing by name
// ---------------------------------------------------------------------------

/// Whether `s` lists the templates of `m` ordered by name: each once, each
/// the template of its name, names in increasing order.
pub open spec fn is_listing(s: Seq<AgentTemplateView>, m: Map<Seq<char>, AgentTemplateView>) -> bool {
    &&& s.len() == m.dom().len()
    &&& forall|k: int| 0 <= k < s.len() ==> m.contains_key(#[trigger] s[k].name) && m[s[k].name] == s[k]
    &&& forall|a: int, b: int|
        0 <= a < b < s.len() ==> text_le(#[trigger] s[a].name, #[trigger] s[b].name) && s[a].name != s[b].name
}

proof fn lemma_listing_names_cover(s: Seq<AgentTemplateView>, m: Map<Seq<char>, AgentTemplateView>, n: Seq<char>)
    requires
        m.dom().finite(),
        is_listing(s, m),
        m.contains_key(n),
    ensures
        exists|k: int| 0 <= k < s.len() && s[k].name == n,
{
    let ns = names_of(s);
    assert forall|a: int, b: int| 0 <= a < b < ns.len() implies ns[a] != ns[b] by {
        assert(s[a].name != s[b].name);
    }
    ns.unique_seq_to_set();
    assert(ns.to_set().subset_of(m.dom())) by {
        assert forall|x: Seq<char>| ns.to_set().contains(x) implies m.dom().contains(x) by {
            let k = choose|k: int| 0 <= k < ns.len() && ns[k] == x;
            assert(m.contains_key(s[k].name));
        }
    }
    vstd::set_lib::lemma_subset_equality(ns.to_set(), m.dom());
    assert(ns.to_set().contains(n));
    let k = choose|k: int| 0 <= k < ns.len() && ns[k] == n;
    assert(s[k].name == n);
}

/// A map of templates has exactly one listing by name.
pub proof fn lemma_listing_unique(
    s1: Seq<AgentTemplateView>,
    s2: Seq<AgentTemplateView>,
    m: Map<Seq<char>, AgentTemplateView>,
)
    requires
        m.dom().finite(),
        is_listing(s1, m),
        is_listing(s2, m),
    ensures
        s1 == s2,
    decreases s1.len(),
{
    if s1.len() == 0 {
        assert(s1 =~= s2);
    } else {
        let n1 = s1[0].name;
        let n2 = s2[0].name;
        assert(m.contains_key(n1));
        assert(m.contains_key(n2));
        lemma_listing_names_cover(s1, m, n2);
        lemma_listing_names_cover(s2, m, n1);
        let j1 = choose|k: int| 0 <= k < s1.len() && s1[k].name == n2;
        let j2 = choose|k: int| 0 <= k < s2.len() && s2[k].name == n1;
        lemma_text_le_reflexive(n1);
        if j1 > 0 {
            assert(text_le(s1[0].name, s1[j1].name));
        }
        if j2 > 0 {
            assert(text_le(s2[0].name, s2[j2].name));
        }
        lemma_text_le_antisymmetric(n1, n2);
        assert(s1[0] == s2[0]);
        let m2 = m.remove(n1);
        let t1 = s1.drop_first();
        let t2 = s2.drop_first();
        assert(m2.dom() =~= m.dom().remove(n1));
        assert forall|k: int| 0 <= k < t1.len() implies m2.contains_key(#[trigger] t1[k].name) && m2[t1[k].name]
            == t1[k] by {
            assert(t1[k] == s1[k + 1]);
            assert(s1[0].name != s1[k + 1].name);
        }
        assert forall|k: int| 0 <= k < t2.len() implies m2.contains_key(#[trigger] t2[k].name) && m2[t2[k].name]
            == t2[k] by {
            assert(t2[k] == s2[k + 1]);
            assert(s2[0].name != s2[k + 1].name);
        }
        assert forall|a: int, b: int| 0 <= a < b < t1.len() implies text_le(#[trigger] t1[a].name, #[trigger] t1[b].name)
            && t1[a].name != t1[b].name by {
            assert(t1[a] == s1[a + 1] && t1[b] == s1[b + 1]);
        }
        assert forall|a: int, b: int| 0 <= a < b < t2.len() implies text_le(#[trigger] t2[a].name, #[trigger] t2[b].name)
            && t2[a].name != t2[b].name by {
            assert(t2[a] == s2[a + 1] && t2[b] == s2[b + 1]);
        }
        lemma_listing_unique(t1, t2, m2);
        assert(s1 =~= s2) by {
            assert forall|k: int| 0 <= k < s1.len() implies s1[k] == s2[k] by {
                if k > 0 {
                    assert(s1[k] == t1[k - 1]);
                    assert(s2[k] == t2[k - 1]);
                }
            }
        }
    }
}

/// Inserting a template of a new name at its place by name keeps a listing.
proof fn lemma_listing_insert(
    s: Seq<AgentTemplateView>,
    m: Map<Seq<char>, AgentTemplateView>,
    x: AgentTemplateView,
    p: int,
)
    requires
        m.dom().finite(),
        is_listing(s, m),
        !m.contains_key(x.name),
        0 <= p <= s.len(),
        forall|q: int| 0 <= q < p ==> text_le(#[trigger] s[q].name, x.name),
        p < s.len() ==> !text_le(s[p].name, x.name),
    ensures
        is_listing(s.insert(p, x), m.insert(x.name, x)),
{
    let t = s.insert(p, x);
    let m2 = m.insert(x.name, x);
    assert(m2.dom() =~= m.dom().insert(x.name));
    assert forall|k: int| 0 <= k < t.len() implies m2.contains_key(#[trigger] t[k].name) && m2[t[k].name] == t[k] by {
        if k < p {
            assert(t[k] == s[k]);
        } else if k > p {
            assert(t[k] == s[k - 1]);
        }
    }
    assert forall|q: int| p <= q < s.len() implies !text_le(#[trigger] s[q].name, x.name) && text_le(x.name, s[q].name) by {
        if q > p {
            assert(text_le(s[p].name, s[q].name));
            if text_le(s[q].name, x.name) {
                lemma_text_le_transitive(s[p].name, s[q].name, x.name);
            }
        }
        lemma_text_le_total(s[q].name, x.name);
    }
    assert forall|a: int, b: int| 0 <= a < b < t.len() implies text_le(#[trigger] t[a].name, #[trigger] t[b].name)
        && t[a].name != t[b].name by {
        if b < p {
            assert(t[a] == s[a] && t[b] == s[b]);
        } else if b == p {
            assert(t[a] == s[a]);
            assert(m.contains_key(s[a].name));
        } else if a == p {
            assert(t[b] == s[b - 1]);
            assert(m.contains_key(s[b - 1].name));
        } else if a < p {
            assert(t[a] == s[a] && t[b] == s[b - 1]);
        } else {
            assert(t[a] == s[a - 1] && t[b] == s[b - 1]);
        }
    }
}

impl TemplateRegistry {
    /// The registered templates ordered by name.
    pub fn sorted_by_name(&self) -> (r: Vec<&AgentTemplate>)
        requires
            self.wf(),
        ensures
            is_listing(ref_views(r@), self@),
    {
        let all = self.refs();
        let ghost e = self.entries();
        let mut out: Vec<&AgentTemplate> = Vec::new();
        let mut i: usize = 0;
        assert(e.take(0) =~= Seq::<AgentTemplateView>::empty());
        assert(ref_views(out@) =~= Seq::<AgentTemplateView>::empty());
        while i < all.len()
            invariant
                i <= all@.len(),
                ref_views(all@) == e,
                e == self.entries(),
                names_of(e).no_duplicates(),
                is_listing(ref_views(out@), by_name(e.take(i as int))),
            decreases all@.len() - i,
        {
            let x = all[i];
            let ghost xv = e[i as int];
            assert(x@ == xv);
            let ghost before = ref_views(out@);
            let ghost m = by_name(e.take(i as int));
            proof {
                lemma_by_name_dom(e.take(i as int));
                assert(names_of(e.take(i as int)) =~= names_of(e).take(i as int));
                if names_of(e.take(i as int)).contains(xv.name) {
                    let k = choose|k: int| 0 <= k < i && names_of(e.take(i as int))[k] == xv.name;
                    assert(names_of(e)[k] == names_of(e)[i as int]);
                }
            }
            let mut p: usize = 0;
            while p < out.len() && text_le_exec(out[p].name.as_str(), x.name.as_str())
                invariant
                    p <= out@.len(),
                    ref_views(out@) == before,
                    x@ == xv,
                    forall|q: int| 0 <= q < p ==> text_le(#[trigger] before[q].name, xv.name),
                decreases out@.len() - p,
            {
                assert(before[p as int] == out@[p as int]@);
                p += 1;
            }
            proof {
                if p < out@.len() {
                    assert(before[p as int] == out@[p as int]@);
                }
                lemma_listing_insert(before, m, xv, p as int);
                assert(e.take(i + 1).drop_last() =~= e.take(i as int));
                assert(e.take(i + 1).last() == xv);
            }
            out.insert(p, x);
            assert(ref_views(out@) =~= before.insert(p as int, xv));
            i += 1;
        }
        assert(e.take(i as int) =~= e);
        out
    }
}

/// After a template is registered, looking up its name gives it back, every
/// other name keeps its template, and the registry grows by one exactly when
/// the name was new.
pub proof fn lemma_register_then_get(m: Map<Seq<char>, AgentTemplateView>, t: AgentTemplateView, n: Seq<char>)
    requires
        m.dom().finite(),
    ensures
        m.insert(t.name, t).contains_key(t.name),
        m.insert(t.name, t)[t.name] == t,
        n != t.name ==> m.insert(t.name, t).contains_key(n) == m.contains_key(n),
        n != t.name && m.contains_key(n) ==> m.insert(t.name, t)[n] == m[n],
        m.insert(t.name, t).dom().len() == if m.contains_key(t.name) {
            m.dom().len()
        } else {
            m.dom().len() + 1
        },
{
    if m.contains_key(t.name) {
        assert(m.insert(t.name, t).dom() =~= m.dom());
    }
}

} // verus!
