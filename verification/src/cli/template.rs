//! `zeptoclaw template`: what listing and showing templates print, and the
//! lookup of a template by name with its error naming the known ones.

use vstd::prelude::*;
use crate::text::texts;
use crate::text::str_eq;
use crate::text::decimal;
use crate::text::decimal_text;
use crate::cli::skills::joined;
use crate::cli::skills::join_strings;
use crate::templates::AgentTemplate;
use crate::templates::AgentTemplateView;
use crate::templates::TemplateRegistry;
use crate::templates::builtin_map;
use crate::templates::has_tag;
use crate::templates::is_listing;
use crate::templates::names_of;
use crate::templates::ref_views;

verus! {

/// Where a template comes from: "built-in" for the names of the built-in
/// templates, "user" for any other.
pub open spec fn origin_text(name: Seq<char>) -> Seq<char> {
    if builtin_map().contains_key(name) {
        "built-in"@
    } else {
        "user"@
    }
}

/// Where a template named `name` comes from.
pub fn template_origin(name: &str) -> (r: &'static str)
    ensures
        r@ == origin_text(name@),
{
    if str_eq(name, "coder") || str_eq(name, "researcher") || str_eq(name, "writer") || str_eq(name, "assistant")
        || str_eq(name, "task-manager") {
        "built-in"
    } else {
        "user"
    }
}

/// The marker for templates that switch on the coding tools.
pub open spec fn coding_marker(t: AgentTemplateView) -> Seq<char> {
    if t.tags.contains("coding"@) {
        " [+grep,find]"@
    } else {
        ""@
    }
}

/// A template's line in the listing.
pub open spec fn listing_line(t: AgentTemplateView) -> Seq<char> {
    "  - "@ + t.name + " ("@ + origin_text(t.name) + ") — "@ + t.description + coding_marker(t)
}

/// The lines of a listing, each after a line break.
pub open spec fn listing_lines(s: Seq<AgentTemplateView>) -> Seq<char>
    decreases s.len(),
{
    if s.len() == 0 {
        Seq::empty()
    } else {
        listing_lines(s.drop_last()) + "\n"@ + listing_line(s.last())
    }
}

/// What `template list` prints for the templates `s`.
pub open spec fn listing_text(s: Seq<AgentTemplateView>) -> Seq<char> {
    if s.len() == 0 {
        "No templates available."@
    } else {
        "Templates:"@ + listing_lines(s)
    }
}

fn line_of(t: &AgentTemplate) -> (r: String)
    ensures
        r@ == listing_line(t@),
{
    let mut r = String::from_str("  - ");
    r.append(t.name.as_str());
    r.append(" (");
    r.append(template_origin(t.name.as_str()));
    r.append(") — ");
    r.append(t.description.as_str());
    let ghost before = r@;
    if has_tag(t, "coding") {
        r.append(" [+grep,find]");
    } else {
        proof {
            reveal_strlit("");
        }
        assert(r@ =~= before + ""@);
    }
    r
}

/// What `template list` prints: the registered templates ordered by name,
/// each with its origin and description, or a note that there are none.
pub fn template_list_text(registry: &TemplateRegistry) -> (r: String)
    requires
        registry.wf(),
    ensures
        exists|s: Seq<AgentTemplateView>| is_listing(s, registry@) && r@ == listing_text(s),
{
    let sorted = registry.sorted_by_name();
    let ghost s = ref_views(sorted@);
    if sorted.len() == 0 {
        let r = String::from_str("No templates available.");
        assert(is_listing(s, registry@) && r@ == listing_text(s));
        return r;
    }
    let mut r = String::from_str("Templates:");
    let mut i: usize = 0;
    while i < sorted.len()
        invariant
            i <= sorted@.len(),
            s == ref_views(sorted@),
            r@ == "Templates:"@ + listing_lines(s.take(i as int)),
        decreases sorted@.len() - i,
    {
        assert(s[i as int] == sorted@[i as int]@);
        assert(s.take(i + 1).drop_last() =~= s.take(i as int));
        r.append("\n");
        let line = line_of(sorted[i]);
        r.append(line.as_str());
        i += 1;
    }
    assert(s.take(i as int) =~= s);
    assert(is_listing(s, registry@) && r@ == listing_text(s));
    r
}

/// `line` under a prefix, when there is one.
pub open spec fn opt_line(prefix: Seq<char>, o: Option<Seq<char>>) -> Seq<Seq<char>> {
    match o {
        Some(v) => seq![prefix + v],
        None => Seq::empty(),
    }
}

/// The decimal text of an optional number.
pub open spec fn opt_decimal(o: Option<u32>) -> Option<Seq<char>> {
    match o {
        Some(n) => Some(decimal(n as nat)),
        None => None,
    }
}

/// A list of tools joined by commas.
pub open spec fn opt_joined(o: Option<Seq<Seq<char>>>) -> Option<Seq<char>> {
    match o {
        Some(v) => Some(joined(v, ", "@)),
        None => None,
    }
}

/// The first lines of `template show`: name, description, model and token
/// overrides.
pub open spec fn show_head(t: AgentTemplateView) -> Seq<Seq<char>> {
    seq!["Name: "@ + t.name, "Description: "@ + t.description] + opt_line("Model override: "@, t.model)
        + opt_line("Max tokens override: "@, opt_decimal(t.max_tokens))
}

/// The middle lines of `template show`: temperature, iterations and tool
/// policies.
pub open spec fn show_middle(t: AgentTemplateView, temperature: Option<Seq<char>>) -> Seq<Seq<char>> {
    opt_line("Temperature override: "@, temperature) + opt_line(
        "Max tool iterations override: "@,
        opt_decimal(t.max_tool_iterations),
    ) + opt_line("Allowed tools: "@, opt_joined(t.allowed_tools)) + opt_line(
        "Blocked tools: "@,
        opt_joined(t.blocked_tools),
    )
}

/// The last lines of `template show`: tags, the coding tools note, and the
/// system prompt after a blank line.
pub open spec fn show_tail(t: AgentTemplateView) -> Seq<Seq<char>> {
    (if t.tags.len() == 0 {
        Seq::empty()
    } else {
        seq!["Tags: "@ + joined(t.tags, ", "@)]
    }) + (if t.tags.contains("coding"@) {
        seq![
            "Activates coding tools: grep, find"@,
            "  (disabled by default — automatically enabled by this template)"@,
        ]
    } else {
        Seq::empty()
    }) + seq![""@, "System prompt:"@, t.system_prompt]
}

/// The lines `template show` prints for a template, given the text of its
/// temperature override (if it has one).
pub open spec fn show_lines(t: AgentTemplateView, temperature: Option<Seq<char>>) -> Seq<Seq<char>> {
    show_head(t) + show_middle(t, temperature) + show_tail(t)
}

fn push_text(lines: &mut Vec<String>, text: &str)
    ensures
        texts(final(lines)@) == texts(old(lines)@).push(text@),
{
    lines.push(String::from_str(text));
    assert(texts(lines@) =~= texts(old(lines)@).push(text@));
}

fn push_line(lines: &mut Vec<String>, prefix: &str, value: &str)
    ensures
        texts(final(lines)@) == texts(old(lines)@).push(prefix@ + value@),
{
    let mut l = String::from_str(prefix);
    l.append(value);
    lines.push(l);
    assert(texts(lines@) =~= texts(old(lines)@).push(prefix@ + value@));
}

fn push_head(lines: &mut Vec<String>, t: &AgentTemplate)
    ensures
        texts(final(lines)@) == texts(old(lines)@) + show_head(t@),
{
    let ghost l0 = texts(lines@);
    push_line(lines, "Name: ", t.name.as_str());
    push_line(lines, "Description: ", t.description.as_str());
    let ghost l1 = texts(lines@);
    if let Some(m) = &t.model {
        push_line(lines, "Model override: ", m.as_str());
    }
    assert(texts(lines@) =~= l1 + opt_line("Model override: "@, t@.model));
    let ghost l2 = texts(lines@);
    if let Some(n) = t.max_tokens {
        let d = decimal_text(n as u64);
        push_line(lines, "Max tokens override: ", d.as_str());
    }
    assert(texts(lines@) =~= l2 + opt_line("Max tokens override: "@, opt_decimal(t@.max_tokens)));
    assert(texts(lines@) =~= l0 + show_head(t@));
}

fn push_middle(lines: &mut Vec<String>, t: &AgentTemplate, temperature: Option<&str>)
    ensures
        texts(final(lines)@) == texts(old(lines)@) + show_middle(
            t@,
            match temperature {
                Some(x) => Some(x@),
                None => None,
            },
        ),
{
    let ghost l0 = texts(lines@);
    let ghost temp = match temperature {
        Some(x) => Some(x@),
        None => None,
    };
    if let Some(x) = temperature {
        push_line(lines, "Temperature override: ", x);
    }
    assert(texts(lines@) =~= l0 + opt_line("Temperature override: "@, temp));
    let ghost l1 = texts(lines@);
    if let Some(n) = t.max_tool_iterations {
        let d = decimal_text(n as u64);
        push_line(lines, "Max tool iterations override: ", d.as_str());
    }
    assert(texts(lines@) =~= l1 + opt_line("Max tool iterations override: "@, opt_decimal(t@.max_tool_iterations)));
    let ghost l2 = texts(lines@);
    if let Some(a) = &t.allowed_tools {
        let j = join_strings(a, ", ");
        push_line(lines, "Allowed tools: ", j.as_str());
    }
    assert(texts(lines@) =~= l2 + opt_line("Allowed tools: "@, opt_joined(t@.allowed_tools)));
    let ghost l3 = texts(lines@);
    if let Some(b) = &t.blocked_tools {
        let j = join_strings(b, ", ");
        push_line(lines, "Blocked tools: ", j.as_str());
    }
    assert(texts(lines@) =~= l3 + opt_line("Blocked tools: "@, opt_joined(t@.blocked_tools)));
    assert(texts(lines@) =~= l0 + show_middle(t@, temp));
}

fn push_tail(lines: &mut Vec<String>, t: &AgentTemplate)
    ensures
        texts(final(lines)@) == texts(old(lines)@) + show_tail(t@),
{
    let ghost l0 = texts(lines@);
    if t.tags.len() > 0 {
        let j = join_strings(&t.tags, ", ");
        push_line(lines, "Tags: ", j.as_str());
    }
    let ghost tag_lines = if t@.tags.len() == 0 {
        Seq::<Seq<char>>::empty()
    } else {
        seq!["Tags: "@ + joined(t@.tags, ", "@)]
    };
    assert(texts(lines@) =~= l0 + tag_lines);
    let ghost l1 = texts(lines@);
    if has_tag(t, "coding") {
        push_text(lines, "Activates coding tools: grep, find");
        push_text(lines, "  (disabled by default — automatically enabled by this template)");
    }
    let ghost coding_lines = if t@.tags.contains("coding"@) {
        seq![
            "Activates coding tools: grep, find"@,
            "  (disabled by default — automatically enabled by this template)"@,
        ]
    } else {
        Seq::<Seq<char>>::empty()
    };
    assert(texts(lines@) =~= l1 + coding_lines);
    let ghost l2 = texts(lines@);
    push_text(lines, "");
    push_text(lines, "System prompt:");
    push_text(lines, t.system_prompt.as_str());
    assert(texts(lines@) =~= l2 + seq![""@, "System prompt:"@, t@.system_prompt]);
    assert(texts(lines@) =~= l0 + show_tail(t@));
}

/// What `template show` prints for a template, one line after another;
/// `temperature` is the text of its temperature override, if it has one.
pub fn template_show_text(t: &AgentTemplate, temperature: Option<&str>) -> (r: String)
    ensures
        r@ == joined(
            show_lines(
                t@,
                match temperature {
                    Some(x) => Some(x@),
                    None => None,
                },
            ),
            "\n"@,
        ),
{
    let mut lines: Vec<String> = Vec::new();
    assert(texts(lines@) =~= Seq::<Seq<char>>::empty());
    push_head(&mut lines, t);
    push_middle(&mut lines, t, temperature);
    push_tail(&mut lines, t);
    join_strings(&lines, "\n")
}

/// The error for a name with no template, naming the known templates in
/// order.
pub open spec fn not_found_text(name: Seq<char>, s: Seq<AgentTemplateView>) -> Seq<char> {
    "Template '"@ + name + "' not found. Available templates: "@ + joined(names_of(s), ", "@)
}

/// The template registered under `name`; when there is none, an error that
/// names the registered templates ordered by name.
pub fn resolve_template<'a>(registry: &'a TemplateRegistry, name: &str) -> (r: Result<&'a AgentTemplate, String>)
    requires
        registry.wf(),
    ensures
        match r {
            Ok(t) => registry@.contains_key(name@) && t@ == registry@[name@],
            Err(e) => !registry@.contains_key(name@) && exists|s: Seq<AgentTemplateView>|
                is_listing(s, registry@) && e@ == not_found_text(name@, s),
        },
{
    match registry.get(name) {
        Some(t) => Ok(t),
        None => {
            let sorted = registry.sorted_by_name();
            let ghost s = ref_views(sorted@);
            let mut names: Vec<String> = Vec::new();
            let mut i: usize = 0;
            while i < sorted.len()
                invariant
                    i <= sorted@.len(),
                    s == ref_views(sorted@),
                    texts(names@) == names_of(s.take(i as int)),
                decreases sorted@.len() - i,
            {
                assert(s[i as int] == sorted@[i as int]@);
                names.push(sorted[i].name.clone());
                assert(names_of(s.take(i + 1)) =~= names_of(s.take(i as int)).push(s[i as int].name));
                assert(texts(names@) =~= texts(names@.drop_last()).push(names@.last()@));
                i += 1;
            }
            assert(s.take(i as int) =~= s);
            let mut e = String::from_str("Template '");
            e.append(name);
            e.append("' not found. Available templates: ");
            let j = join_strings(&names, ", ");
            e.append(j.as_str());
            Err(e)
        },
    }
}

} // verus!
