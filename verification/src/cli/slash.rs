//! Slash commands of the interactive CLI: the built-in list, the `/help`
//! text, and the completions offered for a partly typed command.

use vstd::prelude::*;
use crate::text::chars_of;
use crate::text::char_width;
use crate::text::utf8_len;
use crate::text::starts_with;
use crate::text::has_char;
use crate::text::find_char;
use crate::text::matches_at;
use crate::text::string_of_range;
use crate::text::push_char;

verus! {

/// A slash command available in the CLI interactive mode.
#[derive(Debug, Clone)]
pub struct SlashCommand {
    /// Command name without the leading `/` (e.g. "model", "model list").
    pub name: &'static str,
    /// Short description shown in completions and `/help`.
    pub description: &'static str,
}

/// The built-in commands, as (name, description).
pub open spec fn builtin_command_list() -> Seq<(Seq<char>, Seq<char>)> {
    seq![
        ("model"@, "Show or switch LLM model"@),
        ("model list"@, "Show available models"@),
        ("persona"@, "Show or switch persona"@),
        ("persona list"@, "Show persona presets"@),
        ("help"@, "Show available commands"@),
        ("tools"@, "List available agent tools"@),
        ("memory"@, "Show memory command hints"@),
        ("history"@, "Show history command hints"@),
        ("template"@, "List available templates"@),
        ("template list"@, "Show available templates"@),
        ("trust"@, "Show local trusted-session status"@),
        ("trust on"@, "Bypass approvals for this interactive CLI session"@),
        ("trust off"@, "Disable trusted-session bypass"@),
        ("clear"@, "Clear conversation context"@),
        ("quit"@, "Exit interactive mode"@),
    ]
}

/// The position of a built-in command name in the list.
spec fn builtin_index(s: Seq<char>) -> int {
    if s == "model"@ {
        0
    } else if s == "model list"@ {
        1
    } else if s == "persona"@ {
        2
    } else if s == "persona list"@ {
        3
    } else if s == "help"@ {
        4
    } else if s == "tools"@ {
        5
    } else if s == "memory"@ {
        6
    } else if s == "history"@ {
        7
    } else if s == "template"@ {
        8
    } else if s == "template list"@ {
        9
    } else if s == "trust"@ {
        10
    } else if s == "trust on"@ {
        11
    } else if s == "trust off"@ {
        12
    } else if s == "clear"@ {
        13
    } else if s == "quit"@ {
        14
    } else {
        -1
    }
}

/// The first space of `s`, if any.
pub open spec fn first_space(s: Seq<char>, k: int) -> bool {
    0 <= k < s.len() && s[k] == ' ' && forall|m: int| 0 <= m < k ==> s[m] != ' '
}

/// The built-in command list is not empty; no name is empty or starts with
/// `/`, and no description is empty; no two commands share a name; and
/// every subcommand (a name with a space) has its first word as the name of
/// another command.
pub proof fn lemma_builtin_commands_laws()
    ensures
        builtin_command_list().len() > 0,
        forall|i: int|
            0 <= i < builtin_command_list().len() ==> {
                let c = #[trigger] builtin_command_list()[i];
                c.0.len() > 0 && c.0[0] != '/' && c.1.len() > 0
            },
        forall|i: int, j: int|
            0 <= i < j < builtin_command_list().len() ==> #[trigger] builtin_command_list()[i].0
                != #[trigger] builtin_command_list()[j].0,
        forall|i: int, k: int|
            0 <= i < builtin_command_list().len() && #[trigger] first_space(builtin_command_list()[i].0, k)
                ==> exists|j: int|
                0 <= j < builtin_command_list().len() && j != i && #[trigger] builtin_command_list()[j].0
                    == builtin_command_list()[i].0.take(k),
{
    reveal_strlit("model");
    reveal_strlit("Show or switch LLM model");
    reveal_strlit("model list");
    reveal_strlit("Show available models");
    reveal_strlit("persona");
    reveal_strlit("Show or switch persona");
    reveal_strlit("persona list");
    reveal_strlit("Show persona presets");
    reveal_strlit("help");
    reveal_strlit("Show available commands");
    reveal_strlit("tools");
    reveal_strlit("List available agent tools");
    reveal_strlit("memory");
    reveal_strlit("Show memory command hints");
    reveal_strlit("history");
    reveal_strlit("Show history command hints");
    reveal_strlit("template");
    reveal_strlit("List available templates");
    reveal_strlit("template list");
    reveal_strlit("Show available templates");
    reveal_strlit("trust");
    reveal_strlit("Show local trusted-session status");
    reveal_strlit("trust on");
    reveal_strlit("Bypass approvals for this interactive CLI session");
    reveal_strlit("trust off");
    reveal_strlit("Disable trusted-session bypass");
    reveal_strlit("clear");
    reveal_strlit("Clear conversation context");
    reveal_strlit("quit");
    reveal_strlit("Exit interactive mode");
    let l = builtin_command_list();
    assert(l[0] == ("model"@, "Show or switch LLM model"@));
    assert(l[1] == ("model list"@, "Show available models"@));
    assert(l[2] == ("persona"@, "Show or switch persona"@));
    assert(l[3] == ("persona list"@, "Show persona presets"@));
    assert(l[4] == ("help"@, "Show available commands"@));
    assert(l[5] == ("tools"@, "List available agent tools"@));
    assert(l[6] == ("memory"@, "Show memory command hints"@));
    assert(l[7] == ("history"@, "Show history command hints"@));
    assert(l[8] == ("template"@, "List available templates"@));
    assert(l[9] == ("template list"@, "Show available templates"@));
    assert(l[10] == ("trust"@, "Show local trusted-session status"@));
    assert(l[11] == ("trust on"@, "Bypass approvals for this interactive CLI session"@));
    assert(l[12] == ("trust off"@, "Disable trusted-session bypass"@));
    assert(l[13] == ("clear"@, "Clear conversation context"@));
    assert(l[14] == ("quit"@, "Exit interactive mode"@));
    assert forall|i: int| 0 <= i < l.len() implies {
        let c = #[trigger] l[i];
        c.0.len() > 0 && c.0[0] != '/' && c.1.len() > 0
    } by {
    }
    assert("trust"@[1] != "tools"@[1]);
    assert("trust on"@[1] != "template"@[1]);
    assert forall|i: int| 0 <= i < l.len() implies builtin_index(#[trigger] l[i].0) == i by {
        if i == 0 {}
        else if i == 1 {}
        else if i == 2 {}
        else if i == 3 {}
        else if i == 4 {}
        else if i == 5 {}
        else if i == 6 {}
        else if i == 7 {}
        else if i == 8 {}
        else if i == 9 {}
        else if i == 10 {}
        else if i == 11 {}
        else if i == 12 {}
        else if i == 13 {}
        else if i == 14 {}
    }
    assert forall|i: int, j: int| 0 <= i < j < l.len() implies #[trigger] l[i].0 != #[trigger] l[j].0 by {
        assert(builtin_index(l[i].0) == i);
        assert(builtin_index(l[j].0) == j);
    }
    assert forall|i: int, k: int| 0 <= i < l.len() && #[trigger] first_space(l[i].0, k) implies exists|j: int|
        0 <= j < l.len() && j != i && #[trigger] l[j].0 == l[i].0.take(k) by {
        if i == 0 {
            assert(false) by {
                if k == 0 {} else if k == 1 {} else if k == 2 {} else if k == 3 {} else if k == 4 {}
            }
        } else if i == 1 {
            assert(l[1].0[5] == ' ');
            assert(k >= 5) by {
                if k == 0 {} else if k == 1 {} else if k == 2 {} else if k == 3 {} else if k == 4 {}
            }
            assert(k == 5);
            assert(l[0].0 =~= l[1].0.take(k));
        } else if i == 2 {
            assert(false) by {
                if k == 0 {} else if k == 1 {} else if k == 2 {} else if k == 3 {} else if k == 4 {} else if k == 5 {} else if k == 6 {}
            }
        } else if i == 3 {
            assert(l[3].0[7] == ' ');
            assert(k >= 7) by {
                if k == 0 {} else if k == 1 {} else if k == 2 {} else if k == 3 {} else if k == 4 {} else if k == 5 {} else if k == 6 {}
            }
            assert(k == 7);
            assert(l[2].0 =~= l[3].0.take(k));
        } else if i == 4 {
            assert(false) by {
                if k == 0 {} else if k == 1 {} else if k == 2 {} else if k == 3 {}
            }
        } else if i == 5 {
            assert(false) by {
                if k == 0 {} else if k == 1 {} else if k == 2 {} else if k == 3 {} else if k == 4 {}
            }
        } else if i == 6 {
            assert(false) by {
                if k == 0 {} else if k == 1 {} else if k == 2 {} else if k == 3 {} else if k == 4 {} else if k == 5 {}
            }
        } else if i == 7 {
            assert(false) by {
                if k == 0 {} else if k == 1 {} else if k == 2 {} else if k == 3 {} else if k == 4 {} else if k == 5 {} else if k == 6 {}
            }
        } else if i == 8 {
            assert(false) by {
                if k == 0 {} else if k == 1 {} else if k == 2 {} else if k == 3 {} else if k == 4 {} else if k == 5 {} else if k == 6 {} else if k == 7 {}
            }
        } else if i == 9 {
            assert(l[9].0[8] == ' ');
            assert(k >= 8) by {
                if k == 0 {} else if k == 1 {} else if k == 2 {} else if k == 3 {} else if k == 4 {} else if k == 5 {} else if k == 6 {} else if k == 7 {}
            }
            assert(k == 8);
            assert(l[8].0 =~= l[9].0.take(k));
        } else if i == 10 {
            assert(false) by {
                if k == 0 {} else if k == 1 {} else if k == 2 {} else if k == 3 {} else if k == 4 {}
            }
        } else if i == 11 {
            assert(l[11].0[5] == ' ');
            assert(k >= 5) by {
                if k == 0 {} else if k == 1 {} else if k == 2 {} else if k == 3 {} else if k == 4 {}
            }
            assert(k == 5);
            assert(l[10].0 =~= l[11].0.take(k));
        } else if i == 12 {
            assert(l[12].0[5] == ' ');
            assert(k >= 5) by {
                if k == 0 {} else if k == 1 {} else if k == 2 {} else if k == 3 {} else if k == 4 {}
            }
            assert(k == 5);
            assert(l[10].0 =~= l[12].0.take(k));
        } else if i == 13 {
            assert(false) by {
                if k == 0 {} else if k == 1 {} else if k == 2 {} else if k == 3 {} else if k == 4 {}
            }
        } else if i == 14 {
            assert(false) by {
                if k == 0 {} else if k == 1 {} else if k == 2 {} else if k == 3 {}
            }
        }
    }
}

/// The (name, description) pairs of a list of commands.
pub open spec fn command_texts(c: Seq<SlashCommand>) -> Seq<(Seq<char>, Seq<char>)> {
    c.map_values(|x: SlashCommand| (x.name@, x.description@))
}

fn cmd(name: &'static str, description: &'static str) -> (r: SlashCommand)
    ensures
        r.name == name,
        r.description == description,
{
    SlashCommand { name, description }
}

/// Returns the built-in slash commands.
pub fn builtin_commands() -> (r: Vec<SlashCommand>)
    ensures
        command_texts(r@) == builtin_command_list(),
{
    let r = vec![
        cmd("model", "Show or switch LLM model"),
        cmd("model list", "Show available models"),
        cmd("persona", "Show or switch persona"),
        cmd("persona list", "Show persona presets"),
        cmd("help", "Show available commands"),
        cmd("tools", "List available agent tools"),
        cmd("memory", "Show memory command hints"),
        cmd("history", "Show history command hints"),
        cmd("template", "List available templates"),
        cmd("template list", "Show available templates"),
        cmd("trust", "Show local trusted-session status"),
        cmd("trust on", "Bypass approvals for this interactive CLI session"),
        cmd("trust off", "Disable trusted-session bypass"),
        cmd("clear", "Clear conversation context"),
        cmd("quit", "Exit interactive mode"),
    ];
    assert(command_texts(r@) =~= builtin_command_list());
    r
}

/// The completer for `/` commands.
pub struct SlashHelper {
    pub commands: Vec<SlashCommand>,
}

impl SlashHelper {
    pub fn new() -> (r: Self)
        ensures
            command_texts(r.commands@) == builtin_command_list(),
    {
        SlashHelper { commands: builtin_commands() }
    }
}

/// `s` padded with spaces on the right to `w` characters (`{:<w}`).
pub open spec fn pad_right(s: Seq<char>, w: nat) -> Seq<char> {
    if s.len() >= w {
        s
    } else {
        s + Seq::new((w - s.len()) as nat, |i: int| ' ')
    }
}

fn append_padded(out: &mut String, s: &str, w: usize)
    ensures
        final(out)@ == old(out)@ + pad_right(s@, w as nat),
{
    let v = chars_of(s);
    let vl = v.len();
    let ghost start = out@;
    out.append(s);
    let mut n = vl;
    while n < w
        invariant
            vl == s@.len(),
            vl <= n <= w || (n == vl && vl >= w),
            out@ == start + s@ + Seq::new((n - vl) as nat, |i: int| ' '),
        decreases w - n,
    {
        let ghost before = out@;
        push_char(out, ' ');
        assert(out@ =~= start + s@ + Seq::new((n + 1 - vl) as nat, |i: int| ' '));
        n += 1;
    }
    if vl >= w {
        assert(out@ =~= start + s@);
    } else {
        assert(out@ =~= start + pad_right(s@, w as nat));
    }
}

/// The `/help` line of each top-level command (a name without a space).
pub open spec fn help_lines(c: Seq<(Seq<char>, Seq<char>)>) -> Seq<char>
    decreases c.len(),
{
    if c.len() == 0 {
        Seq::empty()
    } else {
        let rest = help_lines(c.drop_last());
        let (name, desc) = c.last();
        if has_char(name, ' ') {
            rest
        } else {
            rest + "  /"@ + pad_right(name, 16) + " "@ + desc + "\n"@
        }
    }
}

/// The `/help` text for the built-in commands.
pub open spec fn help_text() -> Seq<char> {
    "Available commands:\n\n"@ + help_lines(builtin_command_list())
        + "\nType '/' and press Tab to autocomplete."@
}

/// Format the `/help` output listing all commands.
pub fn format_help() -> (r: String)
    ensures
        r@ == help_text(),
{
    let commands = builtin_commands();
    let ghost cs = command_texts(commands@);
    let mut out = String::from_str("Available commands:\n\n");
    let ghost head = out@;
    let mut i: usize = 0;
    assert(cs.take(0) =~= Seq::<(Seq<char>, Seq<char>)>::empty());
    assert(out@ =~= head + help_lines(cs.take(0)));
    while i < commands.len()
        invariant
            i <= commands@.len(),
            cs == command_texts(commands@),
            out@ == head + help_lines(cs.take(i as int)),
        decreases commands@.len() - i,
    {
        let c = &commands[i];
        assert(cs.take(i + 1).drop_last() =~= cs.take(i as int));
        assert(cs.take(i + 1).last() == (c.name@, c.description@));
        let v = chars_of(c.name);
        let vl = v.len();
        let sp = find_char(&v, 0, vl, ' ');
        proof {
            match sp {
                Some(k) => {
                    assert(has_char(c.name@, ' '));
                },
                None => {
                    assert(!has_char(c.name@, ' '));
                },
            }
        }
        if sp.is_none() {
            let ghost before = out@;
            out.append("  /");
            append_padded(&mut out, c.name, 16);
            out.append(" ");
            out.append(c.description);
            out.append("\n");
            assert(out@ =~= before + "  /"@ + pad_right(c.name@, 16) + " "@ + c.description@
                + "\n"@);
        }
        i += 1;
    }
    assert(cs.take(i as int) =~= cs);
    out.append("\nType '/' and press Tab to autocomplete.");
    r_of(out)
}

fn r_of(s: String) -> (r: String)
    ensures
        r == s,
{
    s
}

// ---------------------------------------------------------------------------
// Completion
// ---------------------------------------------------------------------------

/// A completion candidate: what is shown, and what replaces the input.
pub struct Completion {
    pub display: String,
    pub replacement: String,
}

/// The typed command after the `/`: the characters of `line` before byte
/// offset `pos`, when `pos` falls on a character boundary within the line;
/// otherwise nothing.
pub open spec fn typed_query(line: Seq<char>, pos: nat) -> Seq<char> {
    if exists|k: int| 1 <= k <= line.len() && utf8_len(#[trigger] line.take(k)) == pos {
        let k = choose|k: int| 1 <= k <= line.len() && utf8_len(#[trigger] line.take(k)) == pos;
        line.subrange(1, k)
    } else {
        Seq::empty()
    }
}

/// The completion of a command.
pub open spec fn completion_of(c: SlashCommand) -> (Seq<char>, Seq<char>) {
    ("/"@ + pad_right(c.name@, 20) + " "@ + c.description@, "/"@ + c.name@)
}

/// `s` (ordered by replacement length) with `x` after every element whose
/// replacement is not longer.
pub open spec fn insert_by_len(s: Seq<(Seq<char>, Seq<char>)>, x: (Seq<char>, Seq<char>)) -> Seq<
    (Seq<char>, Seq<char>),
>
    decreases s.len(),
{
    if s.len() == 0 {
        seq![x]
    } else if utf8_len(s.last().1) <= utf8_len(x.1) {
        s.push(x)
    } else {
        insert_by_len(s.drop_last(), x).push(s.last())
    }
}

/// The completions of the commands whose name starts with `query`, in
/// order, stably sorted by replacement length.
pub open spec fn completions(c: Seq<SlashCommand>, query: Seq<char>) -> Seq<(Seq<char>, Seq<char>)>
    decreases c.len(),
{
    if c.len() == 0 {
        Seq::empty()
    } else {
        let rest = completions(c.drop_last(), query);
        if starts_with(c.last().name@, query) {
            insert_by_len(rest, completion_of(c.last()))
        } else {
            rest
        }
    }
}

/// Whether completions are ordered by replacement length (in bytes).
pub open spec fn sorted_by_len(s: Seq<(Seq<char>, Seq<char>)>) -> bool {
    forall|i: int, j: int| 0 <= i < j < s.len() ==> utf8_len(s[i].1) <= utf8_len(s[j].1)
}

/// The completions of the commands whose name starts with `query`, in the
/// commands' order.
pub open spec fn matching_completions(c: Seq<SlashCommand>, query: Seq<char>) -> Seq<(Seq<char>, Seq<char>)>
    decreases c.len(),
{
    if c.len() == 0 {
        Seq::empty()
    } else if starts_with(c.last().name@, query) {
        matching_completions(c.drop_last(), query).push(completion_of(c.last()))
    } else {
        matching_completions(c.drop_last(), query)
    }
}

proof fn lemma_insert_by_len_sorted(s: Seq<(Seq<char>, Seq<char>)>, x: (Seq<char>, Seq<char>))
    requires
        sorted_by_len(s),
    ensures
        sorted_by_len(insert_by_len(s, x)),
        insert_by_len(s, x).to_multiset() == s.to_multiset().insert(x),
    decreases s.len(),
{
    broadcast use vstd::seq_lib::group_to_multiset_ensures;
    if s.len() == 0 {
        assert(seq![x] =~= Seq::<(Seq<char>, Seq<char>)>::empty().push(x));
    } else if utf8_len(s.last().1) <= utf8_len(x.1) {
    } else {
        let q = s.drop_last();
        assert(sorted_by_len(q));
        lemma_insert_by_len_sorted(q, x);
        let t = insert_by_len(q, x);
        assert forall|i: int| 0 <= i < t.len() implies utf8_len((#[trigger] t[i]).1) <= utf8_len(s.last().1) by {
            assert(t.to_multiset().count(t[i]) > 0);
            if t[i] != x {
                assert(q.to_multiset().count(t[i]) > 0);
                assert(q.contains(t[i]));
                let m = choose|m: int| 0 <= m < q.len() && q[m] == t[i];
                assert(s[m] == q[m]);
            }
        }
        assert(q.push(s.last()) =~= s);
    }
}

/// Completion is a sort: the completions of the commands that match are
/// those of `matching_completions`, each as often, ordered by replacement
/// length.
pub proof fn lemma_completions_sorted(c: Seq<SlashCommand>, query: Seq<char>)
    ensures
        sorted_by_len(completions(c, query)),
        completions(c, query).to_multiset() == matching_completions(c, query).to_multiset(),
    decreases c.len(),
{
    broadcast use vstd::seq_lib::group_to_multiset_ensures;
    if c.len() > 0 {
        lemma_completions_sorted(c.drop_last(), query);
        if starts_with(c.last().name@, query) {
            lemma_insert_by_len_sorted(completions(c.drop_last(), query), completion_of(c.last()));
        }
    }
}

/// The texts of completions.
pub open spec fn completion_texts(s: Seq<Completion>) -> Seq<(Seq<char>, Seq<char>)> {
    s.map_values(|x: Completion| (x.display@, x.replacement@))
}

proof fn lemma_insert_by_len_at(s: Seq<(Seq<char>, Seq<char>)>, x: (Seq<char>, Seq<char>), p: int)
    requires
        0 <= p <= s.len(),
        forall|k: int| p <= k < s.len() ==> utf8_len((#[trigger] s[k]).1) > utf8_len(x.1),
        p > 0 ==> utf8_len(s[p - 1].1) <= utf8_len(x.1),
    ensures
        insert_by_len(s, x) == s.take(p).push(x) + s.skip(p),
    decreases s.len(),
{
    if s.len() == 0 {
        assert(s.take(p).push(x) + s.skip(p) =~= seq![x]);
    } else if utf8_len(s.last().1) <= utf8_len(x.1) {
        assert(p == s.len());
        assert(s.take(p).push(x) + s.skip(p) =~= s.push(x));
    } else {
        let q = s.drop_last();
        lemma_insert_by_len_at(q, x, p);
        assert(insert_by_len(q, x).push(s.last()) =~= s.take(p).push(x) + s.skip(p));
    }
}

/// The byte length of a text.
fn byte_len(s: &str) -> (n: usize)
    ensures
        n == utf8_len(s@),
{
    s.as_bytes().len()
}

/// The completions for `line` with the cursor at byte `pos`: none unless
/// the line starts with `/` and the cursor is past it; they replace the
/// whole input.
pub fn complete_commands(commands: &Vec<SlashCommand>, line: &str, pos: usize) -> (r: (
    usize,
    Vec<Completion>,
))
    ensures
        r.0 == 0,
        (line@.len() == 0 || line@[0] != '/' || pos < 1) ==> r.1@.len() == 0,
        !(line@.len() == 0 || line@[0] != '/' || pos < 1) ==> completion_texts(r.1@)
            == completions(commands@, typed_query(line@, pos as nat)),
{
    let v = chars_of(line);
    let vl = v.len();
    if vl == 0 || v[0] != '/' || pos < 1 {
        return (0, Vec::new());
    }
    // Find k with byte offset of char k == pos.
    let mut k: usize = 0;
    let mut off: usize = 0;
    let total = byte_len(line);
    proof {
        crate::text::lemma_utf8_len_empty();
        assert(v@.take(0) =~= Seq::<char>::empty());
    }
    let mut found: Option<usize> = None;
    while k < vl
        invariant_except_break
            found is None,
            forall|j: int| 1 <= j <= k ==> utf8_len(#[trigger] v@.take(j)) != pos,
        invariant
            k <= vl,
            vl == v@.len(),
            v@ == line@,
            off == utf8_len(v@.take(k as int)),
            total == utf8_len(v@),
        ensures
            found matches Some(q) ==> 1 <= q <= vl && utf8_len(v@.take(q as int)) == pos && forall|j: int|
                1 <= j < q ==> utf8_len(#[trigger] v@.take(j)) != pos,
            found is None ==> forall|j: int| 1 <= j <= vl ==> utf8_len(#[trigger] v@.take(j)) != pos,
        decreases vl - k,
    {
        proof {
            crate::text::lemma_utf8_len_push(v@.take(k as int), v@[k as int]);
            assert(v@.take(k as int).push(v@[k as int]) =~= v@.take(k + 1));
            crate::text::lemma_utf8_len_concat(v@.take(k + 1), v@.skip(k + 1));
            assert(v@.take(k + 1) + v@.skip(k + 1) =~= v@);
            crate::text::lemma_char_width_bounds(v@[k as int]);
        }
        let w = crate::text::char_len_utf8(v[k]);
        off = off + w;
        k += 1;
        if off == pos {
            found = Some(k);
            break;
        }
    }
    let query = match found {
        Some(q) => {
            proof {
                assert forall|j: int| 1 <= j <= vl && utf8_len(#[trigger] v@.take(j)) == pos implies j == q by {
                    if j < q {
                    } else if j > q {
                        crate::text::lemma_utf8_len_concat(v@.take(q as int), v@.subrange(q as int, j));
                        assert(v@.take(q as int) + v@.subrange(q as int, j) =~= v@.take(j));
                        crate::text::lemma_utf8_len_ge_len(v@.subrange(q as int, j));
                    }
                }
            }
            let r = string_of_range(&v, 1, q);
            proof {
                let kk = choose|kk: int| 1 <= kk <= line@.len() && utf8_len(#[trigger] line@.take(kk)) == pos;
                assert(kk == q);
            }
            r
        },
        None => String::new(),
    };
    assert(query@ == typed_query(line@, pos as nat));
    let ghost qv = query@;
    let qc = chars_of(query.as_str());
    let mut out: Vec<Completion> = Vec::new();
    let mut i: usize = 0;
    assert(commands@.take(0) =~= Seq::<SlashCommand>::empty());
    assert(completion_texts(out@) =~= Seq::<(Seq<char>, Seq<char>)>::empty());
    while i < commands.len()
        invariant
            i <= commands@.len(),
            qc@ == qv,
            completion_texts(out@) == completions(commands@.take(i as int), qv),
        decreases commands@.len() - i,
    {
        let c = &commands[i];
        assert(commands@.take(i + 1).drop_last() =~= commands@.take(i as int));
        assert(commands@.take(i + 1).last() == *c);
        let nc = chars_of(c.name);
        let is_match = matches_at(&nc, 0, &qc);
        assert(is_match == starts_with(c.name@, qv)) by {
            if starts_with(c.name@, qv) {
                assert(nc@.subrange(0, qv.len() as int) == qv);
            }
        }
        if is_match {
            let mut display = String::from_str("/");
            append_padded(&mut display, c.name, 20);
            display.append(" ");
            display.append(c.description);
            let mut replacement = String::from_str("/");
            replacement.append(c.name);
            let key = byte_len(replacement.as_str());
            let x = Completion { display, replacement };
            let ghost xt = (x.display@, x.replacement@);
            assert(xt == completion_of(*c));
            let ghost before = completion_texts(out@);
            let mut p = out.len();
            while p > 0 && byte_len(out[p - 1].replacement.as_str()) > key
                invariant
                    p <= out@.len(),
                    completion_texts(out@) == before,
                    key == utf8_len(xt.1),
                    forall|q: int| p <= q < out@.len() ==> utf8_len((#[trigger] before[q]).1) > key,
                decreases p,
            {
                assert(before[p - 1] == (out@[p - 1].display@, out@[p - 1].replacement@));
                p -= 1;
            }
            proof {
                if p > 0 {
                    assert(before[p - 1] == (out@[p - 1].display@, out@[p - 1].replacement@));
                }
                lemma_insert_by_len_at(before, xt, p as int);
            }
            out.insert(p, x);
            assert(completion_texts(out@) =~= before.take(p as int).push(xt) + before.skip(p as int));
        }
        i += 1;
    }
    assert(commands@.take(i as int) =~= commands@);
    (0, out)
}

} // verus!
