//! Configuration validation: unknown-field detection with "did you mean"
//! suggestions, security warnings, and checks of custom tool definitions.

use vstd::prelude::*;
use crate::text::chars_of;
use crate::text::utf8_len;
use crate::text::str_eq;
use crate::text::trim;
use crate::text::trimmed;
use crate::text::decimal;
use crate::text::decimal_text;
use crate::config::CustomToolDef;
use crate::seqs::lemma_prefix_index;

verus! {

// ---------------------------------------------------------------------------
// Edit distance
// ---------------------------------------------------------------------------

pub open spec fn min3(a: nat, b: nat, c: nat) -> nat {
    let m = if a <= b {
        a
    } else {
        b
    };
    if m <= c {
        m
    } else {
        c
    }
}

/// The edit distance between the first `i` characters of `a` and the first
/// `j` characters of `b` (insertions, deletions and substitutions, each 1).
pub open spec fn edit_distance(a: Seq<char>, b: Seq<char>, i: nat, j: nat) -> nat
    decreases i + j,
{
    if i == 0 {
        j
    } else if j == 0 {
        i
    } else {
        min3(
            edit_distance(a, b, (i - 1) as nat, j) + 1,
            edit_distance(a, b, i, (j - 1) as nat) + 1,
            edit_distance(a, b, (i - 1) as nat, (j - 1) as nat) + if a[i - 1] == b[j - 1] {
                0nat
            } else {
                1nat
            },
        )
    }
}

proof fn lemma_edit_distance_bound(a: Seq<char>, b: Seq<char>, i: nat, j: nat)
    ensures
        edit_distance(a, b, i, j) <= if i >= j {
            i
        } else {
            j
        },
    decreases i + j,
{
    if i > 0 && j > 0 {
        lemma_edit_distance_bound(a, b, (i - 1) as nat, (j - 1) as nat);
    }
}

proof fn lemma_edit_distance_same(a: Seq<char>, i: nat)
    ensures
        edit_distance(a, a, i, i) == 0,
    decreases i,
{
    if i > 0 {
        lemma_edit_distance_same(a, (i - 1) as nat);
    }
}

proof fn lemma_edit_distance_symmetric(a: Seq<char>, b: Seq<char>, i: nat, j: nat)
    ensures
        edit_distance(a, b, i, j) == edit_distance(b, a, j, i),
    decreases i + j,
{
    if i > 0 && j > 0 {
        lemma_edit_distance_symmetric(a, b, (i - 1) as nat, j);
        lemma_edit_distance_symmetric(a, b, i, (j - 1) as nat);
        lemma_edit_distance_symmetric(a, b, (i - 1) as nat, (j - 1) as nat);
    }
}

proof fn lemma_edit_distance_zero(a: Seq<char>, b: Seq<char>, i: nat, j: nat)
    requires
        i <= a.len(),
        j <= b.len(),
        edit_distance(a, b, i, j) == 0,
    ensures
        i == j,
        a.take(i as int) == b.take(j as int),
    decreases i + j,
{
    if i == 0 {
        assert(a.take(0) =~= b.take(0));
    } else if j > 0 {
        lemma_edit_distance_zero(a, b, (i - 1) as nat, (j - 1) as nat);
        assert(a.take(i as int) =~= a.take(i - 1).push(a[i - 1]));
        assert(b.take(j as int) =~= b.take(j - 1).push(b[j - 1]));
    }
}

proof fn lemma_edit_distance_lower(a: Seq<char>, b: Seq<char>, i: nat, j: nat)
    ensures
        edit_distance(a, b, i, j) >= i - j,
        edit_distance(a, b, i, j) >= j - i,
    decreases i + j,
{
    if i > 0 && j > 0 {
        lemma_edit_distance_lower(a, b, (i - 1) as nat, j);
        lemma_edit_distance_lower(a, b, i, (j - 1) as nat);
        lemma_edit_distance_lower(a, b, (i - 1) as nat, (j - 1) as nat);
    }
}

proof fn lemma_edit_distance_triangle(
    a: Seq<char>,
    b: Seq<char>,
    c: Seq<char>,
    i: nat,
    j: nat,
    k: nat,
)
    ensures
        edit_distance(a, c, i, k) <= edit_distance(a, b, i, j) + edit_distance(b, c, j, k),
    decreases i + j + k,
{
    let x = edit_distance(a, b, i, j);
    let y = edit_distance(b, c, j, k);
    if i == 0 {
        lemma_edit_distance_lower(b, c, j, k);
    } else if k == 0 {
        lemma_edit_distance_lower(a, b, i, j);
    } else if j == 0 {
        lemma_edit_distance_bound(a, c, i, k);
    } else {
        let i1 = (i - 1) as nat;
        let j1 = (j - 1) as nat;
        let k1 = (k - 1) as nat;
        if x == edit_distance(a, b, i1, j) + 1 {
            lemma_edit_distance_triangle(a, b, c, i1, j, k);
        } else if y == edit_distance(b, c, j, k1) + 1 {
            lemma_edit_distance_triangle(a, b, c, i, j, k1);
        } else if x == edit_distance(a, b, i, j1) + 1 {
            lemma_edit_distance_triangle(a, b, c, i, j1, k);
            assert(edit_distance(b, c, j1, k) <= edit_distance(b, c, j1, k1) + 1);
        } else if y == edit_distance(b, c, j1, k) + 1 {
            lemma_edit_distance_triangle(a, b, c, i, j1, k);
            assert(edit_distance(a, b, i, j1) <= edit_distance(a, b, i1, j1) + 1);
        } else {
            lemma_edit_distance_triangle(a, b, c, i1, j1, k1);
        }
    }
}

/// The edit distance is zero exactly between equal texts, does not depend
/// on the order of the texts, is at least the difference of their lengths
/// and at most the longer length (see also `lemma_levenshtein_triangle`).
pub proof fn lemma_levenshtein_laws(a: Seq<char>, b: Seq<char>)
    ensures
        levenshtein_spec(a, b) == 0 <==> a == b,
        levenshtein_spec(a, b) == levenshtein_spec(b, a),
        levenshtein_spec(a, b) >= a.len() - b.len(),
        levenshtein_spec(a, b) >= b.len() - a.len(),
        levenshtein_spec(a, b) <= if a.len() >= b.len() {
            a.len()
        } else {
            b.len()
        },
{
    lemma_edit_distance_same(a, a.len());
    lemma_edit_distance_symmetric(a, b, a.len(), b.len());
    lemma_edit_distance_lower(a, b, a.len(), b.len());
    lemma_edit_distance_bound(a, b, a.len(), b.len());
    if levenshtein_spec(a, b) == 0 {
        lemma_edit_distance_zero(a, b, a.len(), b.len());
        assert(a.take(a.len() as int) =~= a);
        assert(b.take(b.len() as int) =~= b);
    }
}

/// The edit distance satisfies the triangle inequality: going from `a` to
/// `c` costs no more than going through `b`.
pub proof fn lemma_levenshtein_triangle(a: Seq<char>, b: Seq<char>, c: Seq<char>)
    ensures
        levenshtein_spec(a, c) <= levenshtein_spec(a, b) + levenshtein_spec(b, c),
{
    lemma_edit_distance_triangle(a, b, c, a.len(), b.len(), c.len());
}

/// The Levenshtein edit distance between two texts, counted in characters:
/// the least number of single-character insertions, deletions and
/// substitutions that turn `a` into `b`.
pub open spec fn levenshtein_spec(a: Seq<char>, b: Seq<char>) -> nat {
    edit_distance(a, b, a.len(), b.len())
}

/// The Levenshtein edit distance in characters, for "did you mean?"
/// suggestions.
pub fn levenshtein(a: &str, b: &str) -> (d: usize)
    ensures
        d == levenshtein_spec(a@, b@),
{
    let x = chars_of(a);
    let y = chars_of(b);
    let na = x.len();
    let nb = y.len();
    // prev[j] == edit_distance(x, y, i, j) for the row i just finished.
    let mut prev: Vec<u128> = Vec::new();
    prev.push(0);
    let mut j: usize = 0;
    while j < nb
        invariant
            j <= nb,
            nb == y@.len(),
            prev@.len() == j + 1,
            forall|k: int| 0 <= k <= j ==> prev@[k] == edit_distance(x@, y@, 0, k as nat),
        decreases nb - j,
    {
        prev.push((j + 1) as u128);
        j += 1;
    }
    let mut i: usize = 0;
    while i < na
        invariant
            i <= na,
            na == x@.len(),
            nb == y@.len(),
            prev@.len() == nb + 1,
            forall|k: int| 0 <= k <= nb ==> prev@[k] == edit_distance(x@, y@, i as nat, k as nat),
        decreases na - i,
    {
        let mut cur: Vec<u128> = Vec::new();
        cur.push((i + 1) as u128);
        let mut j: usize = 0;
        while j < nb
            invariant
                i < na,
                j <= nb,
                na == x@.len(),
                nb == y@.len(),
                prev@.len() == nb + 1,
                forall|k: int|
                    0 <= k <= nb ==> prev@[k] == edit_distance(x@, y@, i as nat, k as nat),
                cur@.len() == j + 1,
                forall|k: int|
                    0 <= k <= j ==> cur@[k] == edit_distance(x@, y@, (i + 1) as nat, k as nat),
            decreases nb - j,
        {
            proof {
                lemma_edit_distance_bound(x@, y@, i as nat, (j + 1) as nat);
                lemma_edit_distance_bound(x@, y@, (i + 1) as nat, j as nat);
                lemma_edit_distance_bound(x@, y@, i as nat, j as nat);
            }
            let cost: u128 = if x[i] == y[j] {
                0
            } else {
                1
            };
            let up = prev[j + 1] + 1;
            let left = cur[j] + 1;
            let diag = prev[j] + cost;
            let m1 = if up <= left {
                up
            } else {
                left
            };
            let m = if m1 <= diag {
                m1
            } else {
                diag
            };
            cur.push(m);
            j += 1;
        }
        prev = cur;
        i += 1;
    }
    proof {
        lemma_edit_distance_bound(x@, y@, na as nat, nb as nat);
    }
    prev[nb] as usize
}

// ---------------------------------------------------------------------------
// Suggestions
// ---------------------------------------------------------------------------

/// The suggestion text for a known field.
pub open spec fn suggestion_text(k: Seq<char>) -> Seq<char> {
    "did you mean '"@ + k + "'?"@
}

/// Whether `m` is the known field to suggest for `unknown`: within distance 3,
/// no farther than any other, and strictly closer than every earlier one.
pub open spec fn is_best_suggestion(unknown: Seq<char>, known: Seq<&str>, m: int) -> bool {
    &&& 0 <= m < known.len()
    &&& levenshtein_spec(unknown, known[m]@) <= 3
    &&& forall|k: int|
        0 <= k < known.len() ==> levenshtein_spec(unknown, known[m]@) <= levenshtein_spec(
            unknown,
            (#[trigger] known[k])@,
        )
    &&& forall|k: int|
        0 <= k < m ==> levenshtein_spec(unknown, known[m]@) < levenshtein_spec(
            unknown,
            (#[trigger] known[k])@,
        )
}

/// Suggest the closest known field name (if its distance is at most 3).
pub fn suggest_field(unknown: &str, known: &[&str]) -> (r: Option<String>)
    ensures
        match r {
            Some(s) => exists|m: int| #[trigger]
                is_best_suggestion(unknown@, known@, m) && s@ == suggestion_text(known@[m]@),
            None => forall|k: int|
                0 <= k < known@.len() ==> levenshtein_spec(unknown@, (#[trigger] known@[k])@) > 3,
        },
{
    let mut best: Option<usize> = None;
    let mut best_d: usize = 0;
    let mut i: usize = 0;
    while i < known.len()
        invariant
            i <= known@.len(),
            match best {
                Some(m) => {
                    &&& m < i
                    &&& best_d == levenshtein_spec(unknown@, known@[m as int]@)
                    &&& best_d <= 3
                    &&& forall|k: int|
                        0 <= k < i ==> best_d <= levenshtein_spec(
                            unknown@,
                            (#[trigger] known@[k])@,
                        )
                    &&& forall|k: int|
                        0 <= k < m ==> best_d < levenshtein_spec(unknown@, (#[trigger] known@[k])@)
                },
                None => forall|k: int|
                    0 <= k < i ==> levenshtein_spec(unknown@, (#[trigger] known@[k])@) > 3,
            },
        decreases known@.len() - i,
    {
        let d = levenshtein(unknown, known[i]);
        match best {
            Some(_) => {
                if d < best_d {
                    best = Some(i);
                    best_d = d;
                }
            },
            None => {
                if d <= 3 {
                    best = Some(i);
                    best_d = d;
                }
            },
        }
        i += 1;
    }
    match best {
        Some(m) => {
            let mut s = String::from_str("did you mean '");
            s.append(known[m]);
            s.append("'?");
            assert(is_best_suggestion(unknown@, known@, m as int));
            Some(s)
        },
        None => None,
    }
}

// ---------------------------------------------------------------------------
// JSON documents
// ---------------------------------------------------------------------------

/// A JSON value: what validation reads of a configuration document. Numbers
/// are kept as their text; an object's members are kept in the order that
/// the parser gives them (sorted by name, for serde_json's map), each name
/// once.
#[derive(Debug)]
pub enum JsonValue {
    Null,
    Bool(bool),
    Number(String),
    String(String),
    Array(Vec<JsonValue>),
    Object(Vec<(String, JsonValue)>),
}

/// `serde_json::Value`, carried through unchanged.
#[verifier::external_type_specification]
#[verifier::external_body]
pub struct ExSerdeJsonValue(serde_json::Value);

/// What `serde_json::from_str` reads of a text as a JSON document, as a
/// `JsonValue`; `None` when the text is not JSON.
pub uninterp spec fn parsed_json(text: Seq<char>) -> Option<JsonValue>;

/// `serde_json::from_str::<serde_json::Value>`, with the value converted one
/// for one into a `JsonValue` (numbers by their text, object members in the
/// parsed map's order). What it parses is named (`parsed_json`): it depends
/// on the text alone; the parse fails exactly when the name gives `None`.
/// Nothing is claimed of the error's contents.
#[verifier::external_body]
pub(crate) fn parse_json(text: &str) -> (r: Result<JsonValue, serde_json::Error>)
    ensures
        match r {
            Ok(v) => parsed_json(text@) == Some(v),
            Err(_) => parsed_json(text@) is None,
        },
{
    serde_json::from_str::<serde_json::Value>(text).map(|v| json_of_value(&v))
}

/// The one-for-one conversion that `parse_json` applies to what serde_json
/// parsed: each variant to the same variant, numbers by their text.
#[verifier::external_body]
fn json_of_value(v: &serde_json::Value) -> JsonValue {
    match v {
        serde_json::Value::Null => JsonValue::Null,
        serde_json::Value::Bool(b) => JsonValue::Bool(*b),
        serde_json::Value::Number(n) => JsonValue::Number(n.to_string()),
        serde_json::Value::String(s) => JsonValue::String(s.clone()),
        serde_json::Value::Array(a) => JsonValue::Array(a.iter().map(json_of_value).collect()),
        serde_json::Value::Object(o) => JsonValue::Object(o.iter().map(|(k, x)| (k.clone(), json_of_value(x))).collect()),
    }
}

/// The value of the first member named `name`, if any.
pub open spec fn member(entries: Seq<(String, JsonValue)>, name: Seq<char>) -> Option<JsonValue>
    decreases entries.len(),
{
    if entries.len() == 0 {
        None
    } else if entries[0].0@ == name {
        Some(entries[0].1)
    } else {
        member(entries.drop_first(), name)
    }
}

/// Looks up the first member named `name` in an object's members.
pub fn get_member<'a>(entries: &'a Vec<(String, JsonValue)>, name: &str) -> (r: Option<&'a JsonValue>)
    ensures
        match member(entries@, name@) {
            Some(v) => r matches Some(x) && *x == v,
            None => r is None,
        },
{
    let mut i: usize = 0;
    assert(entries@.skip(0) =~= entries@);
    while i < entries.len()
        invariant
            i <= entries@.len(),
            member(entries@, name@) == member(entries@.skip(i as int), name@),
        decreases entries@.len() - i,
    {
        assert(entries@.skip(i as int).drop_first() =~= entries@.skip(i + 1));
        assert(entries@.skip(i as int)[0] == entries@[i as int]);
        if str_eq(entries[i].0.as_str(), name) {
            return Some(&entries[i].1);
        }
        i += 1;
    }
    assert(entries@.skip(i as int).len() == 0);
    None
}

/// Severity of a validation diagnostic.
#[derive(Debug, Clone, Copy, PartialEq, Eq, Structural)]
pub enum DiagnosticLevel {
    Pass,
    Warn,
    Error,
}

/// A validation diagnostic.
#[derive(Debug)]
pub struct Diagnostic {
    pub level: DiagnosticLevel,
    pub path: String,
    pub message: String,
}

impl Diagnostic {
    /// Level, path and message of the diagnostic.
    pub open spec fn parts(self) -> (DiagnosticLevel, Seq<char>, Seq<char>) {
        (self.level, self.path@, self.message@)
    }

    /// The displayed form: `[OK]`, `[WARN]` or `[ERROR]`, then the path and a
    /// colon when there is a path, then the message.
    pub fn to_string(&self) -> (r: String)
        ensures
            r@ == diagnostic_text(*self),
    {
        let mut s = match self.level {
            DiagnosticLevel::Pass => String::from_str("[OK]"),
            DiagnosticLevel::Warn => String::from_str("[WARN]"),
            DiagnosticLevel::Error => String::from_str("[ERROR]"),
        };
        let ghost tag = s@;
        s.append(" ");
        if self.path.as_str().is_empty() {
            s.append(self.message.as_str());
            assert(s@ =~= tag + (" "@ + self.message@));
        } else {
            s.append(self.path.as_str());
            s.append(": ");
            s.append(self.message.as_str());
            assert(s@ =~= tag + (" "@ + self.path@ + ": "@ + self.message@));
        }
        s
    }
}

/// The tag of a diagnostic level.
pub open spec fn level_tag(l: DiagnosticLevel) -> Seq<char> {
    match l {
        DiagnosticLevel::Pass => "[OK]"@,
        DiagnosticLevel::Warn => "[WARN]"@,
        DiagnosticLevel::Error => "[ERROR]"@,
    }
}

/// The names `known_top_level` returns.
pub open spec fn known_top_level_names() -> Seq<&'static str> {
    seq![
        "agents",
        "channels",
        "providers",
        "gateway",
        "tools",
        "memory",
        "heartbeat",
        "skills",
        "runtime",
        "container_agent",
        "swarm",
        "approval",
        "plugins",
        "telemetry",
        "cost",
        "batch",
        "hooks",
        "safety",
        "compaction",
        "mcp",
        "routines",
        "stripe",
        "custom_tools",
        "transcription",
        "tool_profiles",
        "project",
        "cache",
        "agent_mode",
        "pairing",
        "health",
        "devices",
        "logging",
    ]
}

/// Known top-level config field names.
pub fn known_top_level() -> (r: Vec<&'static str>)
    ensures
        r@ == known_top_level_names(),
{
    let r = vec![
        "agents",
        "channels",
        "providers",
        "gateway",
        "tools",
        "memory",
        "heartbeat",
        "skills",
        "runtime",
        "container_agent",
        "swarm",
        "approval",
        "plugins",
        "telemetry",
        "cost",
        "batch",
        "hooks",
        "safety",
        "compaction",
        "mcp",
        "routines",
        "stripe",
        "custom_tools",
        "transcription",
        "tool_profiles",
        "project",
        "cache",
        "agent_mode",
        "pairing",
        "health",
        "devices",
        "logging",
    ];
    assert(r@ =~= known_top_level_names());
    r
}

/// The names `known_agents_defaults` returns.
pub open spec fn known_agents_defaults_names() -> Seq<&'static str> {
    seq![
        "workspace",
        "model",
        "max_tokens",
        "temperature",
        "max_tool_iterations",
        "agent_timeout_secs",
        "message_queue_mode",
        "streaming",
        "token_budget",
        "compact_tools",
        "tool_profile",
    ]
}

/// Known fields of `agents.defaults`.
pub fn known_agents_defaults() -> (r: Vec<&'static str>)
    ensures
        r@ == known_agents_defaults_names(),
{
    let r = vec![
        "workspace",
        "model",
        "max_tokens",
        "temperature",
        "max_tool_iterations",
        "agent_timeout_secs",
        "message_queue_mode",
        "streaming",
        "token_budget",
        "compact_tools",
        "tool_profile",
    ];
    assert(r@ =~= known_agents_defaults_names());
    r
}

/// Whether `name` is one of `known`.
pub open spec fn is_known(known: Seq<&str>, name: Seq<char>) -> bool {
    exists|k: int| 0 <= k < known.len() && (#[trigger] known[k])@ == name
}

fn contains_name(known: &Vec<&str>, name: &str) -> (b: bool)
    ensures
        b == is_known(known@, name@),
{
    let mut i: usize = 0;
    while i < known.len()
        invariant
            i <= known@.len(),
            forall|k: int| 0 <= k < i ==> (#[trigger] known@[k])@ != name@,
        decreases known@.len() - i,
    {
        if str_eq(known[i], name) {
            assert(known@[i as int]@ == name@);
            return true;
        }
        i += 1;
    }
    false
}

/// The message for an unknown field: with a suggestion when one exists.
pub open spec fn unknown_field_message(key: Seq<char>, suggestion: Option<Seq<char>>) -> Seq<char> {
    match suggestion {
        Some(s) => "Unknown field '"@ + key + "' \u{2014} "@ + s,
        None => "Unknown field '"@ + key + "'"@,
    }
}

fn unknown_message(key: &str, suggestion: Option<String>) -> (m: String)
    ensures
        m@ == unknown_field_message(
            key@,
            match suggestion {
                Some(s) => Some(s@),
                None => None,
            },
        ),
{
    let mut m = String::from_str("Unknown field '");
    m.append(key);
    match suggestion {
        Some(s) => {
            m.append("' \u{2014} ");
            m.append(s.as_str());
        },
        None => {
            m.append("'");
        },
    }
    m
}

/// Whether a diagnostic reports the unknown field `key` at `path`, with the
/// message validation gives it against `known`.
pub open spec fn reports_unknown(d: Diagnostic, known: Seq<&str>, key: Seq<char>, path: Seq<char>) -> bool {
    &&& d.level == DiagnosticLevel::Error
    &&& d.path@ == path
    &&& (exists|m: int| #[trigger]
        is_best_suggestion(key, known, m) && d.message@ == unknown_field_message(
            key,
            Some(suggestion_text(known[m]@)),
        )) || ((forall|k: int|
        0 <= k < known.len() ==> levenshtein_spec(key, (#[trigger] known[k])@) > 3)
        && d.message@ == unknown_field_message(key, None))
}

/// The unknown names among `entries`, in order, with their diagnostics
/// appended to `out` (path = `prefix` + name). Returns whether any was found.
fn report_unknown(
    entries: &Vec<(String, JsonValue)>,
    known: &Vec<&str>,
    prefix: &str,
    out: &mut Vec<Diagnostic>,
) -> (found: bool)
    ensures
        found == exists|k: int|
            0 <= k < entries@.len() && !is_known(known@, (#[trigger] entries@[k]).0@),
        final(out)@.len() == old(out)@.len() + entries@.filter(
            |e: (String, JsonValue)| !is_known(known@, e.0@),
        ).len(),
        final(out)@.take(old(out)@.len() as int) == old(out)@,
        forall|k: int|
            0 <= k < entries@.filter(|e: (String, JsonValue)| !is_known(known@, e.0@)).len()
                ==> reports_unknown(
                #[trigger] final(out)@[old(out)@.len() + k],
                known@,
                entries@.filter(|e: (String, JsonValue)| !is_known(known@, e.0@))[k].0@,
                prefix@ + entries@.filter(|e: (String, JsonValue)| !is_known(known@, e.0@))[k].0@,
            ),
{
    let ghost pred = |e: (String, JsonValue)| !is_known(known@, e.0@);
    let ghost start = out@.len();
    let mut found = false;
    let mut i: usize = 0;
    while i < entries.len()
        invariant
            i <= entries@.len(),
            pred == (|e: (String, JsonValue)| !is_known(known@, e.0@)),
            start == old(out)@.len(),
            out@.take(start as int) == old(out)@,
            out@.len() == start + entries@.take(i as int).filter(pred).len(),
            found == exists|k: int| 0 <= k < i && !is_known(known@, (#[trigger] entries@[k]).0@),
            forall|k: int|
                0 <= k < entries@.take(i as int).filter(pred).len() ==> reports_unknown(
                    #[trigger] out@[start + k],
                    known@,
                    entries@.take(i as int).filter(pred)[k].0@,
                    prefix@ + entries@.take(i as int).filter(pred)[k].0@,
                ),
        decreases entries@.len() - i,
    {
        proof {
            crate::seqs::lemma_filter_take_step(entries@, pred, i as int);
        }
        let key = entries[i].0.as_str();
        if !contains_name(known, key) {
            found = true;
            let suggestion = suggest_field(key, known.as_slice());
            let message = unknown_message(key, suggestion);
            let mut path = String::from_str(prefix);
            path.append(key);
            let ghost before = out@;
            out.push(Diagnostic { level: DiagnosticLevel::Error, path, message });
            assert(out@.take(start as int) =~= before.take(start as int));
        }
        i += 1;
    }
    assert(entries@.take(i as int) =~= entries@);
    found
}

/// The channels whose configuration enables them with an empty allow list.
pub open spec fn open_channel(v: JsonValue) -> bool {
    match v {
        JsonValue::Object(fields) => {
            let enabled = match member(fields@, "enabled"@) {
                Some(JsonValue::Bool(b)) => b,
                _ => false,
            };
            let allow = match member(fields@, "allow_from"@) {
                Some(JsonValue::Array(a)) => a@.len(),
                _ => 0,
            };
            enabled && allow == 0
        },
        _ => false,
    }
}

fn is_open_channel(v: &JsonValue) -> (b: bool)
    ensures
        b == open_channel(*v),
{
    match v {
        JsonValue::Object(fields) => {
            let enabled = match get_member(fields, "enabled") {
                Some(JsonValue::Bool(b)) => *b,
                _ => false,
            };
            let allow: usize = match get_member(fields, "allow_from") {
                Some(JsonValue::Array(a)) => a.len(),
                _ => 0,
            };
            enabled && allow == 0
        },
        _ => false,
    }
}

/// The warning for an open channel.
pub open spec fn open_channel_warning(d: Diagnostic, name: Seq<char>) -> bool {
    &&& d.level == DiagnosticLevel::Warn
    &&& d.path@ == "channels."@ + name + ".allow_from"@
    &&& d.message@ == "Empty \u{2014} anyone can message the bot"@
}

/// The fields of `entries` whose names are not in `known`, in order.
pub open spec fn unknown_fields(entries: Seq<(String, JsonValue)>, known: Seq<&str>) -> Seq<(String, JsonValue)> {
    entries.filter(|e: (String, JsonValue)| !is_known(known, e.0@))
}

/// The fields of `agents.defaults` in a config object (none when it is
/// missing or not an object).
pub open spec fn agents_defaults_entries(entries: Seq<(String, JsonValue)>) -> Seq<(String, JsonValue)> {
    match member(entries, "agents"@) {
        Some(JsonValue::Object(a)) => match member(a@, "defaults"@) {
            Some(JsonValue::Object(f)) => f@,
            _ => Seq::empty(),
        },
        _ => Seq::empty(),
    }
}

/// The channels that are enabled with an empty allow list, in order.
pub open spec fn open_channels(entries: Seq<(String, JsonValue)>) -> Seq<(String, JsonValue)> {
    let channels = match member(entries, "channels"@) {
        Some(JsonValue::Object(c)) => c@,
        _ => Seq::empty(),
    };
    channels.filter(|e: (String, JsonValue)| open_channel(e.1))
}

/// Where the open-channel warnings begin: after "Valid JSON", the unknown
/// fields, and "All fields recognized" when there were none.
pub open spec fn warnings_start(entries: Seq<(String, JsonValue)>, top: Seq<&str>, defaults: Seq<&str>) -> int {
    let nt = unknown_fields(entries, top).len();
    let nd = unknown_fields(agents_defaults_entries(entries), defaults).len();
    1 + nt + nd + if nt == 0 && nd == 0 {
        1int
    } else {
        0int
    }
}

/// Whether the diagnostics of a config object are "Valid JSON", then the
/// unknown top-level fields, then the unknown `agents.defaults` fields,
/// then "All fields recognized" when there were none, then the open-channel
/// warnings.
pub open spec fn diagnostics_of_object(
    entries: Seq<(String, JsonValue)>,
    top: Seq<&str>,
    defaults: Seq<&str>,
    d: Seq<Diagnostic>,
) -> bool {
    let unknown_top = unknown_fields(entries, top);
    let unknown_def = unknown_fields(agents_defaults_entries(entries), defaults);
    let open = open_channels(entries);
    let n1: int = 1int + unknown_top.len();
    let n2: int = n1 + unknown_def.len();
    let all_known = unknown_top.len() == 0 && unknown_def.len() == 0;
    let n3: int = warnings_start(entries, top, defaults);
    &&& d.len() == n3 + open.len()
    &&& d[0].parts() == (DiagnosticLevel::Pass, Seq::<char>::empty(), "Valid JSON"@)
    &&& forall|k: int|
        0 <= k < unknown_top.len() ==> reports_unknown(
            #[trigger] d[1 + k],
            top,
            unknown_top[k].0@,
            unknown_top[k].0@,
        )
    &&& forall|k: int|
        0 <= k < unknown_def.len() ==> reports_unknown(
            #[trigger] d[n1 + k],
            defaults,
            unknown_def[k].0@,
            "agents.defaults."@ + unknown_def[k].0@,
        )
    &&& all_known ==> d[n2].parts() == (
        DiagnosticLevel::Pass,
        Seq::<char>::empty(),
        "All fields recognized"@,
    )
    &&& forall|k: int| 0 <= k < open.len() ==> open_channel_warning(#[trigger] d[n3 + k], open[k].0@)
}

/// Whether a diagnostic is an error.
pub open spec fn is_error(d: Diagnostic) -> bool {
    d.level == DiagnosticLevel::Error
}

proof fn lemma_warning_at(d: Seq<Diagnostic>, open: Seq<(String, JsonValue)>, n: int, m: int)
    requires
        0 <= m < open.len(),
        forall|k: int| 0 <= k < open.len() ==> open_channel_warning(#[trigger] d[n + k], open[k].0@),
    ensures
        open_channel_warning(d[n + m], open[m].0@),
{
}

/// Validation of a config object reports an error exactly when a top-level
/// or `agents.defaults` field is unknown, and says "All fields recognized"
/// exactly when it reports no error.
pub proof fn lemma_validate_config_errors(entries: Seq<(String, JsonValue)>, d: Seq<Diagnostic>)
    requires
        diagnostics_of_object(entries, known_top_level_names(), known_agents_defaults_names(), d),
    ensures
        (exists|k: int| 0 <= k < d.len() && is_error(#[trigger] d[k])) <==> ((exists|k: int|
            0 <= k < entries.len() && !is_known(known_top_level_names(), (#[trigger] entries[k]).0@))
            || (exists|k: int|
            0 <= k < agents_defaults_entries(entries).len() && !is_known(
                known_agents_defaults_names(),
                (#[trigger] agents_defaults_entries(entries)[k]).0@,
            ))),
        (exists|k: int|
            0 <= k < d.len() && (#[trigger] d[k]).parts() == (
                DiagnosticLevel::Pass,
                Seq::<char>::empty(),
                "All fields recognized"@,
            )) <==> !(exists|k: int| 0 <= k < d.len() && is_error(#[trigger] d[k])),
{
    let top = known_top_level_names();
    let defaults = known_agents_defaults_names();
    let ut = unknown_fields(entries, top);
    let de = agents_defaults_entries(entries);
    let ud = unknown_fields(de, defaults);
    let open = open_channels(entries);
    crate::seqs::lemma_filter_facts(entries, |e: (String, JsonValue)| !is_known(top, e.0@));
    crate::seqs::lemma_filter_facts(de, |e: (String, JsonValue)| !is_known(defaults, e.0@));
    reveal_strlit("Valid JSON");
    reveal_strlit("All fields recognized");
    let n1: int = 1int + ut.len();
    let n2: int = n1 + ud.len();
    let all_known = ut.len() == 0 && ud.len() == 0;
    let n3: int = warnings_start(entries, top, defaults);
    assert(d.len() == n3 + open.len());
    assert(d[0].parts() == (DiagnosticLevel::Pass, Seq::<char>::empty(), "Valid JSON"@));
    assert forall|k: int| n3 <= k < d.len() implies !is_error(#[trigger] d[k]) && d[k].level
        == DiagnosticLevel::Warn by {
        lemma_warning_at(d, open, n3, k - n3);
    }
    if ut.len() > 0 {
        assert(ut.contains(ut[0]));
        assert(reports_unknown(d[1int + 0int], top, ut[0].0@, ut[0].0@));
        assert(is_error(d[1]));
    } else if ud.len() > 0 {
        assert(ud.contains(ud[0]));
        assert(reports_unknown(d[n1 + 0int], defaults, ud[0].0@, "agents.defaults."@ + ud[0].0@));
        assert(is_error(d[n1]));
    }
    if exists|k: int| 0 <= k < entries.len() && !is_known(top, (#[trigger] entries[k]).0@) {
        let k = choose|k: int| 0 <= k < entries.len() && !is_known(top, (#[trigger] entries[k]).0@);
        assert(ut.contains(entries[k]));
    }
    if exists|k: int| 0 <= k < de.len() && !is_known(defaults, (#[trigger] de[k]).0@) {
        let k = choose|k: int| 0 <= k < de.len() && !is_known(defaults, (#[trigger] de[k]).0@);
        assert(ud.contains(de[k]));
    }
    if all_known {
        assert forall|k: int| 0 <= k < d.len() implies !is_error(#[trigger] d[k]) by {
            if k < n3 {
                assert(k == 0 || k == 1);
            }
        }
        assert(d[n2].parts() == (DiagnosticLevel::Pass, Seq::<char>::empty(), "All fields recognized"@));
    } else {
        assert forall|k: int| 0 <= k < d.len() implies (#[trigger] d[k]).parts() != (
            DiagnosticLevel::Pass,
            Seq::<char>::empty(),
            "All fields recognized"@,
        ) by {
            if k == 0 {
                assert("Valid JSON"@[0] != "All fields recognized"@[0]);
            } else if k < n1 {
                assert(reports_unknown(d[1 + (k - 1)], top, ut[k - 1].0@, ut[k - 1].0@));
            } else if k < n2 {
                assert(reports_unknown(
                    d[n1 + (k - n1)],
                    defaults,
                    ud[k - n1].0@,
                    "agents.defaults."@ + ud[k - n1].0@,
                ));
            }
        }
    }
}

/// Validate a raw JSON config value against known field names.
pub fn validate_config(raw: &JsonValue) -> (r: Vec<Diagnostic>)
    ensures
        match *raw {
            JsonValue::Object(entries) => diagnostics_of_object(
                entries@,
                known_top_level_names(),
                known_agents_defaults_names(),
                r@,
            ),
            _ => r@.len() == 1 && r@[0].parts() == (
                DiagnosticLevel::Error,
                Seq::<char>::empty(),
                "Config must be a JSON object"@,
            ),
        },
{
    let mut out: Vec<Diagnostic> = Vec::new();
    let entries = match raw {
        JsonValue::Object(o) => o,
        _ => {
            out.push(
                Diagnostic {
                    level: DiagnosticLevel::Error,
                    path: String::new(),
                    message: String::from_str("Config must be a JSON object"),
                },
            );
            return out;
        },
    };
    out.push(
        Diagnostic {
            level: DiagnosticLevel::Pass,
            path: String::new(),
            message: String::from_str("Valid JSON"),
        },
    );
    let top = known_top_level();
    let defaults = known_agents_defaults();
    let ghost d0 = out@;
    let unknown_top = report_unknown(entries, &top, "", &mut out);
    let ghost d1 = out@;
    let mut unknown_def = false;
    let empty: Vec<(String, JsonValue)> = Vec::new();
    let def_entries: &Vec<(String, JsonValue)> = match get_member(entries, "agents") {
        Some(JsonValue::Object(a)) => match get_member(a, "defaults") {
            Some(JsonValue::Object(f)) => f,
            _ => &empty,
        },
        _ => &empty,
    };
    unknown_def = report_unknown(def_entries, &defaults, "agents.defaults.", &mut out);
    let ghost d2 = out@;
    if !unknown_top && !unknown_def {
        out.push(
            Diagnostic {
                level: DiagnosticLevel::Pass,
                path: String::new(),
                message: String::from_str("All fields recognized"),
            },
        );
    }
    assert(out@.take(d2.len() as int) =~= d2);
    let ghost d3 = out@;
    let channels: &Vec<(String, JsonValue)> = match get_member(entries, "channels") {
        Some(JsonValue::Object(c)) => c,
        _ => &empty,
    };
    let ghost pred = |e: (String, JsonValue)| open_channel(e.1);
    let mut i: usize = 0;
    while i < channels.len()
        invariant
            i <= channels@.len(),
            pred == (|e: (String, JsonValue)| open_channel(e.1)),
            out@.take(d3.len() as int) == d3,
            out@.len() == d3.len() + channels@.take(i as int).filter(pred).len(),
            forall|k: int|
                0 <= k < channels@.take(i as int).filter(pred).len() ==> open_channel_warning(
                    #[trigger] out@[d3.len() + k],
                    channels@.take(i as int).filter(pred)[k].0@,
                ),
        decreases channels@.len() - i,
    {
        proof {
            crate::seqs::lemma_filter_take_step(channels@, pred, i as int);
        }
        if is_open_channel(&channels[i].1) {
            let mut path = String::from_str("channels.");
            path.append(channels[i].0.as_str());
            path.append(".allow_from");
            let ghost before = out@;
            out.push(
                Diagnostic {
                    level: DiagnosticLevel::Warn,
                    path,
                    message: String::from_str("Empty \u{2014} anyone can message the bot"),
                },
            );
            assert(out@.take(d3.len() as int) =~= before.take(d3.len() as int));
        }
        i += 1;
    }
    assert(channels@.take(i as int) =~= channels@);
    proof {
        crate::seqs::lemma_filter_facts(entries@, |e: (String, JsonValue)| !is_known(top@, e.0@));
        crate::seqs::lemma_filter_facts(
            def_entries@,
            |e: (String, JsonValue)| !is_known(defaults@, e.0@),
        );
        assert forall|k: int| 0 <= k < d1.len() implies out@[k] == d1[k] by {
            lemma_prefix_index(d2, d1, k);
            lemma_prefix_index(d3, d2, k);
            lemma_prefix_index(out@, d3, k);
        }
        assert forall|k: int| 0 <= k < d2.len() implies out@[k] == d2[k] by {
            lemma_prefix_index(d3, d2, k);
            lemma_prefix_index(out@, d3, k);
        }
        assert forall|k: int| 0 <= k < d3.len() implies out@[k] == d3[k] by {
            lemma_prefix_index(out@, d3, k);
        }
        lemma_prefix_index(d1, d0, 0);
        reveal_strlit("");
        let ut = entries@.filter(|e: (String, JsonValue)| !is_known(known_top_level_names(), e.0@));
        assert(ut == entries@.filter(|e: (String, JsonValue)| !is_known(top@, e.0@)));
        assert forall|k: int| 0 <= k < ut.len() implies reports_unknown(
            #[trigger] out@[1 + k],
            known_top_level_names(),
            ut[k].0@,
            ut[k].0@,
        ) by {
            assert(""@ + ut[k].0@ =~= ut[k].0@);
            assert(out@[1 + k] == d1[1 + k]);
        }
        let ud = def_entries@.filter(
            |e: (String, JsonValue)| !is_known(known_agents_defaults_names(), e.0@),
        );
        assert(ud == def_entries@.filter(|e: (String, JsonValue)| !is_known(defaults@, e.0@)));
        assert forall|k: int| 0 <= k < ud.len() implies reports_unknown(
            #[trigger] out@[d1.len() + k],
            known_agents_defaults_names(),
            ud[k].0@,
            "agents.defaults."@ + ud[k].0@,
        ) by {
            assert(out@[d1.len() + k] == d2[d1.len() + k]);
        }
        let sd = match member(entries@, "agents"@) {
            Some(JsonValue::Object(a)) => match member(a@, "defaults"@) {
                Some(JsonValue::Object(f)) => f@,
                _ => Seq::empty(),
            },
            _ => Seq::empty(),
        };
        assert(def_entries@ == sd);
        let sc = match member(entries@, "channels"@) {
            Some(JsonValue::Object(c)) => c@,
            _ => Seq::empty(),
        };
        assert(channels@ == sc);
        if unknown_top {
            let k = choose|k: int|
                0 <= k < entries@.len() && !is_known(top@, (#[trigger] entries@[k]).0@);
            assert(ut.contains(entries@[k]));
        }
        if unknown_def {
            let k = choose|k: int|
                0 <= k < def_entries@.len() && !is_known(defaults@, (#[trigger] def_entries@[k]).0@);
            assert(ud.contains(def_entries@[k]));
        }
        if ut.len() > 0 {
            assert(ut.contains(ut[0]));
        }
        if !unknown_top && !unknown_def {
            assert(out@[d2.len() as int] == d3[d2.len() as int]);
            assert(d3[d2.len() as int].path@ =~= Seq::<char>::empty());
        }
        if ud.len() > 0 {
            assert(ud.contains(ud[0]));
        }
    }
    out
}

/// Validates the text of a configuration file: an error (the parser's
/// message) when it is not JSON, else the diagnostics `validate_config`
/// gives the parsed value.
pub fn check_config_text(content: &str) -> (r: Result<Vec<Diagnostic>, String>)
    ensures
        match parsed_json(content@) {
            None => r is Err,
            Some(JsonValue::Object(es)) => r matches Ok(d) && diagnostics_of_object(
                es@,
                known_top_level_names(),
                known_agents_defaults_names(),
                d@,
            ),
            Some(_) => r matches Ok(d) && d@.len() == 1 && d@[0].parts() == (
                DiagnosticLevel::Error,
                Seq::<char>::empty(),
                "Config must be a JSON object"@,
            ),
        },
{
    match parse_json(content) {
        Ok(v) => Ok(validate_config(&v)),
        Err(e) => Err(crate::error::json_error_text(&e)),
    }
}

// ---------------------------------------------------------------------------
// Custom tools
// ---------------------------------------------------------------------------

/// Whether a tool name matches `^[a-zA-Z][a-zA-Z0-9_]*$`: an ASCII letter,
/// then ASCII letters, digits and underscores.
pub open spec fn valid_tool_name(name: Seq<char>) -> bool {
    &&& name.len() > 0
    &&& (('a' <= name[0] && name[0] <= 'z') || ('A' <= name[0] && name[0] <= 'Z'))
    &&& forall|i: int|
        1 <= i < name.len() ==> {
            let c = #[trigger] name[i];
            ('a' <= c && c <= 'z') || ('A' <= c && c <= 'Z') || ('0' <= c && c <= '9') || c == '_'
        }
}

/// The pattern custom tool names must match.
pub const TOOL_NAME_PATTERN: &'static str = "^[a-zA-Z][a-zA-Z0-9_]*$";

/// `regex::Regex::new(pattern)` then `is_match(text)`, for the tool name
/// pattern only. Claims what that pattern means in the regex crate's syntax
/// (`^`/`$` anchor at the ends of the whole text; the classes are ASCII
/// ranges); the pattern is valid, so building it does not fail.
#[verifier::external_body]
fn regex_is_match(pattern: &str, text: &str) -> (b: bool)
    requires
        pattern@ == "^[a-zA-Z][a-zA-Z0-9_]*$"@,
    ensures
        b == valid_tool_name(text@),
{
    regex::Regex::new(pattern).unwrap().is_match(text)
}

/// The names `builtin_tool_names` returns.
pub open spec fn builtin_tool_names_spec() -> Seq<&'static str> {
    seq![
        "echo",
        "read_file",
        "write_file",
        "list_dir",
        "edit_file",
        "shell",
        "web_search",
        "web_fetch",
        "message",
        "memory_search",
        "memory_get",
        "longterm_memory",
        "whatsapp_send",
        "google_sheets",
        "cron",
        "spawn",
        "delegate",
        "r8r",
    ]
}

/// Built-in tool names that custom tools may not reuse.
pub fn builtin_tool_names() -> (r: Vec<&'static str>)
    ensures
        r@ == builtin_tool_names_spec(),
{
    let r = vec![
        "echo",
        "read_file",
        "write_file",
        "list_dir",
        "edit_file",
        "shell",
        "web_search",
        "web_fetch",
        "message",
        "memory_search",
        "memory_get",
        "longterm_memory",
        "whatsapp_send",
        "google_sheets",
        "cron",
        "spawn",
        "delegate",
        "r8r",
    ];
    assert(r@ =~= builtin_tool_names_spec());
    r
}

/// The warnings for one custom tool definition at position `i`, in order.
pub open spec fn tool_warnings(i: nat, t: CustomToolDef, builtins: Seq<&str>) -> Seq<Seq<char>> {
    let head = "custom_tools["@ + decimal(i) + "]: "@;
    let w1 = if !valid_tool_name(t.name@) {
        seq![
            head + "name '"@ + t.name@
                + "' invalid \u{2014} must start with a letter and contain only letters, digits, and underscores"@,
        ]
    } else {
        Seq::empty()
    };
    let w2 = if is_known(builtins, t.name@) {
        seq![head + "name '"@ + t.name@ + "' conflicts with built-in tool"@]
    } else {
        Seq::empty()
    };
    let w3 = if trim(t.command@).len() == 0 {
        seq![head + "command must not be empty"@]
    } else {
        Seq::empty()
    };
    let w4 = if utf8_len(t.description@) > 60 {
        seq![
            head + "description exceeds 60 chars ("@ + decimal(utf8_len(t.description@))
                + "). Shorter descriptions save tokens."@,
        ]
    } else {
        Seq::empty()
    };
    w1 + w2 + w3 + w4
}

/// The warnings for the tools at positions `0..n`.
pub open spec fn tools_warnings(tools: Seq<CustomToolDef>, n: nat, builtins: Seq<&str>) -> Seq<Seq<char>>
    decreases n,
{
    if n == 0 {
        Seq::empty()
    } else {
        tools_warnings(tools, (n - 1) as nat, builtins) + tool_warnings(
            (n - 1) as nat,
            tools[n - 1],
            builtins,
        )
    }
}

fn push_view(out: &mut Vec<String>, s: String)
    ensures
        final(out)@.map_values(|x: String| x@) == old(out)@.map_values(|x: String| x@).push(s@),
{
    out.push(s);
    assert(out@.map_values(|x: String| x@) =~= old(out)@.map_values(|x: String| x@).push(s@));
}

/// Validate custom tool definitions.
pub fn validate_custom_tools(custom_tools: &Vec<CustomToolDef>) -> (r: Vec<String>)
    ensures
        r@.map_values(|x: String| x@) == tools_warnings(
            custom_tools@,
            custom_tools@.len() as nat,
            builtin_tool_names_spec(),
        ),
{
    let builtins = builtin_tool_names();
    let mut out: Vec<String> = Vec::new();
    let mut i: usize = 0;
    assert(out@.map_values(|x: String| x@) =~= Seq::<Seq<char>>::empty());
    while i < custom_tools.len()
        invariant
            i <= custom_tools@.len(),
            builtins@ == builtin_tool_names_spec(),
            out@.map_values(|x: String| x@) == tools_warnings(custom_tools@, i as nat, builtins@),
        decreases custom_tools@.len() - i,
    {
        let tool = &custom_tools[i];
        let ghost acc0 = out@.map_values(|x: String| x@);
        let mut head = String::from_str("custom_tools[");
        let idx = decimal_text(i as u64);
        head.append(idx.as_str());
        head.append("]: ");
        let ghost h = head@;
        let ghost t = *tool;
        if !regex_is_match(TOOL_NAME_PATTERN, tool.name.as_str()) {
            let mut w = String::from_str(head.as_str());
            w.append("name '");
            w.append(tool.name.as_str());
            w.append(
                "' invalid \u{2014} must start with a letter and contain only letters, digits, and underscores",
            );
            push_view(&mut out, w);
        }
        let ghost acc1 = out@.map_values(|x: String| x@);
        if contains_name(&builtins, tool.name.as_str()) {
            let mut w = String::from_str(head.as_str());
            w.append("name '");
            w.append(tool.name.as_str());
            w.append("' conflicts with built-in tool");
            push_view(&mut out, w);
        }
        let ghost acc2 = out@.map_values(|x: String| x@);
        let cmd = trimmed(tool.command.as_str());
        if cmd.as_str().is_empty() {
            let mut w = String::from_str(head.as_str());
            w.append("command must not be empty");
            push_view(&mut out, w);
        }
        let ghost acc3 = out@.map_values(|x: String| x@);
        let dlen = tool.description.as_str().as_bytes().len();
        if dlen > 60 {
            let mut w = String::from_str(head.as_str());
            w.append("description exceeds 60 chars (");
            let n = decimal_text(dlen as u64);
            w.append(n.as_str());
            w.append("). Shorter descriptions save tokens.");
            push_view(&mut out, w);
        }
        proof {
            let tw = tool_warnings(i as nat, t, builtins@);
            assert(h == "custom_tools["@ + decimal(i as nat) + "]: "@);
            let w1 = if !valid_tool_name(t.name@) {
                seq![
                    h + "name '"@ + t.name@
                        + "' invalid \u{2014} must start with a letter and contain only letters, digits, and underscores"@,
                ]
            } else {
                Seq::empty()
            };
            let w2 = if is_known(builtins@, t.name@) {
                seq![h + "name '"@ + t.name@ + "' conflicts with built-in tool"@]
            } else {
                Seq::empty()
            };
            let w3 = if trim(t.command@).len() == 0 {
                seq![h + "command must not be empty"@]
            } else {
                Seq::empty()
            };
            let w4 = if utf8_len(t.description@) > 60 {
                seq![
                    h + "description exceeds 60 chars ("@ + decimal(utf8_len(t.description@))
                        + "). Shorter descriptions save tokens."@,
                ]
            } else {
                Seq::empty()
            };
            assert(tw == w1 + w2 + w3 + w4);
            assert(acc1 =~= acc0 + w1);
            assert(acc2 =~= acc1 + w2);
            assert(acc3 =~= acc2 + w3);
            assert(out@.map_values(|x: String| x@) =~= acc3 + w4);
            assert(out@.map_values(|x: String| x@) =~= acc0 + tw);
            assert(tools_warnings(custom_tools@, (i + 1) as nat, builtins@) == tools_warnings(
                custom_tools@,
                i as nat,
                builtins@,
            ) + tw);
        }
        i += 1;
    }
    out
}

// ---------------------------------------------------------------------------
// `config check`
// ---------------------------------------------------------------------------

/// The displayed form of a diagnostic.
pub open spec fn diagnostic_text(d: Diagnostic) -> Seq<char> {
    level_tag(d.level) + (if d.path@.len() == 0 {
        " "@ + d.message@
    } else {
        " "@ + d.path@ + ": "@ + d.message@
    })
}

/// How many diagnostics have the given level.
pub open spec fn count_level(s: Seq<Diagnostic>, l: DiagnosticLevel) -> nat
    decreases s.len(),
{
    if s.len() == 0 {
        0
    } else {
        count_level(s.drop_last(), l) + (if s.last().level == l {
            1nat
        } else {
            0nat
        })
    }
}

/// The hint printed when a workspace exists but the coding tools are off.
pub open spec fn coding_hint() -> Seq<char> {
    "[hint] Workspace is set but coding tools (grep, find) are disabled. Enable with `tools.coding_tools: true` or use `--template coder`."@
}

/// The closing line of `config check`.
pub open spec fn check_summary_line(errors: nat, warnings: nat) -> Seq<char> {
    if errors == 0 && warnings == 0 {
        "\nConfiguration looks good!"@
    } else {
        "\nFound "@ + decimal(errors) + " error(s), "@ + decimal(warnings) + " warning(s)"@
    }
}

/// What `config check` prints for the diagnostics of the configuration
/// document and the warnings about its custom tools: each diagnostic, each
/// tool warning, the coding tools hint when it applies, and the count of
/// errors and warnings.
pub open spec fn config_check_lines(
    diags: Seq<Diagnostic>,
    tool_warnings: Seq<Seq<char>>,
    workspace_exists: bool,
    coding_tools: bool,
) -> Seq<Seq<char>> {
    diags.map_values(|d: Diagnostic| diagnostic_text(d)) + tool_warnings.map_values(|w: Seq<char>| "[WARN] "@ + w)
        + (if workspace_exists && !coding_tools {
        seq![coding_hint()]
    } else {
        Seq::empty()
    }) + seq![
        check_summary_line(
            count_level(diags, DiagnosticLevel::Error),
            count_level(diags, DiagnosticLevel::Warn) + tool_warnings.len(),
        ),
    ]
}

/// The message when a configuration has errors.
pub open spec fn check_failed_text(errors: nat) -> Seq<char> {
    "Configuration validation failed with "@ + decimal(errors) + " error(s)"@
}

/// The result of `config check`: the lines to print, and whether the check
/// fails.
pub struct ConfigCheck {
    pub lines: Vec<String>,
    pub outcome: Result<(), String>,
}

proof fn lemma_count_level_bound(s: Seq<Diagnostic>, l: DiagnosticLevel)
    ensures
        count_level(s, l) <= s.len(),
    decreases s.len(),
{
    if s.len() > 0 {
        lemma_count_level_bound(s.drop_last(), l);
    }
}

/// The lines and outcome of `config check`: it fails, naming the number of
/// errors, exactly when a diagnostic is an error.
pub fn config_check(
    diagnostics: &Vec<Diagnostic>,
    tool_warnings: &Vec<String>,
    workspace_exists: bool,
    coding_tools: bool,
) -> (r: ConfigCheck)
    requires
        diagnostics@.len() + tool_warnings@.len() <= u64::MAX,
    ensures
        r.lines@.map_values(|x: String| x@) == config_check_lines(
            diagnostics@,
            tool_warnings@.map_values(|x: String| x@),
            workspace_exists,
            coding_tools,
        ),
        count_level(diagnostics@, DiagnosticLevel::Error) == 0 ==> r.outcome is Ok,
        count_level(diagnostics@, DiagnosticLevel::Error) > 0 ==> (r.outcome matches Err(m) && m@
            == check_failed_text(count_level(diagnostics@, DiagnosticLevel::Error))),
{
    let ghost ds = diagnostics@;
    let ghost ws = tool_warnings@.map_values(|x: String| x@);
    let mut lines: Vec<String> = Vec::new();
    let mut errors: u64 = 0;
    let mut warnings: u64 = 0;
    let mut i: usize = 0;
    while i < diagnostics.len()
        invariant
            i <= ds.len(),
            ds == diagnostics@,
            ds.len() + tool_warnings@.len() <= u64::MAX,
            lines@.map_values(|x: String| x@) == ds.take(i as int).map_values(|d: Diagnostic| diagnostic_text(d)),
            errors == count_level(ds.take(i as int), DiagnosticLevel::Error),
            warnings == count_level(ds.take(i as int), DiagnosticLevel::Warn),
        decreases ds.len() - i,
    {
        proof {
            lemma_count_level_bound(ds.take(i as int), DiagnosticLevel::Error);
            lemma_count_level_bound(ds.take(i as int), DiagnosticLevel::Warn);
            assert(ds.take(i + 1).drop_last() =~= ds.take(i as int));
        }
        let d = &diagnostics[i];
        match d.level {
            DiagnosticLevel::Error => errors = errors + 1,
            DiagnosticLevel::Warn => warnings = warnings + 1,
            DiagnosticLevel::Pass => {},
        }
        let ghost before = lines@;
        lines.push(d.to_string());
        assert(lines@.map_values(|x: String| x@) =~= before.map_values(|x: String| x@).push(diagnostic_text(*d)));
        assert(ds.take(i + 1).map_values(|d: Diagnostic| diagnostic_text(d)) =~= ds.take(i as int).map_values(
            |d: Diagnostic| diagnostic_text(d),
        ).push(diagnostic_text(ds[i as int])));
        i += 1;
    }
    assert(ds.take(i as int) =~= ds);
    proof {
        lemma_count_level_bound(ds, DiagnosticLevel::Warn);
    }
    let ghost head = lines@.map_values(|x: String| x@);
    let mut k: usize = 0;
    while k < tool_warnings.len()
        invariant
            k <= tool_warnings@.len(),
            ws == tool_warnings@.map_values(|x: String| x@),
            lines@.map_values(|x: String| x@) == head + ws.take(k as int).map_values(|w: Seq<char>| "[WARN] "@ + w),
        decreases tool_warnings@.len() - k,
    {
        let mut l = String::from_str("[WARN] ");
        l.append(tool_warnings[k].as_str());
        let ghost before = lines@;
        lines.push(l);
        assert(lines@.map_values(|x: String| x@) =~= before.map_values(|x: String| x@).push(
            "[WARN] "@ + tool_warnings@[k as int]@,
        ));
        assert(ws.take(k + 1).map_values(|w: Seq<char>| "[WARN] "@ + w) =~= ws.take(k as int).map_values(
            |w: Seq<char>| "[WARN] "@ + w,
        ).push("[WARN] "@ + ws[k as int]));
        k += 1;
    }
    assert(ws.take(k as int) =~= ws);
    let ghost mid = lines@.map_values(|x: String| x@);
    if workspace_exists && !coding_tools {
        lines.push(
            String::from_str(
                "[hint] Workspace is set but coding tools (grep, find) are disabled. Enable with `tools.coding_tools: true` or use `--template coder`.",
            ),
        );
        assert(lines@.map_values(|x: String| x@) =~= mid + seq![coding_hint()]);
    } else {
        assert(lines@.map_values(|x: String| x@) =~= mid + Seq::<Seq<char>>::empty());
    }
    let ghost tail = lines@.map_values(|x: String| x@);
    let all_warnings = warnings + tool_warnings.len() as u64;
    let summary = if errors == 0 && all_warnings == 0 {
        String::from_str("\nConfiguration looks good!")
    } else {
        let mut t = String::from_str("\nFound ");
        let e = decimal_text(errors);
        t.append(e.as_str());
        t.append(" error(s), ");
        let w = decimal_text(all_warnings);
        t.append(w.as_str());
        t.append(" warning(s)");
        t
    };
    lines.push(summary);
    assert(lines@.map_values(|x: String| x@) =~= tail.push(
        check_summary_line(count_level(ds, DiagnosticLevel::Error), count_level(ds, DiagnosticLevel::Warn) + ws.len()),
    ));
    let outcome = if errors > 0 {
        let mut m = String::from_str("Configuration validation failed with ");
        let e = decimal_text(errors);
        m.append(e.as_str());
        m.append(" error(s)");
        Err(m)
    } else {
        Ok(())
    };
    ConfigCheck { lines, outcome }
}

} // verus!
