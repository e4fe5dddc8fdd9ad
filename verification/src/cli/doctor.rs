//! Doctor: the diagnostics' severities, the checks (from configuration
//! values and from what was found on the machine), and the report.

use vstd::prelude::*;
use crate::cli::slash::pad_right;
use crate::text::chars_of;
use crate::text::decimal;
use crate::text::decimal_text;
use crate::text::push_char;
use crate::text::str_eq;

verus! {

/// Severity of a diagnostic.
#[derive(Debug, Clone, Copy, PartialEq, Eq, Structural)]
pub enum Severity {
    /// The check passed.
    Pass,
    Warn,
    /// The check failed.
    Fail,
}

/// The tag of a severity.
pub open spec fn severity_icon(s: Severity) -> Seq<char> {
    match s {
        Severity::Pass => "[ok]"@,
        Severity::Warn => "[warn]"@,
        Severity::Fail => "[ERR]"@,
    }
}

impl Severity {
    pub fn icon(&self) -> (r: &'static str)
        ensures
            r@ == severity_icon(*self),
    {
        match self {
            Severity::Pass => "[ok]",
            Severity::Warn => "[warn]",
            Severity::Fail => "[ERR]",
        }
    }
}

/// One diagnostic.
pub struct DiagItem {
    pub severity: Severity,
    pub category: &'static str,
    pub message: String,
}

fn push_diag(diags: &mut Vec<DiagItem>, severity: Severity, category: &'static str, message: String)
    ensures
        final(diags)@.len() == old(diags)@.len() + 1,
        forall|i: int| 0 <= i < old(diags)@.len() ==> final(diags)@[i] == old(diags)@[i],
        final(diags)@.last().severity == severity,
        final(diags)@.last().category@ == category@,
        final(diags)@.last().message@ == message@,
{
    diags.push(DiagItem { severity, category, message });
}

/// Whether a provider has a non-empty API key.
pub open spec fn has_api_key(key: Option<String>) -> bool {
    match key {
        Some(k) => k@.len() > 0,
        None => false,
    }
}

/// Checks the named providers' API keys (`(label, key)` pairs, a missing
/// provider having no key): one "configured" item per provider with a key,
/// or one warning when none has one.
pub fn check_providers(providers: &Vec<(&'static str, Option<String>)>, diags: &mut Vec<DiagItem>)
    ensures
        forall|i: int| 0 <= i < old(diags)@.len() ==> final(diags)@[i] == old(diags)@[i],
        ({
            let configured = providers@.filter(|p: (&'static str, Option<String>)| has_api_key(p.1));
            &&& configured.len() > 0 ==> final(diags)@.len() == old(diags)@.len() + configured.len()
                && forall|k: int|
                0 <= k < configured.len() ==> #[trigger] final(diags)@[old(diags)@.len() + k].severity
                    == Severity::Pass && final(diags)@[old(diags)@.len() + k].category@
                    == "providers"@ && final(diags)@[old(diags)@.len() + k].message@
                    == configured[k].0@ + " API key configured"@
            &&& configured.len() == 0 ==> final(diags)@.len() == old(diags)@.len() + 1
                && final(diags)@.last().severity == Severity::Warn
                && final(diags)@.last().category@ == "providers"@
                && final(diags)@.last().message@
                == "No provider API keys configured \u{2014} add at least one to use the agent"@
        }),
{
    let ghost pred = |p: (&'static str, Option<String>)| has_api_key(p.1);
    let ghost start = diags@.len();
    let ghost orig = diags@;
    let mut any = false;
    let mut i: usize = 0;
    while i < providers.len()
        invariant
            i <= providers@.len(),
            pred == (|p: (&'static str, Option<String>)| has_api_key(p.1)),
            start == orig.len(),
            orig == old(diags)@,
            diags@.len() == start + providers@.take(i as int).filter(pred).len(),
            forall|j: int| 0 <= j < start ==> diags@[j] == orig[j],
            any == (providers@.take(i as int).filter(pred).len() > 0),
            forall|k: int|
                0 <= k < providers@.take(i as int).filter(pred).len() ==> #[trigger] diags@[start
                    + k].severity == Severity::Pass && diags@[start + k].category@ == "providers"@
                    && diags@[start + k].message@ == providers@.take(i as int).filter(pred)[k].0@
                    + " API key configured"@,
        decreases providers@.len() - i,
    {
        proof {
            crate::seqs::lemma_filter_take_step(providers@, pred, i as int);
        }
        let has = match &providers[i].1 {
            Some(k) => !k.as_str().is_empty(),
            None => false,
        };
        if has {
            let mut m = String::from_str(providers[i].0);
            m.append(" API key configured");
            push_diag(diags, Severity::Pass, "providers", m);
            any = true;
        }
        i += 1;
    }
    assert(providers@.take(i as int) =~= providers@);
    if !any {
        push_diag(
            diags,
            Severity::Warn,
            "providers",
            String::from_str("No provider API keys configured \u{2014} add at least one to use the agent"),
        );
    }
}

/// A chat channel's configuration as the checks read it: whether it is
/// enabled and its token.
pub struct ChannelFacts {
    pub enabled: bool,
    pub token: String,
}

/// The item for one configured channel, if it is enabled.
pub open spec fn channel_item(c: Option<ChannelFacts>, empty_msg: Seq<char>, ok_msg: Seq<char>) -> Seq<
    (Severity, Seq<char>),
> {
    match c {
        Some(f) => if f.enabled {
            if f.token@.len() == 0 {
                seq![(Severity::Fail, empty_msg)]
            } else {
                seq![(Severity::Pass, ok_msg)]
            }
        } else {
            Seq::empty()
        },
        None => Seq::empty(),
    }
}

/// The channel items: Telegram's, Discord's, then a warning when neither is
/// enabled.
pub open spec fn channel_items(telegram: Option<ChannelFacts>, discord: Option<ChannelFacts>) -> Seq<
    (Severity, Seq<char>),
> {
    let t = channel_item(telegram, "Telegram enabled but bot token is empty"@, "Telegram configured"@);
    let d = channel_item(discord, "Discord enabled but token is empty"@, "Discord configured"@);
    if t.len() == 0 && d.len() == 0 {
        seq![(Severity::Warn, "No channels enabled (CLI-only mode)"@)]
    } else {
        t + d
    }
}

/// The severities and messages of diagnostics.
pub open spec fn diag_parts(d: Seq<DiagItem>) -> Seq<(Severity, Seq<char>)> {
    d.map_values(|x: DiagItem| (x.severity, x.message@))
}

fn check_channel(
    c: &Option<ChannelFacts>,
    empty_msg: &str,
    ok_msg: &str,
    diags: &mut Vec<DiagItem>,
) -> (enabled: bool)
    ensures
        diag_parts(final(diags)@) == diag_parts(old(diags)@) + channel_item(*c, empty_msg@, ok_msg@),
        enabled == (channel_item(*c, empty_msg@, ok_msg@).len() > 0),
        forall|i: int| old(diags)@.len() <= i < final(diags)@.len() ==> (#[trigger] final(diags)@[i]).category@ == "channels"@,
        forall|i: int| 0 <= i < old(diags)@.len() ==> final(diags)@[i] == old(diags)@[i],
{
    let ghost before = diags@;
    match c {
        Some(f) => {
            if f.enabled {
                if f.token.as_str().is_empty() {
                    push_diag(diags, Severity::Fail, "channels", String::from_str(empty_msg));
                } else {
                    push_diag(diags, Severity::Pass, "channels", String::from_str(ok_msg));
                }
                assert(diag_parts(diags@) =~= diag_parts(before) + channel_item(*c, empty_msg@, ok_msg@));
                true
            } else {
                assert(diag_parts(diags@) =~= diag_parts(before) + channel_item(*c, empty_msg@, ok_msg@));
                false
            }
        },
        None => {
            assert(diag_parts(diags@) =~= diag_parts(before) + channel_item(*c, empty_msg@, ok_msg@));
            false
        },
    }
}

/// Checks the chat channels' configuration.
pub fn check_channels(
    telegram: &Option<ChannelFacts>,
    discord: &Option<ChannelFacts>,
    diags: &mut Vec<DiagItem>,
)
    ensures
        diag_parts(final(diags)@) == diag_parts(old(diags)@) + channel_items(*telegram, *discord),
        forall|i: int| old(diags)@.len() <= i < final(diags)@.len() ==> (#[trigger] final(diags)@[i]).category@ == "channels"@,
        forall|i: int| 0 <= i < old(diags)@.len() ==> final(diags)@[i] == old(diags)@[i],
{
    let ghost d0 = diags@;
    let t = check_channel(telegram, "Telegram enabled but bot token is empty", "Telegram configured", diags);
    let d = check_channel(discord, "Discord enabled but token is empty", "Discord configured", diags);
    if !t && !d {
        let ghost before = diags@;
        push_diag(diags, Severity::Warn, "channels", String::from_str("No channels enabled (CLI-only mode)"));
        assert(diag_parts(diags@) =~= diag_parts(before).push(
            (Severity::Warn, "No channels enabled (CLI-only mode)"@),
        ));
        assert(diag_parts(before) =~= diag_parts(d0));
    }
    assert(diag_parts(diags@) =~= diag_parts(d0) + channel_items(*telegram, *discord));
}

/// How many diagnostics have severity `s`.
pub open spec fn count_severity(d: Seq<DiagItem>, s: Severity) -> nat {
    d.filter(|x: DiagItem| x.severity == s).len()
}

/// The summary counts: passed, warnings, errors.
pub fn severity_counts(diags: &Vec<DiagItem>) -> (r: (usize, usize, usize))
    ensures
        r.0 == count_severity(diags@, Severity::Pass),
        r.1 == count_severity(diags@, Severity::Warn),
        r.2 == count_severity(diags@, Severity::Fail),
{
    let ghost p0 = |x: DiagItem| x.severity == Severity::Pass;
    let ghost p1 = |x: DiagItem| x.severity == Severity::Warn;
    let ghost p2 = |x: DiagItem| x.severity == Severity::Fail;
    let mut ok: usize = 0;
    let mut warn: usize = 0;
    let mut err: usize = 0;
    let mut i: usize = 0;
    while i < diags.len()
        invariant
            i <= diags@.len(),
            p0 == (|x: DiagItem| x.severity == Severity::Pass),
            p1 == (|x: DiagItem| x.severity == Severity::Warn),
            p2 == (|x: DiagItem| x.severity == Severity::Fail),
            ok == diags@.take(i as int).filter(p0).len(),
            warn == diags@.take(i as int).filter(p1).len(),
            err == diags@.take(i as int).filter(p2).len(),
            ok + warn + err == i,
        decreases diags@.len() - i,
    {
        proof {
            crate::seqs::lemma_filter_take_step(diags@, p0, i as int);
            crate::seqs::lemma_filter_take_step(diags@, p1, i as int);
            crate::seqs::lemma_filter_take_step(diags@, p2, i as int);
        }
        match diags[i].severity {
            Severity::Pass => ok += 1,
            Severity::Warn => warn += 1,
            Severity::Fail => err += 1,
        }
        i += 1;
    }
    assert(diags@.take(i as int) =~= diags@);
    (ok, warn, err)
}

/// Records that the configuration loaded.
pub fn check_config_loaded(diags: &mut Vec<DiagItem>)
    ensures
        final(diags)@.len() == old(diags)@.len() + 1,
        forall|i: int| 0 <= i < old(diags)@.len() ==> final(diags)@[i] == old(diags)@[i],
        final(diags)@.last().severity == Severity::Pass,
        final(diags)@.last().category@ == "config"@,
        final(diags)@.last().message@ == "Configuration loaded successfully"@,
{
    push_diag(diags, Severity::Pass, "config", String::from_str("Configuration loaded successfully"));
}

/// Records whether a binary was found on the `PATH`.
pub fn check_binary(name: &str, found: bool, diags: &mut Vec<DiagItem>)
    ensures
        final(diags)@.len() == old(diags)@.len() + 1,
        forall|i: int| 0 <= i < old(diags)@.len() ==> final(diags)@[i] == old(diags)@[i],
        final(diags)@.last().category@ == "environment"@,
        found ==> final(diags)@.last().severity == Severity::Pass && final(diags)@.last().message@
            == name@ + " found"@,
        !found ==> final(diags)@.last().severity == Severity::Warn && final(diags)@.last().message@
            == name@ + " not found in PATH"@,
{
    let mut m = String::from_str(name);
    if found {
        m.append(" found");
        push_diag(diags, Severity::Pass, "environment", m);
    } else {
        m.append(" not found in PATH");
        push_diag(diags, Severity::Warn, "environment", m);
    }
}

/// Records whether the workspace exists and can be written (`written` is
/// the outcome of writing a probe file, with the error's text).
pub fn check_workspace_writable(path: &str, exists: bool, written: Result<(), String>, diags: &mut Vec<DiagItem>)
    ensures
        final(diags)@.len() == old(diags)@.len() + 1,
        forall|i: int| 0 <= i < old(diags)@.len() ==> final(diags)@[i] == old(diags)@[i],
        final(diags)@.last().category@ == "workspace"@,
        !exists ==> final(diags)@.last().severity == Severity::Fail && final(diags)@.last().message@
            == "Workspace directory does not exist: "@ + path@,
        exists && written is Ok ==> final(diags)@.last().severity == Severity::Pass
            && final(diags)@.last().message@ == "Workspace writable: "@ + path@,
        exists ==> match written {
            Err(e) => final(diags)@.last().severity == Severity::Fail && final(diags)@.last().message@
                == "Workspace not writable: "@ + path@ + " ("@ + e@ + ")"@,
            Ok(_) => true,
        },
{
    if !exists {
        let mut m = String::from_str("Workspace directory does not exist: ");
        m.append(path);
        push_diag(diags, Severity::Fail, "workspace", m);
        return;
    }
    match written {
        Ok(()) => {
            let mut m = String::from_str("Workspace writable: ");
            m.append(path);
            push_diag(diags, Severity::Pass, "workspace", m);
        },
        Err(e) => {
            let mut m = String::from_str("Workspace not writable: ");
            m.append(path);
            m.append(" (");
            m.append(e.as_str());
            m.append(")");
            push_diag(diags, Severity::Fail, "workspace", m);
        },
    }
}

/// Records whether the long-term memory file can be read (`read` is the
/// outcome of reading it when it exists, with the error's text).
pub fn check_memory(file_exists: bool, read: Result<(), String>, diags: &mut Vec<DiagItem>)
    ensures
        final(diags)@.len() == old(diags)@.len() + 1,
        forall|i: int| 0 <= i < old(diags)@.len() ==> final(diags)@[i] == old(diags)@[i],
        final(diags)@.last().category@ == "memory"@,
        !file_exists ==> final(diags)@.last().severity == Severity::Pass && final(diags)@.last().message@
            == "No long-term memory file yet (created on first use)"@,
        file_exists && read is Ok ==> final(diags)@.last().severity == Severity::Pass
            && final(diags)@.last().message@ == "Long-term memory file readable"@,
        file_exists ==> match read {
            Err(e) => final(diags)@.last().severity == Severity::Fail && final(diags)@.last().message@
                == "Long-term memory file unreadable: "@ + e@,
            Ok(_) => true,
        },
{
    if !file_exists {
        push_diag(
            diags,
            Severity::Pass,
            "memory",
            String::from_str("No long-term memory file yet (created on first use)"),
        );
        return;
    }
    match read {
        Ok(()) => push_diag(diags, Severity::Pass, "memory", String::from_str("Long-term memory file readable")),
        Err(e) => {
            let mut m = String::from_str("Long-term memory file unreadable: ");
            m.append(e.as_str());
            push_diag(diags, Severity::Fail, "memory", m);
        },
    }
}

/// The line of a diagnostic: its tag and category padded into columns.
pub open spec fn diag_line(d: DiagItem) -> Seq<char> {
    pad_right(severity_icon(d.severity), 6) + " "@ + pad_right(d.category@, 14) + " "@ + d.message@
}

/// The lines of the diagnostics, with a blank line before each change of
/// (non-empty) category.
pub open spec fn report_body(d: Seq<DiagItem>) -> Seq<char>
    decreases d.len(),
{
    if d.len() == 0 {
        Seq::empty()
    } else {
        let prev = d.drop_last();
        report_body(prev) + (if prev.len() > 0 && d.last().category@ != prev.last().category@
            && prev.last().category@.len() > 0 {
            "\n"@
        } else {
            Seq::empty()
        }) + diag_line(d.last()) + "\n"@
    }
}

/// The doctor's report: a title, the diagnostics, and the counts.
pub open spec fn doctor_report_spec(d: Seq<DiagItem>) -> Seq<char> {
    let errors = count_severity(d, Severity::Fail);
    "ZeptoClaw Doctor\n================\n\n"@ + report_body(d) + "\n"@ + decimal(
        count_severity(d, Severity::Pass),
    ) + " ok, "@ + decimal(count_severity(d, Severity::Warn)) + " warnings, "@ + decimal(errors)
        + " errors"@ + (if errors > 0 {
        "\n\nFix the errors above to ensure ZeptoClaw works correctly."@
    } else {
        Seq::empty()
    })
}

fn append_padded_text(out: &mut String, s: &str, w: usize)
    ensures
        final(out)@ == old(out)@ + pad_right(s@, w as nat),
{
    let v = chars_of(s);
    let vl = v.len();
    let ghost start = out@;
    out.append(s);
    let mut n = vl;
    while n < w
        invariant
            vl == s@.len(),
            vl <= n,
            n <= w || n == vl,
            out@ == start + s@ + Seq::new((n - vl) as nat, |i: int| ' '),
        decreases w - n,
    {
        push_char(out, ' ');
        assert(out@ =~= start + s@ + Seq::new((n + 1 - vl) as nat, |i: int| ' '));
        n += 1;
    }
    if vl >= w {
        assert(out@ =~= start + s@);
    }
}

fn append_diag_line(out: &mut String, d: &DiagItem)
    ensures
        final(out)@ == old(out)@ + diag_line(*d) + "\n"@,
{
    let ghost start = out@;
    append_padded_text(out, d.severity.icon(), 6);
    out.append(" ");
    append_padded_text(out, d.category, 14);
    out.append(" ");
    out.append(d.message.as_str());
    out.append("\n");
    assert(out@ =~= start + diag_line(*d) + "\n"@);
}

/// The doctor's report for the diagnostics.
pub fn doctor_report(diags: &Vec<DiagItem>) -> (r: String)
    ensures
        r@ == doctor_report_spec(diags@),
{
    let mut r = String::from_str("ZeptoClaw Doctor\n================\n\n");
    let ghost head = r@;
    let mut i: usize = 0;
    while i < diags.len()
        invariant
            i <= diags@.len(),
            head == "ZeptoClaw Doctor\n================\n\n"@,
            r@ == head + report_body(diags@.take(i as int)),
        decreases diags@.len() - i,
    {
        let d = &diags[i];
        assert(diags@.take(i + 1).drop_last() =~= diags@.take(i as int));
        assert(diags@.take(i + 1).last() == diags@[i as int]);
        let sep = i > 0 && !str_eq(d.category, diags[i - 1].category) && !diags[i - 1].category.is_empty();
        if sep {
            r.append("\n");
        } else {
            assert(r@ =~= r@ + Seq::<char>::empty());
        }
        append_diag_line(&mut r, d);
        i += 1;
    }
    assert(diags@.take(i as int) =~= diags@);
    let (ok, warn, err) = severity_counts(diags);
    r.append("\n");
    let a = decimal_text(ok as u64);
    r.append(a.as_str());
    r.append(" ok, ");
    let b = decimal_text(warn as u64);
    r.append(b.as_str());
    r.append(" warnings, ");
    let c = decimal_text(err as u64);
    r.append(c.as_str());
    r.append(" errors");
    if err > 0 {
        r.append("\n\nFix the errors above to ensure ZeptoClaw works correctly.");
    }
    r
}

} // verus!
