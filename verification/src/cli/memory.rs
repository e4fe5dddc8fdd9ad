//! Memory command: shortening long values for display, and the texts of
//! the listing, search, store, delete, statistics and import commands.

use vstd::prelude::*;
use crate::text::chars_of;
use crate::text::utf8_len;
use crate::text::string_of_range;
use crate::text::texts;
use crate::text::decimal;
use crate::text::decimal_text;
use crate::cli::skills::joined;
use crate::cli::skills::join_strings;

verus! {

/// `k` is the last character of `s` that starts at a byte offset of at most
/// `max`.
pub open spec fn is_cut(s: Seq<char>, max: nat, k: int) -> bool {
    &&& 0 <= k < s.len()
    &&& utf8_len(s.take(k)) <= max
    &&& (k + 1 == s.len() || utf8_len(s.take(k + 1)) > max)
}

/// A value as displayed: itself when it has at most `max` bytes; otherwise
/// the characters before the last character starting within `max` bytes,
/// then `...`.
pub open spec fn truncated_value(s: Seq<char>, max: nat) -> Seq<char> {
    if utf8_len(s) <= max {
        s
    } else {
        s.take(choose|k: int| is_cut(s, max, k)) + "..."@
    }
}

proof fn lemma_cut_unique(s: Seq<char>, max: nat, k: int, j: int)
    requires
        is_cut(s, max, k),
        is_cut(s, max, j),
    ensures
        k == j,
{
    if k < j {
        crate::text::lemma_utf8_len_concat(s.take(k + 1), s.subrange(k + 1, j));
        assert(s.take(k + 1) + s.subrange(k + 1, j) =~= s.take(j));
    }
    if j < k {
        crate::text::lemma_utf8_len_concat(s.take(j + 1), s.subrange(j + 1, k));
        assert(s.take(j + 1) + s.subrange(j + 1, k) =~= s.take(k));
    }
}

/// A shortened value is a prefix of the value of at most `max` bytes, then
/// `...`: at most `max + 3` bytes in all.
pub proof fn lemma_truncated_value_bounded(s: Seq<char>, max: nat)
    ensures
        utf8_len(s) <= max ==> truncated_value(s, max) == s,
        utf8_len(truncated_value(s, max)) <= max + 3,
{
    reveal_strlit("...");
    if utf8_len(s) > max {
        crate::text::lemma_utf8_len_empty();
        if s.len() == 0 {
            assert(s =~= Seq::<char>::empty());
        }
        // The cut exists: the last character starting within `max` bytes.
        lemma_cut_exists(s, max, 0);
        let k = choose|k: int| is_cut(s, max, k);
        crate::text::lemma_utf8_len_concat(s.take(k), "..."@);
        assert(utf8_len("..."@) == 3) by {
            reveal_with_fuel(vstd::utf8::encode_utf8, 4);
            crate::text::lemma_utf8_len_ge_len("..."@);
        }
    }
}

proof fn lemma_cut_exists(s: Seq<char>, max: nat, k: int)
    requires
        0 <= k < s.len(),
        utf8_len(s.take(k)) <= max,
    ensures
        exists|j: int| is_cut(s, max, j),
    decreases s.len() - k,
{
    if k + 1 < s.len() && utf8_len(s.take(k + 1)) <= max {
        lemma_cut_exists(s, max, k + 1);
    } else {
        assert(is_cut(s, max, k));
    }
}

/// Shorten a value for display without splitting a character.
pub fn truncate_value(s: &str, max: usize) -> (r: String)
    ensures
        r@ == truncated_value(s@, max as nat),
{
    let total = s.as_bytes().len();
    if total <= max {
        return String::from_str(s);
    }
    let v = chars_of(s);
    let n = v.len();
    proof {
        crate::text::lemma_utf8_len_empty();
        assert(v@.take(0) =~= Seq::<char>::empty());
        if n == 0 {
            assert(v@ =~= Seq::<char>::empty());
        }
    }
    // Walk the characters; `off` is the byte offset of character `k`.
    let mut k: usize = 0;
    let mut off: usize = 0;
    while k + 1 < n
        invariant_except_break
            k + 1 <= n,
        invariant
            n == v@.len(),
            n >= 1,
            v@ == s@,
            total == utf8_len(v@),
            total > max,
            off == utf8_len(v@.take(k as int)),
            off <= max,
        ensures
            is_cut(v@, max as nat, k as int),
        decreases n - k,
    {
        proof {
            crate::text::lemma_utf8_len_push(v@.take(k as int), v@[k as int]);
            assert(v@.take(k as int).push(v@[k as int]) =~= v@.take(k + 1));
            crate::text::lemma_utf8_len_concat(v@.take(k + 1), v@.skip(k + 1));
            assert(v@.take(k + 1) + v@.skip(k + 1) =~= v@);
        }
        let next = off + crate::text::char_len_utf8(v[k]);
        if next > max {
            break;
        }
        off = next;
        k += 1;
    }
    proof {
        lemma_cut_unique(s@, max as nat, k as int, choose|j: int| is_cut(s@, max as nat, j));
    }
    let mut r = string_of_range(&v, 0, k);
    assert(v@.subrange(0, k as int) =~= s@.take(k as int));
    r.append("...");
    r
}

/// A stored memory, as the commands show it.
pub struct MemoryEntryView {
    pub key: String,
    pub category: String,
    pub value: String,
    pub tags: Vec<String>,
}

/// Sixty dashes.
pub open spec fn rule60() -> Seq<char> {
    "------------------------------------------------------------"@
}

/// The two lines of an entry in a listing (with its tags) or in search
/// results (without).
pub open spec fn entry_lines(e: MemoryEntryView, with_tags: bool) -> Seq<char> {
    "\n  "@ + e.key@ + " ("@ + e.category@ + ")"@ + (if with_tags && e.tags@.len() > 0 {
        " ["@ + joined(texts(e.tags@), ", "@) + "]"@
    } else {
        Seq::empty()
    }) + "\n    "@ + truncated_value(e.value@, 80)
}

/// The entries' lines.
pub open spec fn entries_text(es: Seq<MemoryEntryView>, with_tags: bool) -> Seq<char>
    decreases es.len(),
{
    if es.len() == 0 {
        Seq::empty()
    } else {
        entries_text(es.drop_last(), with_tags) + entry_lines(es.last(), with_tags)
    }
}

fn append_entries(out: &mut String, es: &Vec<MemoryEntryView>, with_tags: bool)
    ensures
        final(out)@ == old(out)@ + entries_text(es@, with_tags),
{
    let ghost start = out@;
    let mut i: usize = 0;
    while i < es.len()
        invariant
            i <= es@.len(),
            out@ == start + entries_text(es@.take(i as int), with_tags),
        decreases es@.len() - i,
    {
        let e = &es[i];
        assert(es@.take(i + 1).drop_last() =~= es@.take(i as int));
        let ghost before = out@;
        out.append("\n  ");
        out.append(e.key.as_str());
        out.append(" (");
        out.append(e.category.as_str());
        out.append(")");
        let ghost mid = out@;
        if with_tags && e.tags.len() > 0 {
            out.append(" [");
            let j = join_strings(&e.tags, ", ");
            out.append(j.as_str());
            out.append("]");
        }
        out.append("\n    ");
        let v = truncate_value(e.value.as_str(), 80);
        out.append(v.as_str());
        assert(out@ =~= before + entry_lines(es@[i as int], with_tags));
        i += 1;
    }
    assert(es@.take(i as int) =~= es@);
}

/// The `memory list` text for the entries found (of one category, when
/// one was asked for).
pub open spec fn memory_list_spec(es: Seq<MemoryEntryView>, category: Option<Seq<char>>) -> Seq<char> {
    if es.len() == 0 {
        match category {
            Some(c) => "No memories in category '"@ + c + "'."@,
            None => "No memories stored yet.\nStore one: zeptoclaw memory set user:name \"Your Name\""@,
        }
    } else {
        "Long-term Memories ("@ + decimal(es.len()) + ")\n"@ + rule60() + entries_text(es, true)
    }
}

/// The `memory list` text.
pub fn memory_list_text(entries: &Vec<MemoryEntryView>, category: Option<&str>) -> (r: String)
    ensures
        r@ == memory_list_spec(
            entries@,
            match category {
                Some(c) => Some(c@),
                None => None,
            },
        ),
{
    if entries.len() == 0 {
        return match category {
            Some(c) => {
                let mut r = String::from_str("No memories in category '");
                r.append(c);
                r.append("'.");
                r
            },
            None => String::from_str(
                "No memories stored yet.\nStore one: zeptoclaw memory set user:name \"Your Name\"",
            ),
        };
    }
    let mut r = String::from_str("Long-term Memories (");
    let d = decimal_text(entries.len() as u64);
    r.append(d.as_str());
    r.append(")\n");
    r.append("------------------------------------------------------------");
    append_entries(&mut r, entries, true);
    r
}

/// The `memory search` text for the results of a query.
pub open spec fn memory_search_spec(query: Seq<char>, es: Seq<MemoryEntryView>) -> Seq<char> {
    if es.len() == 0 {
        "No memories matching '"@ + query + "'."@
    } else {
        "Search results for '"@ + query + "' ("@ + decimal(es.len()) + ")\n"@ + rule60() + entries_text(
            es,
            false,
        )
    }
}

/// The `memory search` text.
pub fn memory_search_text(query: &str, results: &Vec<MemoryEntryView>) -> (r: String)
    ensures
        r@ == memory_search_spec(query@, results@),
{
    if results.len() == 0 {
        let mut r = String::from_str("No memories matching '");
        r.append(query);
        r.append("'.");
        return r;
    }
    let mut r = String::from_str("Search results for '");
    r.append(query);
    r.append("' (");
    let d = decimal_text(results.len() as u64);
    r.append(d.as_str());
    r.append(")\n");
    r.append("------------------------------------------------------------");
    append_entries(&mut r, results, false);
    r
}

/// The line printed after storing a memory.
pub fn stored_text(key: &str, value: &str, category: &str) -> (r: String)
    ensures
        r@ == "Stored: "@ + key@ + " = \""@ + truncated_value(value@, 60) + "\" ("@ + category@ + ")"@,
{
    let mut r = String::from_str("Stored: ");
    r.append(key);
    r.append(" = \"");
    let v = truncate_value(value, 60);
    r.append(v.as_str());
    r.append("\" (");
    r.append(category);
    r.append(")");
    r
}

/// The line printed after deleting a memory (or not finding it).
pub fn deleted_text(key: &str, found: bool) -> (r: String)
    ensures
        r@ == (if found {
            "Deleted: "@ + key@
        } else {
            "Memory '"@ + key@ + "' not found."@
        }),
{
    if found {
        let mut r = String::from_str("Deleted: ");
        r.append(key);
        r
    } else {
        let mut r = String::from_str("Memory '");
        r.append(key);
        r.append("' not found.");
        r
    }
}

/// The line printed after importing a snapshot.
pub fn import_text(imported: usize, skipped: usize) -> (r: String)
    ensures
        r@ == "Import complete: "@ + decimal(imported as nat) + " imported, "@ + decimal(skipped as nat)
            + " skipped"@ + (if skipped > 0 {
            " (use --overwrite to replace existing)"@
        } else {
            Seq::empty()
        }),
{
    let mut r = String::from_str("Import complete: ");
    let a = decimal_text(imported as u64);
    r.append(a.as_str());
    r.append(" imported, ");
    let b = decimal_text(skipped as u64);
    r.append(b.as_str());
    r.append(" skipped");
    if skipped > 0 {
        r.append(" (use --overwrite to replace existing)");
    }
    r
}

/// The per-category lines of the statistics.
pub open spec fn category_lines(cs: Seq<(String, usize)>) -> Seq<char>
    decreases cs.len(),
{
    if cs.len() == 0 {
        Seq::empty()
    } else {
        category_lines(cs.drop_last()) + "\n  "@ + cs.last().0@ + ": "@ + decimal(cs.last().1 as nat)
            + " entries"@
    }
}

/// The `memory stats` text (before the storage line): the total, the
/// categories, and each category's count.
pub open spec fn memory_stats_spec(count: usize, cats: Seq<(String, usize)>) -> Seq<char> {
    "Memory Statistics\n-----------------\n  Total entries: "@ + decimal(count as nat) + "\n  Categories:    "@
        + (if cats.len() == 0 {
        "none"@
    } else {
        joined(cats.map_values(|c: (String, usize)| c.0@), ", "@)
    }) + (if cats.len() > 0 {
        "\n"@ + category_lines(cats)
    } else {
        Seq::empty()
    })
}

/// The `memory stats` text for the total and the categories with their
/// counts.
pub fn memory_stats_text(count: usize, categories: &Vec<(String, usize)>) -> (r: String)
    ensures
        r@ == memory_stats_spec(count, categories@),
{
    let mut r = String::from_str("Memory Statistics\n-----------------\n  Total entries: ");
    let d = decimal_text(count as u64);
    r.append(d.as_str());
    r.append("\n  Categories:    ");
    if categories.len() == 0 {
        r.append("none");
        assert(r@ =~= memory_stats_spec(count, categories@));
        return r;
    }
    let mut names: Vec<String> = Vec::new();
    let mut i: usize = 0;
    while i < categories.len()
        invariant
            i <= categories@.len(),
            texts(names@) == categories@.take(i as int).map_values(|c: (String, usize)| c.0@),
        decreases categories@.len() - i,
    {
        let ghost before = names@;
        names.push(categories[i].0.clone());
        assert(texts(names@) =~= texts(before).push(categories@[i as int].0@));
        assert(categories@.take(i + 1).map_values(|c: (String, usize)| c.0@) =~= categories@.take(
            i as int,
        ).map_values(|c: (String, usize)| c.0@).push(categories@[i as int].0@));
        i += 1;
    }
    assert(categories@.take(i as int) =~= categories@);
    let j = join_strings(&names, ", ");
    r.append(j.as_str());
    r.append("\n");
    let ghost head = r@;
    let mut k: usize = 0;
    while k < categories.len()
        invariant
            k <= categories@.len(),
            r@ == head + category_lines(categories@.take(k as int)),
        decreases categories@.len() - k,
    {
        assert(categories@.take(k + 1).drop_last() =~= categories@.take(k as int));
        r.append("\n  ");
        r.append(categories[k].0.as_str());
        r.append(": ");
        let n = decimal_text(categories[k].1 as u64);
        r.append(n.as_str());
        r.append(" entries");
        k += 1;
    }
    assert(categories@.take(k as int) =~= categories@);
    r
}

} // verus!
