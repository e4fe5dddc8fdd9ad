//! Skills: names safe to use as directory names, GitHub sources, the
//! template of a new skill, and the `skills show` and `skills list` texts.

use vstd::prelude::*;
use crate::split::split_char;
use crate::split::split_char_ranges;
use crate::text::chars_of;
use crate::text::has_char;
use crate::text::starts_with;
use crate::text::ends_with;
use crate::text::contains;
use crate::text::occurs_at;
use crate::text::matches_at;
use crate::text::find_char;
use crate::text::find_seq;
use crate::text::str_eq;
use crate::text::string_of_range;
use crate::text::append_range;
use crate::text::texts;
use crate::text::utf8_len;
use crate::cli::slash::pad_right;

verus! {

/// Default community skills repository.
pub const COMMUNITY_REPO: &'static str = "qhkm/zeptoclaw-skills";

/// Why a skill name was refused.
#[derive(Debug, Clone, PartialEq)]
pub enum SkillNameError {
    /// The name is empty.
    Empty,
    /// The name holds `/` or `\`.
    PathSeparator(String),
    /// The name starts with `.`.
    LeadingDot(String),
    /// The name holds `..`.
    DotDot(String),
}

/// The check of a skill name for filesystem safety.
pub open spec fn skill_name_check(name: Seq<char>) -> Option<u8> {
    if name.len() == 0 {
        Some(0)
    } else if has_char(name, '/') || has_char(name, '\\') {
        Some(1)
    } else if starts_with(name, "."@) || name == ".."@ {
        Some(2)
    } else if contains(name, ".."@) {
        Some(3)
    } else {
        None
    }
}

/// Validate a skill name for filesystem safety.
pub fn validate_skill_name(name: &str) -> (r: Result<(), SkillNameError>)
    ensures
        match skill_name_check(name@) {
            None => r is Ok,
            Some(0u8) => r == Err::<(), SkillNameError>(SkillNameError::Empty),
            Some(1u8) => r matches Err(SkillNameError::PathSeparator(n)) && n@ == name@,
            Some(2u8) => r matches Err(SkillNameError::LeadingDot(n)) && n@ == name@,
            Some(_) => r matches Err(SkillNameError::DotDot(n)) && n@ == name@,
        },
{
    let v = chars_of(name);
    let n = v.len();
    if n == 0 {
        return Err(SkillNameError::Empty);
    }
    let slash = find_char(&v, 0, n, '/');
    let backslash = find_char(&v, 0, n, '\\');
    proof {
        if slash is None {
            assert(!has_char(name@, '/'));
        }
        if backslash is None {
            assert(!has_char(name@, '\\'));
        }
    }
    if slash.is_some() || backslash.is_some() {
        return Err(SkillNameError::PathSeparator(String::from_str(name)));
    }
    let dot = chars_of(".");
    let dots = chars_of("..");
    proof {
        reveal_strlit(".");
        reveal_strlit("..");
    }
    let leading = matches_at(&v, 0, &dot);
    assert(leading == starts_with(name@, "."@)) by {
        if starts_with(name@, "."@) {
            assert(v@.subrange(0, 1) == "."@);
        }
    }
    if leading || str_eq(name, "..") {
        return Err(SkillNameError::LeadingDot(String::from_str(name)));
    }
    if find_seq(&v, &dots).is_some() {
        return Err(SkillNameError::DotDot(String::from_str(name)));
    }
    Ok(())
}

/// `s` without its trailing `c`s (`trim_end_matches(c)`).
pub open spec fn trim_end_char(s: Seq<char>, c: char) -> Seq<char>
    decreases s.len(),
{
    if s.len() > 0 && s.last() == c {
        trim_end_char(s.drop_last(), c)
    } else {
        s
    }
}

/// `s` without its trailing repetitions of `p` (`trim_end_matches(p)`,
/// `p` not empty).
pub open spec fn trim_end_seq(s: Seq<char>, p: Seq<char>) -> Seq<char>
    decreases s.len(),
{
    if p.len() > 0 && ends_with(s, p) {
        trim_end_seq(s.take(s.len() - p.len()), p)
    } else {
        s
    }
}

/// A GitHub argument as `owner/repo[/path]`: without an `https://github.com/`
/// or `http://github.com/` prefix, trailing `/`s and trailing `.git`s.
pub open spec fn normalized_repo(input: Seq<char>) -> Seq<char> {
    let s = if starts_with(input, "https://github.com/"@) {
        input.skip(19)
    } else if starts_with(input, "http://github.com/"@) {
        input.skip(18)
    } else {
        input
    };
    trim_end_seq(trim_end_char(s, '/'), ".git"@)
}

/// Normalize a GitHub argument, accepting both full URLs and shorthand.
pub fn normalize_github_repo(input: &str) -> (r: String)
    ensures
        r@ == normalized_repo(input@),
{
    let v = chars_of(input);
    let n = v.len();
    let https = chars_of("https://github.com/");
    let http = chars_of("http://github.com/");
    proof {
        reveal_strlit("https://github.com/");
        reveal_strlit("http://github.com/");
        reveal_strlit(".git");
    }
    let start: usize = if matches_at(&v, 0, &https) {
        assert(starts_with(input@, "https://github.com/"@)) by {
            assert(v@.subrange(0, 19) == https@);
        }
        19
    } else if matches_at(&v, 0, &http) {
        assert(!starts_with(input@, "https://github.com/"@)) by {
            if starts_with(input@, "https://github.com/"@) {
                assert(v@.subrange(0, 19) == https@);
            }
        }
        assert(starts_with(input@, "http://github.com/"@)) by {
            assert(v@.subrange(0, 18) == http@);
        }
        18
    } else {
        assert(!starts_with(input@, "https://github.com/"@)) by {
            if starts_with(input@, "https://github.com/"@) {
                assert(v@.subrange(0, 19) == https@);
            }
        }
        assert(!starts_with(input@, "http://github.com/"@)) by {
            if starts_with(input@, "http://github.com/"@) {
                assert(v@.subrange(0, 18) == http@);
            }
        }
        0
    };
    let ghost s1 = v@.subrange(start as int, n as int);
    assert(s1 =~= if starts_with(input@, "https://github.com/"@) {
        input@.skip(19)
    } else if starts_with(input@, "http://github.com/"@) {
        input@.skip(18)
    } else {
        input@
    });
    let mut end = n;
    while end > start && v[end - 1] == '/'
        invariant
            start <= end <= n,
            n == v@.len(),
            trim_end_char(s1, '/') == trim_end_char(v@.subrange(start as int, end as int), '/'),
        decreases end,
    {
        assert(v@.subrange(start as int, end as int).drop_last() =~= v@.subrange(
            start as int,
            end - 1,
        ));
        end -= 1;
    }
    let ghost s2 = v@.subrange(start as int, end as int);
    assert(trim_end_char(s1, '/') == s2);
    let git = chars_of(".git");
    while end - start >= 4 && matches_at(&v, end - 4, &git)
        invariant
            start <= end <= n,
            n == v@.len(),
            git@ == ".git"@,
            git@.len() == 4,
            trim_end_seq(s2, ".git"@) == trim_end_seq(v@.subrange(start as int, end as int), ".git"@),
        decreases end,
    {
        let ghost cur = v@.subrange(start as int, end as int);
        assert(ends_with(cur, ".git"@)) by {
            assert(cur.subrange(cur.len() - 4, cur.len() as int) =~= v@.subrange(end - 4, end as int));
        }
        assert(cur.take(cur.len() - 4) =~= v@.subrange(start as int, end - 4));
        end -= 4;
    }
    let ghost fin = v@.subrange(start as int, end as int);
    assert(!(ends_with(fin, ".git"@))) by {
        if ends_with(fin, ".git"@) {
            assert(fin.subrange(fin.len() - 4, fin.len() as int) =~= v@.subrange(end - 4, end as int));
        }
    }
    string_of_range(&v, start, end)
}

/// Where a skill is installed from.
pub enum GithubSource {
    /// A repository holding one skill (`owner/repo`).
    Single(String),
    /// A skill at `path` inside repository `repo` (`owner/repo/path...`).
    Multi { repo: String, path: String },
}

/// The pieces joined with `/`.
pub open spec fn join_slash(s: Seq<Seq<char>>) -> Seq<char>
    decreases s.len(),
{
    if s.len() == 0 {
        Seq::empty()
    } else if s.len() == 1 {
        s[0]
    } else {
        join_slash(s.drop_last()) + "/"@ + s.last()
    }
}

/// The install source a normalized GitHub argument names: two segments for
/// a repository, three or more for a skill inside one; else the error.
pub open spec fn github_source_spec(normalized: Seq<char>) -> Result<(Seq<char>, Option<Seq<char>>), Seq<char>> {
    let segs = split_char(normalized, '/');
    if segs.len() == 2 {
        Ok((normalized, None))
    } else if segs.len() >= 3 {
        Ok((segs[0] + "/"@ + segs[1], Some(join_slash(segs.skip(2)))))
    } else {
        Err("Expected owner/repo or owner/repo/skill format, got: "@ + normalized)
    }
}

/// Reads the install source of a `--github` argument.
pub fn github_source(repo_arg: &str) -> (r: Result<GithubSource, String>)
    ensures
        match github_source_spec(normalized_repo(repo_arg@)) {
            Ok((repo, None)) => r matches Ok(GithubSource::Single(s)) && s@ == repo,
            Ok((repo, Some(path))) => r matches Ok(GithubSource::Multi { repo: a, path: b }) && a@
                == repo && b@ == path,
            Err(e) => r matches Err(s) && s@ == e,
        },
{
    let normalized = normalize_github_repo(repo_arg);
    let v = chars_of(normalized.as_str());
    let n = v.len();
    let segs = split_char_ranges(&v, 0, n, '/');
    let ghost ss = split_char(normalized@, '/');
    assert(v@.subrange(0, n as int) =~= normalized@);
    if segs.len() == 2 {
        return Ok(GithubSource::Single(normalized));
    }
    if segs.len() < 3 {
        let mut e = String::from_str("Expected owner/repo or owner/repo/skill format, got: ");
        e.append(normalized.as_str());
        return Err(e);
    }
    let (a0, b0) = segs[0];
    let (a1, b1) = segs[1];
    let mut repo = string_of_range(&v, a0, b0);
    repo.append("/");
    append_range(&mut repo, &v, a1, b1);
    let (a2, b2) = segs[2];
    let mut path = string_of_range(&v, a2, b2);
    let mut i: usize = 3;
    assert(ss.skip(2).take(1) =~= seq![ss[2]]);
    while i < segs.len()
        invariant
            3 <= i <= segs@.len(),
            segs@.len() == ss.len(),
            forall|j: int|
                0 <= j < segs@.len() ==> (#[trigger] segs@[j]).0 <= segs@[j].1 <= v@.len()
                    && v@.subrange(segs@[j].0 as int, segs@[j].1 as int) == ss[j],
            path@ == join_slash(ss.skip(2).take(i - 2)),
        decreases segs@.len() - i,
    {
        let (a, b) = segs[i];
        let ghost before = path@;
        path.append("/");
        append_range(&mut path, &v, a, b);
        assert(ss.skip(2).take(i - 1).drop_last() =~= ss.skip(2).take(i - 2));
        assert(ss.skip(2).take(i - 1).last() == ss[i as int]);
        i += 1;
    }
    assert(ss.skip(2).take(i - 2) =~= ss.skip(2));
    Ok(GithubSource::Multi { repo, path })
}

/// The `SKILL.md` template of a new skill.
pub open spec fn skill_template_text(name: Seq<char>) -> Seq<char> {
    "---\nname: "@ + name + "\nversion: 1.0.0\ndescription: Describe what this skill does.\n# author: Your Name or Org\n# license: MIT\n# tags:\n#   - category\n# depends:\n#   - another-skill\n# conflicts:\n#   - incompatible-skill\n# env_needed:\n#   - name: MY_API_KEY\n#     description: Your API key for the service\n#     required: true\nmetadata: {\"zeptoclaw\":{\"emoji\":\"\u{1F4DA}\",\"requires\":{}}}\n---\n\n# "@
        + name + " Skill\n\nDescribe usage and concrete command examples.\n"@
}

/// The `SKILL.md` template of a new skill.
pub fn skill_template(name: &str) -> (r: String)
    ensures
        r@ == skill_template_text(name@),
{
    let mut s = String::from_str("---\nname: ");
    s.append(name);
    s.append("\nversion: 1.0.0\ndescription: Describe what this skill does.\n# author: Your Name or Org\n# license: MIT\n# tags:\n#   - category\n# depends:\n#   - another-skill\n# conflicts:\n#   - incompatible-skill\n# env_needed:\n#   - name: MY_API_KEY\n#     description: Your API key for the service\n#     required: true\nmetadata: {\"zeptoclaw\":{\"emoji\":\"\u{1F4DA}\",\"requires\":{}}}\n---\n\n# ");
    s.append(name);
    s.append(" Skill\n\nDescribe usage and concrete command examples.\n");
    s
}

// ---------------------------------------------------------------------------
// Showing a skill
// ---------------------------------------------------------------------------

/// An environment variable a skill needs.
pub struct EnvSpec {
    pub name: String,
    pub description: String,
    pub required: bool,
}

/// The longest byte length of the names.
pub open spec fn max_name_len(env: Seq<EnvSpec>) -> nat
    decreases env.len(),
{
    if env.len() == 0 {
        0
    } else {
        let m = max_name_len(env.drop_last());
        let l = utf8_len(env.last().name@);
        if l > m {
            l
        } else {
            m
        }
    }
}

/// Compute the length (in bytes) of the longest `name` in an
/// `env_needed` list.
pub fn compute_max_name_len(env_needed: &[EnvSpec]) -> (n: usize)
    ensures
        n == max_name_len(env_needed@),
{
    let mut m: usize = 0;
    let mut i: usize = 0;
    while i < env_needed.len()
        invariant
            i <= env_needed@.len(),
            m == max_name_len(env_needed@.take(i as int)),
        decreases env_needed@.len() - i,
    {
        assert(env_needed@.take(i + 1).drop_last() =~= env_needed@.take(i as int));
        let l = env_needed[i].name.as_str().as_bytes().len();
        assert(l == utf8_len(env_needed@[i as int].name@));
        if l > m {
            m = l;
        }
        i += 1;
    }
    assert(env_needed@.take(i as int) =~= env_needed@);
    m
}

/// Parts joined by a separator.
pub open spec fn joined(parts: Seq<Seq<char>>, sep: Seq<char>) -> Seq<char>
    decreases parts.len(),
{
    if parts.len() == 0 {
        Seq::empty()
    } else if parts.len() == 1 {
        parts[0]
    } else {
        joined(parts.drop_last(), sep) + sep + parts.last()
    }
}

/// Joins strings with a separator (`[String]::join`).
pub fn join_strings(parts: &Vec<String>, sep: &str) -> (r: String)
    ensures
        r@ == joined(texts(parts@), sep@),
{
    let mut r = String::new();
    let mut i: usize = 0;
    while i < parts.len()
        invariant
            i <= parts@.len(),
            r@ == joined(texts(parts@.take(i as int)), sep@),
        decreases parts@.len() - i,
    {
        assert(texts(parts@.take(i + 1)).drop_last() =~= texts(parts@.take(i as int)));
        if i > 0 {
            r.append(sep);
        }
        r.append(parts[i].as_str());
        i += 1;
    }
    assert(parts@.take(i as int) =~= parts@);
    r
}

/// What `skills show` prints of a skill, given what the loader found.
pub struct SkillShow {
    pub name: String,
    pub version: Option<String>,
    pub author: Option<String>,
    pub license: Option<String>,
    pub tags: Vec<String>,
    /// Each dependency, with whether it is installed.
    pub depends: Vec<(String, bool)>,
    /// Each conflicting skill, with whether it is installed.
    pub conflicts: Vec<(String, bool)>,
    pub env_needed: Vec<EnvSpec>,
    /// Whether the skill's requirements are met.
    pub available: bool,
    pub content: String,
}

/// A line for an optional field.
pub open spec fn opt_line(label: Seq<char>, v: Option<String>) -> Seq<Seq<char>> {
    match v {
        Some(x) => seq![label + x@],
        None => Seq::empty(),
    }
}

/// A dependency with its mark: installed or missing.
pub open spec fn depend_item(d: (String, bool)) -> Seq<char> {
    d.0@ + (if d.1 {
        " \u{2713}"@
    } else {
        " \u{2717}"@
    })
}

/// A conflicting skill with its mark: installed (a problem) or not.
pub open spec fn conflict_item(c: (String, bool)) -> Seq<char> {
    c.0@ + (if c.1 {
        " (installed \u{2717})"@
    } else {
        " (not installed \u{2713})"@
    })
}

/// The line of a needed variable, its name padded to `width`.
pub open spec fn env_line(e: EnvSpec, width: nat) -> Seq<char> {
    "  "@ + pad_right(e.name@, width) + "   "@ + (if e.required {
        "required"@
    } else {
        "optional"@
    }) + "   "@ + e.description@
}

/// The first lines of the `skills show` output: name, version, author,
/// license.
pub open spec fn field_lines(s: SkillShow) -> Seq<Seq<char>> {
    seq!["Name:        "@ + s.name@] + opt_line("Version:     "@, s.version) + opt_line(
        "Author:      "@,
        s.author,
    ) + opt_line("License:     "@, s.license)
}

/// The tags, dependencies and conflicts lines (each only when not empty).
pub open spec fn list_lines(s: SkillShow) -> Seq<Seq<char>> {
    (if s.tags@.len() > 0 {
        seq!["Tags:        "@ + joined(texts(s.tags@), ", "@)]
    } else {
        Seq::empty()
    }) + (if s.depends@.len() > 0 {
        seq!["Depends:     "@ + joined(s.depends@.map_values(|d: (String, bool)| depend_item(d)), ", "@)]
    } else {
        Seq::empty()
    }) + (if s.conflicts@.len() > 0 {
        seq![
            "Conflicts:   "@ + joined(
                s.conflicts@.map_values(|c: (String, bool)| conflict_item(c)),
                ", "@,
            ),
        ]
    } else {
        Seq::empty()
    })
}

/// The needed variables, their names padded to the longest one.
pub open spec fn env_lines(s: SkillShow) -> Seq<Seq<char>> {
    let width = max_name_len(s.env_needed@);
    if s.env_needed@.len() > 0 {
        seq!["Env needed:"@] + s.env_needed@.map_values(|e: EnvSpec| env_line(e, width))
    } else {
        Seq::empty()
    }
}

/// The availability and the content.
pub open spec fn tail_lines(s: SkillShow) -> Seq<Seq<char>> {
    seq![
        "Available:   "@ + (if s.available {
            "yes"@
        } else {
            "no"@
        }),
        Seq::empty(),
        "--- Content ---"@,
        s.content@,
    ]
}

/// The lines of the `skills show` output.
pub open spec fn skill_show_lines(s: SkillShow) -> Seq<Seq<char>> {
    field_lines(s) + list_lines(s) + env_lines(s) + tail_lines(s)
}

fn push_line(lines: &mut Vec<String>, line: String)
    ensures
        texts(final(lines)@) == texts(old(lines)@).push(line@),
{
    let ghost before = lines@;
    lines.push(line);
    assert(texts(lines@) =~= texts(before).push(line@));
}

fn push_opt_line(lines: &mut Vec<String>, label: &str, v: &Option<String>)
    ensures
        texts(final(lines)@) == texts(old(lines)@) + opt_line(label@, *v),
{
    match v {
        Some(x) => {
            let mut l = String::from_str(label);
            l.append(x.as_str());
            push_line(lines, l);
            assert(texts(lines@) =~= texts(old(lines)@) + seq![label@ + x@]);
        },
        None => {
            assert(texts(lines@) =~= texts(old(lines)@) + Seq::<Seq<char>>::empty());
        },
    }
}

fn marked_items(items: &Vec<(String, bool)>, conflicts: bool) -> (r: Vec<String>)
    ensures
        texts(r@) == (if conflicts {
            items@.map_values(|c: (String, bool)| conflict_item(c))
        } else {
            items@.map_values(|d: (String, bool)| depend_item(d))
        }),
{
    let mut r: Vec<String> = Vec::new();
    let mut i: usize = 0;
    while i < items.len()
        invariant
            i <= items@.len(),
            texts(r@) == (if conflicts {
                items@.take(i as int).map_values(|c: (String, bool)| conflict_item(c))
            } else {
                items@.take(i as int).map_values(|d: (String, bool)| depend_item(d))
            }),
        decreases items@.len() - i,
    {
        let (name, installed) = (&items[i].0, items[i].1);
        let mut t = name.clone();
        if conflicts {
            t.append(if installed { " (installed \u{2717})" } else { " (not installed \u{2713})" });
        } else {
            t.append(if installed { " \u{2713}" } else { " \u{2717}" });
        }
        let ghost before = r@;
        r.push(t);
        assert(texts(r@) =~= texts(before).push(t@));
        assert(items@.take(i + 1).map_values(|c: (String, bool)| conflict_item(c)) =~= items@.take(
            i as int,
        ).map_values(|c: (String, bool)| conflict_item(c)).push(conflict_item(items@[i as int])));
        assert(items@.take(i + 1).map_values(|d: (String, bool)| depend_item(d)) =~= items@.take(
            i as int,
        ).map_values(|d: (String, bool)| depend_item(d)).push(depend_item(items@[i as int])));
        i += 1;
    }
    assert(items@.take(i as int) =~= items@);
    r
}

fn append_padded_name(out: &mut String, s: &str, w: usize)
    ensures
        final(out)@ == old(out)@ + pad_right(s@, w as nat),
{
    let v = chars_of(s);
    let vl = v.len();
    let ghost start = out@;
    out.append(s);
    let mut n = vl;
    while n < w
        invariant
            vl == s@.len(),
            vl <= n,
            n <= w || n == vl,
            out@ == start + s@ + Seq::new((n - vl) as nat, |i: int| ' '),
        decreases w - n,
    {
        crate::text::push_char(out, ' ');
        assert(out@ =~= start + s@ + Seq::new((n + 1 - vl) as nat, |i: int| ' '));
        n += 1;
    }
    if vl >= w {
        assert(out@ =~= start + s@);
    } else {
        assert(n == w);
    }
}

fn push_field_lines(lines: &mut Vec<String>, s: &SkillShow)
    ensures
        texts(final(lines)@) == texts(old(lines)@) + field_lines(*s),
{
    let mut first = String::from_str("Name:        ");
    first.append(s.name.as_str());
    push_line(lines, first);
    let ghost l0 = texts(lines@);
    push_opt_line(lines, "Version:     ", &s.version);
    push_opt_line(lines, "Author:      ", &s.author);
    push_opt_line(lines, "License:     ", &s.license);
    assert(texts(lines@) =~= texts(old(lines)@) + field_lines(*s));
}

fn push_list_lines(lines: &mut Vec<String>, s: &SkillShow)
    ensures
        texts(final(lines)@) == texts(old(lines)@) + list_lines(*s),
{
    let ghost l1 = texts(lines@);
    if s.tags.len() > 0 {
        let mut l = String::from_str("Tags:        ");
        let j = join_strings(&s.tags, ", ");
        l.append(j.as_str());
        push_line(lines, l);
    }
    let ghost l2 = texts(lines@);
    if s.depends.len() > 0 {
        let items = marked_items(&s.depends, false);
        let mut l = String::from_str("Depends:     ");
        let j = join_strings(&items, ", ");
        l.append(j.as_str());
        push_line(lines, l);
    }
    let ghost l3 = texts(lines@);
    if s.conflicts.len() > 0 {
        let items = marked_items(&s.conflicts, true);
        let mut l = String::from_str("Conflicts:   ");
        let j = join_strings(&items, ", ");
        l.append(j.as_str());
        push_line(lines, l);
    }
    assert(texts(lines@) =~= l1 + list_lines(*s));
}

fn push_env_lines(lines: &mut Vec<String>, s: &SkillShow)
    ensures
        texts(final(lines)@) == texts(old(lines)@) + env_lines(*s),
{
    let ghost l4 = texts(lines@);
    let width = compute_max_name_len(s.env_needed.as_slice());
    if s.env_needed.len() == 0 {
        assert(texts(lines@) =~= l4 + Seq::<Seq<char>>::empty());
        return;
    }
    push_line(lines, String::from_str("Env needed:"));
    let ghost l5 = texts(lines@);
    let mut i: usize = 0;
    while i < s.env_needed.len()
        invariant
            i <= s.env_needed@.len(),
            width == max_name_len(s.env_needed@),
            texts(lines@) == l5 + s.env_needed@.take(i as int).map_values(
                |e: EnvSpec| env_line(e, width as nat),
            ),
        decreases s.env_needed@.len() - i,
    {
        let e = &s.env_needed[i];
        let mut l = String::from_str("  ");
        append_padded_name(&mut l, e.name.as_str(), width);
        l.append("   ");
        l.append(if e.required { "required" } else { "optional" });
        l.append("   ");
        l.append(e.description.as_str());
        push_line(lines, l);
        assert(s.env_needed@.take(i + 1).map_values(|e: EnvSpec| env_line(e, width as nat))
            =~= s.env_needed@.take(i as int).map_values(|e: EnvSpec| env_line(e, width as nat)).push(
            env_line(s.env_needed@[i as int], width as nat),
        ));
        i += 1;
    }
    assert(s.env_needed@.take(i as int) =~= s.env_needed@);
    assert(texts(lines@) =~= l4 + env_lines(*s));
}

/// Format the `skills show` output for a skill.
pub fn format_skill_show(s: &SkillShow) -> (r: String)
    ensures
        r@ == joined(skill_show_lines(*s), "\n"@),
{
    let mut lines: Vec<String> = Vec::new();
    assert(texts(lines@) =~= Seq::<Seq<char>>::empty());
    push_field_lines(&mut lines, s);
    push_list_lines(&mut lines, s);
    push_env_lines(&mut lines, s);
    let ghost l6 = texts(lines@);
    let mut av = String::from_str("Available:   ");
    av.append(if s.available { "yes" } else { "no" });
    push_line(&mut lines, av);
    push_line(&mut lines, String::new());
    push_line(&mut lines, String::from_str("--- Content ---"));
    push_line(&mut lines, s.content.clone());
    assert(texts(lines@) =~= l6 + tail_lines(*s));
    assert(texts(lines@) =~= skill_show_lines(*s));
    join_strings(&lines, "\n")
}

/// A line of `skills list`: the name, where it comes from, and whether its
/// requirements are met.
pub fn skill_list_line(name: &str, source: &str, ready: bool) -> (r: String)
    ensures
        r@ == "  - "@ + name@ + " ("@ + source@ + ", "@ + (if ready {
            "ready"@
        } else {
            "missing requirements"@
        }) + ")"@,
{
    let mut r = String::from_str("  - ");
    r.append(name);
    r.append(" (");
    r.append(source);
    r.append(", ");
    r.append(if ready { "ready" } else { "missing requirements" });
    r.append(")");
    r
}

} // verus!
