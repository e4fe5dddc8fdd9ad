//! WhatsApp Cloud API channel: the webhook's HTTP request parsing, the
//! verification handshake, the extraction of inbound text messages with the
//! sender allowlist, and the length limit on outbound text.

use vstd::prelude::*;
use crate::error::ZeptoError;
use crate::split::split_char;
use crate::split::split_char_ranges;
use crate::split::words;
use crate::split::word_ranges;
use crate::text::chars_of;
use crate::text::occurs_at;
use crate::text::contains;
use crate::text::find_seq;
use crate::text::find_char;
use crate::text::trim;
use crate::text::trim_range;
use crate::text::string_of_range;
use crate::text::string_of_chars;
use crate::text::str_eq;
use crate::text::parse_uint;
use crate::text::parse_uint_range;
use crate::text::texts;
use crate::text::pair_texts;
use vstd::utf8::valid_utf8;
use vstd::utf8::decode_utf8;

verus! {

/// Size limit of the header section of a webhook request (8 KB).
pub const MAX_HEADER_SIZE: usize = 8192;

/// Size limit of the body of a webhook request (1 MB).
pub const MAX_BODY_SIZE: usize = 1048576;

/// WhatsApp text message character limit.
pub const MAX_MESSAGE_LENGTH: usize = 4096;

// ---------------------------------------------------------------------------
// First occurrences
// ---------------------------------------------------------------------------

/// `k` is the first index at which `p` occurs in `s`.
pub open spec fn is_first_occurrence(s: Seq<char>, p: Seq<char>, k: int) -> bool {
    occurs_at(s, p, k) && forall|m: int| 0 <= m < k ==> !occurs_at(s, p, m)
}

/// The first index at which `p` occurs in `s` (meaningful when it occurs).
pub open spec fn first_occurrence(s: Seq<char>, p: Seq<char>) -> int {
    choose|k: int| is_first_occurrence(s, p, k)
}

pub proof fn lemma_first_occurrence(s: Seq<char>, p: Seq<char>, k: int)
    requires
        is_first_occurrence(s, p, k),
    ensures
        first_occurrence(s, p) == k,
{
    let j = first_occurrence(s, p);
    assert(is_first_occurrence(s, p, j));
    if j < k {
        assert(!occurs_at(s, p, j));
    }
    if k < j {
        assert(!occurs_at(s, p, k));
    }
}

/// `k` is the first index of `c` in `s`.
pub open spec fn is_first_index(s: Seq<char>, c: char, k: int) -> bool {
    0 <= k < s.len() && s[k] == c && forall|m: int| 0 <= m < k ==> s[m] != c
}

/// The first index of `c` in `s` (meaningful when `c` occurs).
pub open spec fn first_index(s: Seq<char>, c: char) -> int {
    choose|k: int| is_first_index(s, c, k)
}

pub proof fn lemma_first_index(s: Seq<char>, c: char, k: int)
    requires
        is_first_index(s, c, k),
    ensures
        first_index(s, c) == k,
{
    let j = first_index(s, c);
    assert(is_first_index(s, c, j));
    if j < k {
        assert(s[j] != c);
    }
    if k < j {
        assert(s[k] != c);
    }
}

/// Whether `c` occurs in `s`.
pub open spec fn occurs(s: Seq<char>, c: char) -> bool {
    exists|k: int| 0 <= k < s.len() && s[k] == c
}

/// The first index of `c` in `v[lo..hi]`, relative to `lo`, with its spec.
fn find_in(v: &Vec<char>, lo: usize, hi: usize, c: char) -> (r: Option<usize>)
    requires
        lo <= hi <= v@.len(),
    ensures
        match r {
            Some(k) => lo <= k < hi && is_first_index(v@.subrange(lo as int, hi as int), c, k - lo),
            None => !occurs(v@.subrange(lo as int, hi as int), c),
        },
{
    let r = find_char(v, lo, hi, c);
    let ghost s = v@.subrange(lo as int, hi as int);
    match r {
        Some(k) => {
            assert forall|m: int| 0 <= m < k - lo implies s[m] != c by {
                assert(s[m] == v@[lo + m]);
            }
        },
        None => {
            assert forall|m: int| 0 <= m < s.len() implies s[m] != c by {
                assert(s[m] == v@[lo + m]);
            }
        },
    }
    r
}

// ---------------------------------------------------------------------------
// Header end in raw bytes
// ---------------------------------------------------------------------------

/// Whether `d[i..i+4]` is `\r\n\r\n`.
pub open spec fn blank_line_at(d: Seq<u8>, i: int) -> bool {
    0 <= i && i + 4 <= d.len() && d[i] == 13 && d[i + 1] == 10 && d[i + 2] == 13 && d[i + 3]
        == 10
}

/// Find the byte offset of the `\r\n\r\n` header/body separator.
pub fn find_header_end(data: &[u8]) -> (r: Option<usize>)
    ensures
        match r {
            Some(i) => blank_line_at(data@, i as int) && forall|j: int|
                0 <= j < i ==> !blank_line_at(data@, j),
            None => forall|j: int| !blank_line_at(data@, j),
        },
{
    let n = data.len();
    let mut i: usize = 0;
    while i < n && n - i >= 4
        invariant
            n == data@.len(),
            forall|j: int| 0 <= j < i ==> !blank_line_at(data@, j),
        decreases n - i,
    {
        if data[i] == 13 && data[i + 1] == 10 && data[i + 2] == 13 && data[i + 3] == 10 {
            return Some(i);
        }
        i += 1;
    }
    assert forall|j: int| !blank_line_at(data@, j) by {
        if 0 <= j && j < i {
        }
    }
    None
}

// ---------------------------------------------------------------------------
// HTTP request parsing
// ---------------------------------------------------------------------------

/// The header/body separator.
pub open spec fn crlf2() -> Seq<char> {
    seq!['\r', '\n', '\r', '\n']
}

/// The text before the first blank line (all of it when there is none).
pub open spec fn header_section(t: Seq<char>) -> Seq<char> {
    if contains(t, crlf2()) {
        t.take(first_occurrence(t, crlf2()))
    } else {
        t
    }
}

/// The text after the first blank line (empty when there is none).
pub open spec fn body_section(t: Seq<char>) -> Seq<char> {
    if contains(t, crlf2()) {
        t.skip(first_occurrence(t, crlf2()) + 4)
    } else {
        Seq::empty()
    }
}

/// A line that a `\n` ended loses one trailing `\r`.
pub open spec fn strip_cr(p: Seq<char>) -> Seq<char> {
    if p.len() > 0 && p.last() == '\r' {
        p.drop_last()
    } else {
        p
    }
}

/// The lines of `s` (`str::lines`): the pieces between `\n`s, each piece a
/// `\n` ended without one trailing `\r`; an empty last piece is no line.
pub open spec fn text_lines(s: Seq<char>) -> Seq<Seq<char>> {
    let pieces = split_char(s, '\n');
    let ended = pieces.take(pieces.len() - 1).map_values(|p: Seq<char>| strip_cr(p));
    if pieces.last().len() == 0 {
        ended
    } else {
        ended.push(pieces.last())
    }
}

/// The header a line gives: the trimmed text before its first `:` and the
/// trimmed text after it; none for a line without `:`.
pub open spec fn header_of_line(line: Seq<char>) -> Option<(Seq<char>, Seq<char>)> {
    if occurs(line, ':') {
        let k = first_index(line, ':');
        Some((trim(line.take(k)), trim(line.skip(k + 1))))
    } else {
        None
    }
}

/// The headers of the given lines, in order.
pub open spec fn headers_of_lines(lines: Seq<Seq<char>>) -> Seq<(Seq<char>, Seq<char>)>
    decreases lines.len(),
{
    if lines.len() == 0 {
        Seq::empty()
    } else {
        let rest = headers_of_lines(lines.drop_last());
        match header_of_line(lines.last()) {
            Some(h) => rest.push(h),
            None => rest,
        }
    }
}

/// `str::to_uppercase` (Unicode case mapping).
pub uninterp spec fn uppercase(s: Seq<char>) -> Seq<char>;

/// `str::to_uppercase`: the Unicode uppercase form of the text. On ASCII
/// text the Unicode mapping is the ASCII one (`a`-`z` to `A`-`Z`).
#[verifier::external_body]
fn to_uppercase(s: &str) -> (r: String)
    ensures
        r@ == uppercase(s@),
        crate::text::is_ascii_text(s@) ==> r@ == crate::text::ascii_uppercase(s@),
{
    s.to_uppercase()
}

/// A parsed HTTP request, as plain text values.
pub struct HttpRequestView {
    pub method: Seq<char>,
    pub path: Seq<char>,
    pub query: Seq<char>,
    pub headers: Seq<(Seq<char>, Seq<char>)>,
    pub body: Seq<char>,
}

/// What parsing the decoded request text gives: the request, or the error
/// message.
pub open spec fn parse_http_spec(t: Seq<char>) -> Result<HttpRequestView, Seq<char>> {
    let lines = text_lines(header_section(t));
    if lines.len() == 0 {
        Err("Empty HTTP request"@)
    } else {
        let parts = words(lines[0]);
        if parts.len() == 0 {
            Err("Missing HTTP method"@)
        } else if parts.len() == 1 {
            Err("Missing HTTP path"@)
        } else {
            let full = parts[1];
            let (path, query) = if occurs(full, '?') {
                let k = first_index(full, '?');
                (full.take(k), full.skip(k + 1))
            } else {
                (full, Seq::empty())
            };
            Ok(
                HttpRequestView {
                    method: uppercase(parts[0]),
                    path,
                    query,
                    headers: headers_of_lines(lines.drop_first()),
                    body: body_section(t),
                },
            )
        }
    }
}

/// A parsed HTTP request.
pub struct ParsedHttpRequest {
    pub method: String,
    pub path: String,
    pub query: String,
    pub headers: Vec<(String, String)>,
    pub body: String,
}


impl ParsedHttpRequest {
    pub open spec fn view(&self) -> HttpRequestView {
        HttpRequestView {
            method: self.method@,
            path: self.path@,
            query: self.query@,
            headers: pair_texts(self.headers@),
            body: self.body@,
        }
    }
}

/// `std::str::from_utf8`: the text the bytes encode, when they are valid
/// UTF-8.
#[verifier::external_body]
fn utf8_text(raw: &[u8]) -> (r: Option<&str>)
    ensures
        r is Some <==> valid_utf8(raw@),
        r matches Some(s) ==> s@ == decode_utf8(raw@),
{
    std::str::from_utf8(raw).ok()
}

/// The index ranges of the lines of `v[lo..hi]`.
fn line_ranges(v: &Vec<char>, lo: usize, hi: usize) -> (r: Vec<(usize, usize)>)
    requires
        lo <= hi <= v@.len(),
    ensures
        r@.len() == text_lines(v@.subrange(lo as int, hi as int)).len(),
        forall|k: int|
            0 <= k < r@.len() ==> lo <= (#[trigger] r@[k]).0 <= r@[k].1 <= hi && v@.subrange(
                r@[k].0 as int,
                r@[k].1 as int,
            ) == text_lines(v@.subrange(lo as int, hi as int))[k],
{
    let ghost s = v@.subrange(lo as int, hi as int);
    let pieces = split_char_ranges(v, lo, hi, '\n');
    let ghost ps = split_char(s, '\n');
    let ghost ended = ps.take(ps.len() - 1).map_values(|p: Seq<char>| strip_cr(p));
    let n = pieces.len();
    proof {
        crate::split::lemma_split_char_nonempty(s, '\n');
    }
    let mut r: Vec<(usize, usize)> = Vec::new();
    let mut k: usize = 0;
    while k + 1 < n
        invariant
            ended == ps.take(ps.len() - 1).map_values(|p: Seq<char>| strip_cr(p)),
            n == pieces@.len(),
            n == ps.len(),
            n >= 1,
            k + 1 <= n,
            r@.len() == k,
            ended.len() == n - 1,
            lo <= hi <= v@.len(),
            forall|j: int|
                0 <= j < n ==> lo <= (#[trigger] pieces@[j]).0 <= pieces@[j].1 <= hi && v@.subrange(
                    pieces@[j].0 as int,
                    pieces@[j].1 as int,
                ) == ps[j],
            forall|j: int|
                0 <= j < k ==> lo <= (#[trigger] r@[j]).0 <= r@[j].1 <= hi && v@.subrange(
                    r@[j].0 as int,
                    r@[j].1 as int,
                ) == ended[j],
        decreases n - k,
    {
        let (a, b) = pieces[k];
        let ghost piece = ps[k as int];
        assert(ended[k as int] == strip_cr(piece));
        if b > a && v[b - 1] == '\r' {
            assert(v@.subrange(a as int, b - 1) =~= piece.drop_last());
            r.push((a, b - 1));
        } else {
            r.push((a, b));
        }
        k += 1;
    }
    let (a, b) = pieces[n - 1];
    assert(text_lines(s) == if ps.last().len() == 0 {
        ended
    } else {
        ended.push(ps.last())
    });
    if b > a {
        r.push((a, b));
    }
    r
}

/// The headers of the lines `lines[from..]` of `v`.
fn headers_of_ranges(v: &Vec<char>, lines: &Vec<(usize, usize)>, from: usize) -> (r: Vec<
    (String, String),
>)
    requires
        from <= lines@.len(),
        forall|j: int|
            0 <= j < lines@.len() ==> (#[trigger] lines@[j]).0 <= lines@[j].1 <= v@.len(),
    ensures
        pair_texts(r@) == headers_of_lines(
            Seq::new(
                (lines@.len() - from) as nat,
                |j: int| v@.subrange(lines@[from + j].0 as int, lines@[from + j].1 as int),
            ),
        ),
{
    let ghost all = Seq::new(
        (lines@.len() - from) as nat,
        |j: int| v@.subrange(lines@[from + j].0 as int, lines@[from + j].1 as int),
    );
    let mut r: Vec<(String, String)> = Vec::new();
    let mut i = from;
    assert(all.take(0) =~= Seq::<Seq<char>>::empty());
    assert(pair_texts(r@) =~= Seq::<(Seq<char>, Seq<char>)>::empty());
    while i < lines.len()
        invariant
            from <= i <= lines@.len(),
            all.len() == lines@.len() - from,
            forall|j: int|
                0 <= j < lines@.len() ==> (#[trigger] lines@[j]).0 <= lines@[j].1 <= v@.len(),
            forall|j: int|
                0 <= j < all.len() ==> #[trigger] all[j] == v@.subrange(
                    lines@[from + j].0 as int,
                    lines@[from + j].1 as int,
                ),
            pair_texts(r@) == headers_of_lines(all.take(i - from)),
        decreases lines@.len() - i,
    {
        let (a, b) = lines[i];
        let ghost line = v@.subrange(a as int, b as int);
        assert(all[i - from] == line);
        assert(all.take(i - from + 1).drop_last() =~= all.take(i - from));
        assert(all.take(i - from + 1).last() == line);
        match find_in(v, a, b, ':') {
            Some(k) => {
                proof {
                    lemma_first_index(line, ':', k - a);
                }
                let (x, y) = trim_range(v, a, k);
                let (p, q) = trim_range(v, k + 1, b);
                let name = string_of_range(v, x, y);
                let value = string_of_range(v, p, q);
                assert(line.take(k - a) =~= v@.subrange(a as int, k as int));
                assert(line.skip(k - a + 1) =~= v@.subrange(k + 1, b as int));
                let ghost before = r@;
                r.push((name, value));
                assert(pair_texts(r@) =~= pair_texts(before).push((name@, value@)));
            },
            None => {},
        }
        i += 1;
    }
    assert(all.take(i - from) =~= all);
    r
}

/// Whether no character of `s` is whitespace.
pub open spec fn free_of_ws(s: Seq<char>) -> bool {
    forall|i: int| 0 <= i < s.len() ==> !crate::text::is_ws(s[i])
}

/// The text of a request without headers: the request line
/// `METHOD PATH?QUERY HTTP/1.1`, a blank line, then the body.
pub open spec fn request_text(method: Seq<char>, path: Seq<char>, query: Seq<char>, body: Seq<char>) -> Seq<char> {
    method + seq![' '] + path + seq!['?'] + query + seq![' '] + "HTTP/1.1"@ + crlf2() + body
}

proof fn lemma_words_nonempty(s: Seq<char>)
    requires
        s.len() > 0,
        !crate::text::is_ws(s.last()),
    ensures
        words(s).len() > 0,
    decreases s.len(),
{
    let w = words(s.drop_last());
    if s.len() >= 2 && !crate::text::is_ws(s[s.len() - 2]) {
        assert(s.drop_last().last() == s[s.len() - 2]);
        lemma_words_nonempty(s.drop_last());
    }
}

proof fn lemma_words_join(a: Seq<char>, sp: char, b: Seq<char>)
    requires
        crate::text::is_ws(sp),
    ensures
        words(a + seq![sp] + b) == words(a) + words(b),
    decreases b.len(),
{
    let s = a + seq![sp] + b;
    if b.len() == 0 {
        assert(s.drop_last() =~= a);
        assert(words(a) + Seq::<Seq<char>>::empty() =~= words(a));
    } else {
        let b1 = b.drop_last();
        lemma_words_join(a, sp, b1);
        assert(s.drop_last() =~= a + seq![sp] + b1);
        let x = b.last();
        assert(s.last() == x);
        let wa = words(a);
        let wb = words(b1);
        if crate::text::is_ws(x) {
        } else {
            if b1.len() == 0 {
                assert(s[s.len() - 2] == sp);
                assert(b.drop_last() =~= Seq::<char>::empty());
                assert((wa + wb).push(seq![x]) =~= wa + wb.push(seq![x]));
            } else {
                assert(s[s.len() - 2] == b1.last());
                assert(b[b.len() - 2] == b1.last());
                if !crate::text::is_ws(b1.last()) {
                    lemma_words_nonempty(b1);
                    let r = wa + wb;
                    assert(r.last() == wb.last());
                    assert(r.update(r.len() - 1, r.last().push(x)) =~= wa + wb.update(
                        wb.len() - 1,
                        wb.last().push(x),
                    ));
                } else {
                    assert((wa + wb).push(seq![x]) =~= wa + wb.push(seq![x]));
                }
            }
        }
    }
}

proof fn lemma_words_single(p: Seq<char>)
    requires
        p.len() > 0,
        free_of_ws(p),
    ensures
        words(p) == seq![p],
    decreases p.len(),
{
    let q = p.drop_last();
    if q.len() == 0 {
        assert(words(q) =~= Seq::<Seq<char>>::empty());
        assert(p =~= seq![p.last()]);
    } else {
        lemma_words_single(q);
        assert(p[p.len() - 2] == q.last());
        assert(q.push(p.last()) =~= p);
        assert(seq![q].update(0, q.push(p.last())) =~= seq![p]);
    }
}

/// Parsing a request without headers gives back its parts: the method
/// (upper-cased), the path and the query (split at the first `?`), no
/// headers, and the body, whatever it holds. The method is a non-empty
/// word, the path and query are words, and the path has no `?`.
pub proof fn lemma_parse_request_round_trip(
    method: Seq<char>,
    path: Seq<char>,
    query: Seq<char>,
    body: Seq<char>,
)
    requires
        method.len() > 0,
        free_of_ws(method),
        free_of_ws(path),
        free_of_ws(query),
        free_of(path, '?'),
    ensures
        parse_http_spec(request_text(method, path, query, body)) == Ok::<HttpRequestView, Seq<char>>(
            HttpRequestView {
                method: uppercase(method),
                path,
                query,
                headers: Seq::empty(),
                body,
            },
        ),
{
    let version = "HTTP/1.1"@;
    reveal_strlit("HTTP/1.1");
    assert(version.len() == 8);
    assert(free_of_ws(version)) by {
        assert forall|i: int| 0 <= i < 8 implies !crate::text::is_ws(version[i]) by {
            if i == 0 {} else if i == 1 {} else if i == 2 {} else if i == 3 {} else if i == 4 {} else if i == 5 {} else if i == 6 {} else if i == 7 {}
        }
    }
    let full = path + seq!['?'] + query;
    assert(free_of_ws(full)) by {
        assert(!crate::text::is_ws('?')) by {
            assert(('?' as u32) == 0x3F);
        }
    }
    assert(crate::text::is_ws('\r')) by {
        assert(('\r' as u32) == 0x0D);
    }
    assert(crate::text::is_ws('\n')) by {
        assert(('\n' as u32) == 0x0A);
    }
    let tail = full + seq![' '] + version;
    let rl = method + seq![' '] + tail;
    assert(free_of(rl, '\n') && free_of(rl, '\r')) by {
        assert forall|i: int| 0 <= i < rl.len() implies rl[i] != '\n' && rl[i] != '\r' by {
            if i < method.len() {
                assert(rl[i] == method[i]);
            } else if i == method.len() {
                assert(rl[i] == ' ');
            } else if i < method.len() + 1 + full.len() {
                assert(rl[i] == full[i - method.len() - 1]);
            } else if i == method.len() + 1 + full.len() {
                assert(rl[i] == ' ');
            } else {
                assert(rl[i] == version[i - method.len() - 2 - full.len()]);
            }
        }
    }
    let t = rl + crlf2() + body;
    assert(request_text(method, path, query, body) =~= t);
    let n = rl.len() as int;
    assert(t.subrange(n, n + 4) =~= crlf2());
    assert(occurs_at(t, crlf2(), n));
    assert forall|m: int| 0 <= m < n implies !occurs_at(t, crlf2(), m) by {
        if occurs_at(t, crlf2(), m) {
            assert(t.subrange(m, m + 4)[0] == crlf2()[0]);
            assert(t[m] == rl[m]);
        }
    }
    assert(is_first_occurrence(t, crlf2(), n));
    lemma_first_occurrence(t, crlf2(), n);
    assert(contains(t, crlf2()));
    assert(header_section(t) =~= rl);
    assert(body_section(t) =~= body);
    lemma_split_char_free(rl, '\n');
    let pieces = split_char(rl, '\n');
    assert(pieces.take(pieces.len() - 1) =~= Seq::<Seq<char>>::empty());
    assert(text_lines(rl) =~= seq![rl]);
    lemma_words_join(method, ' ', tail);
    lemma_words_join(full, ' ', version);
    lemma_words_single(method);
    lemma_words_single(full);
    lemma_words_single(version);
    assert(words(rl) =~= seq![method, full, version]);
    assert(is_first_index(full, '?', path.len() as int));
    lemma_first_index(full, '?', path.len() as int);
    assert(occurs(full, '?'));
    assert(full.take(path.len() as int) =~= path);
    assert(full.skip(path.len() as int + 1) =~= query);
    assert(seq![rl].drop_first() =~= Seq::<Seq<char>>::empty());
}

/// Parse a raw HTTP request into structured parts.
pub fn parse_http_request(raw: &[u8]) -> (r: Result<ParsedHttpRequest, ZeptoError>)
    ensures
        !valid_utf8(raw@) ==> (r matches Err(ZeptoError::Channel(m)) && m@
            == "Invalid UTF-8 in HTTP request"@),
        valid_utf8(raw@) ==> match parse_http_spec(decode_utf8(raw@)) {
            Ok(v) => r matches Ok(p) && p@ == v,
            Err(e) => r matches Err(ZeptoError::Channel(m)) && m@ == e,
        },
{
    let text = match utf8_text(raw) {
        Some(t) => t,
        None => {
            return Err(ZeptoError::Channel(String::from_str("Invalid UTF-8 in HTTP request")));
        },
    };
    let ghost t = text@;
    let v = chars_of(text);
    let vl = v.len();
    let sep = vec!['\r', '\n', '\r', '\n'];
    assert(sep@ =~= crlf2());
    let (hend, body) = match find_seq(&v, &sep) {
        Some(pos) => {
            proof {
                lemma_first_occurrence(t, crlf2(), pos as int);
            }
            assert(contains(t, crlf2()));
            assert(pos + 4 <= v@.len());
            let body = string_of_range(&v, pos + 4, vl);
            assert(v@.subrange(pos + 4, v@.len() as int) =~= t.skip(pos + 4));
            (pos, body)
        },
        None => (v.len(), String::new()),
    };
    assert(v@.subrange(0, hend as int) =~= header_section(t));
    assert(body@ == body_section(t));
    let lines = line_ranges(&v, 0, hend);
    let ghost ls = text_lines(header_section(t));
    if lines.len() == 0 {
        return Err(ZeptoError::Channel(String::from_str("Empty HTTP request")));
    }
    let (la, lb) = lines[0];
    let parts = word_ranges(&v, la, lb);
    assert(v@.subrange(la as int, lb as int) == ls[0]);
    if parts.len() == 0 {
        return Err(ZeptoError::Channel(String::from_str("Missing HTTP method")));
    }
    if parts.len() == 1 {
        return Err(ZeptoError::Channel(String::from_str("Missing HTTP path")));
    }
    let ghost ws = words(ls[0]);
    let (ma, mb) = parts[0];
    let method_text = string_of_range(&v, ma, mb);
    let method = to_uppercase(method_text.as_str());
    let (pa, pb) = parts[1];
    let ghost full = ws[1];
    let (path, query) = match find_in(&v, pa, pb, '?') {
        Some(k) => {
            proof {
                lemma_first_index(full, '?', k - pa);
            }
            assert(full.take(k - pa) =~= v@.subrange(pa as int, k as int));
            assert(full.skip(k - pa + 1) =~= v@.subrange(k + 1, pb as int));
            (string_of_range(&v, pa, k), string_of_range(&v, k + 1, pb))
        },
        None => (string_of_range(&v, pa, pb), String::new()),
    };
    let headers = headers_of_ranges(&v, &lines, 1);
    assert(Seq::new(
        (lines@.len() - 1) as nat,
        |j: int| v@.subrange(lines@[1 + j].0 as int, lines@[1 + j].1 as int),
    ) =~= ls.drop_first());
    let r = ParsedHttpRequest { method, path, query, headers, body };
    assert(r@.query =~= parse_http_spec(t)->Ok_0.query);
    Ok(r)
}

// ---------------------------------------------------------------------------
// Query strings and headers
// ---------------------------------------------------------------------------

/// The value of the first `key=value` pair among `pairs` (split at the first
/// `=`) whose key is `name`.
pub open spec fn query_lookup(pairs: Seq<Seq<char>>, name: Seq<char>) -> Option<Seq<char>>
    decreases pairs.len(),
{
    if pairs.len() == 0 {
        None
    } else {
        let p = pairs[0];
        if occurs(p, '=') && p.take(first_index(p, '=')) == name {
            Some(p.skip(first_index(p, '=') + 1))
        } else {
            query_lookup(pairs.drop_first(), name)
        }
    }
}

/// The value of query parameter `name` in `query` (pairs separated by `&`).
pub open spec fn query_param_spec(query: Seq<char>, name: Seq<char>) -> Option<Seq<char>> {
    query_lookup(split_char(query, '&'), name)
}

/// Extract a query parameter value by name from a query string.
pub fn query_param(query: &str, name: &str) -> (r: Option<String>)
    ensures
        match query_param_spec(query@, name@) {
            Some(x) => r matches Some(s) && s@ == x,
            None => r is None,
        },
{
    let v = chars_of(query);
    let w = chars_of(name);
    let vl = v.len();
    let pieces = split_char_ranges(&v, 0, vl, '&');
    assert(v@.subrange(0, vl as int) =~= query@);
    let ghost ps = split_char(query@, '&');
    let mut i: usize = 0;
    assert(ps.skip(0) =~= ps);
    while i < pieces.len()
        invariant
            i <= pieces@.len(),
            pieces@.len() == ps.len(),
            w@ == name@,
            forall|j: int|
                0 <= j < pieces@.len() ==> (#[trigger] pieces@[j]).0 <= pieces@[j].1 <= v@.len()
                    && v@.subrange(pieces@[j].0 as int, pieces@[j].1 as int) == ps[j],
            query_param_spec(query@, name@) == query_lookup(ps.skip(i as int), name@),
        decreases pieces@.len() - i,
    {
        let (a, b) = pieces[i];
        let ghost p = ps[i as int];
        assert(ps.skip(i as int)[0] == p);
        assert(ps.skip(i as int).drop_first() =~= ps.skip(i + 1));
        match find_in(&v, a, b, '=') {
            Some(k) => {
                proof {
                    lemma_first_index(p, '=', k - a);
                }
                assert(p.take(k - a) =~= v@.subrange(a as int, k as int));
                if k - a == w.len() && crate::text::matches_at(&v, a, &w) {
                    assert(v@.subrange(a as int, k as int) =~= w@);
                    assert(p.skip(k - a + 1) =~= v@.subrange(k + 1, b as int));
                    return Some(string_of_range(&v, k + 1, b));
                }
                assert(v@.subrange(a as int, k as int) != w@) by {
                    if v@.subrange(a as int, k as int) == w@ {
                        assert(v@.subrange(a as int, a + w@.len()) =~= w@);
                    }
                }
            },
            None => {},
        }
        i += 1;
    }
    None
}

/// `c` with ASCII upper case letters mapped to lower case, as a code point.
pub open spec fn lower_code(c: char) -> u32 {
    if 'A' <= c && c <= 'Z' {
        (c as u32 + 32) as u32
    } else {
        c as u32
    }
}

/// Whether two texts are equal when ASCII letters are compared without case
/// (`str::eq_ignore_ascii_case`).
pub open spec fn eq_ignore_ascii_case(a: Seq<char>, b: Seq<char>) -> bool {
    a.len() == b.len() && forall|i: int| 0 <= i < a.len() ==> lower_code(a[i]) == lower_code(b[i])
}

fn lower_char_code(c: char) -> (r: u32)
    ensures
        r == lower_code(c),
{
    if 'A' <= c && c <= 'Z' {
        c as u32 + 32
    } else {
        c as u32
    }
}

/// `str::eq_ignore_ascii_case`.
pub fn text_eq_ignore_ascii_case(a: &str, b: &str) -> (r: bool)
    ensures
        r == eq_ignore_ascii_case(a@, b@),
{
    let x = chars_of(a);
    let y = chars_of(b);
    if x.len() != y.len() {
        return false;
    }
    let mut i: usize = 0;
    while i < x.len()
        invariant
            x@ == a@,
            y@ == b@,
            x@.len() == y@.len(),
            i <= x@.len(),
            forall|j: int| 0 <= j < i ==> lower_code(x@[j]) == lower_code(y@[j]),
        decreases x@.len() - i,
    {
        if lower_char_code(x[i]) != lower_char_code(y[i]) {
            return false;
        }
        i += 1;
    }
    true
}

/// The value of the first header named `Content-Length` in any letter case.
pub open spec fn content_length_header(h: Seq<(Seq<char>, Seq<char>)>) -> Option<Seq<char>>
    decreases h.len(),
{
    if h.len() == 0 {
        None
    } else if eq_ignore_ascii_case(h[0].0, "content-length"@) {
        Some(h[0].1)
    } else {
        content_length_header(h.drop_first())
    }
}

/// The declared body length: the first `Content-Length` header's trimmed
/// value read as a `usize`, and 0 when there is none or it does not read.
pub open spec fn content_length_spec(h: Seq<(Seq<char>, Seq<char>)>) -> nat {
    match content_length_header(h) {
        Some(v) => match parse_uint(trim(v), usize::MAX as nat) {
            Some(n) => n,
            None => 0,
        },
        None => 0,
    }
}

/// Extract `Content-Length` from headers.
pub fn content_length(headers: &[(String, String)]) -> (n: usize)
    ensures
        n == content_length_spec(pair_texts(headers@)),
{
    let ghost hs = pair_texts(headers@);
    let mut i: usize = 0;
    assert(hs.skip(0) =~= hs);
    while i < headers.len()
        invariant
            i <= headers@.len(),
            hs == pair_texts(headers@),
            content_length_header(hs) == content_length_header(hs.skip(i as int)),
        decreases headers@.len() - i,
    {
        assert(hs.skip(i as int)[0] == hs[i as int]);
        assert(hs.skip(i as int).drop_first() =~= hs.skip(i + 1));
        let name = headers[i].0.as_str();
        if text_eq_ignore_ascii_case(name, "content-length") {
            let v = chars_of(headers[i].1.as_str());
            let vl = v.len();
            let (a, b) = trim_range(&v, 0, vl);
            assert(v@.subrange(0, vl as int) =~= hs[i as int].1);
            let parsed = parse_uint_range(&v, a, b, usize::MAX as u64);
            return match parsed {
                Some(x) => x as usize,
                None => 0,
            };
        }
        i += 1;
    }
    assert(hs.skip(i as int) =~= Seq::<(Seq<char>, Seq<char>)>::empty());
    0
}

// ---------------------------------------------------------------------------
// Webhook verification and routing
// ---------------------------------------------------------------------------

/// The challenge to echo back to a webhook verification request: when
/// `hub.mode` is `subscribe` and `hub.verify_token` is `verify_token`, the
/// value of `hub.challenge`.
pub open spec fn verification_spec(query: Seq<char>, verify_token: Seq<char>) -> Option<Seq<char>> {
    match query_param_spec(query, "hub.mode"@) {
        Some(mode) => if mode != "subscribe"@ {
            None
        } else {
            match query_param_spec(query, "hub.verify_token"@) {
                Some(token) => if token != verify_token {
                    None
                } else {
                    query_param_spec(query, "hub.challenge"@)
                },
                None => None,
            }
        },
        None => None,
    }
}

/// Whether `c` does not occur in `s`.
pub open spec fn free_of(s: Seq<char>, c: char) -> bool {
    forall|i: int| 0 <= i < s.len() ==> s[i] != c
}

/// The query of a verification request: `hub.mode`, `hub.verify_token` and
/// `hub.challenge`, in that order.
pub open spec fn verification_query(mode: Seq<char>, token: Seq<char>, challenge: Seq<char>) -> Seq<char> {
    "hub.mode"@ + seq!['='] + mode + seq!['&'] + "hub.verify_token"@ + seq!['='] + token + seq!['&']
        + "hub.challenge"@ + seq!['='] + challenge
}

proof fn lemma_split_char_join(a: Seq<char>, b: Seq<char>, c: char)
    ensures
        split_char(a + seq![c] + b, c) == split_char(a, c) + split_char(b, c),
    decreases b.len(),
{
    let s = a + seq![c] + b;
    if b.len() == 0 {
        assert(s.drop_last() =~= a);
        assert(split_char(b, c) =~= seq![Seq::<char>::empty()]);
        assert(split_char(a, c).push(Seq::<char>::empty()) =~= split_char(a, c) + split_char(b, c));
    } else {
        let b1 = b.drop_last();
        lemma_split_char_join(a, b1, c);
        crate::split::lemma_split_char_nonempty(b1, c);
        assert(s.drop_last() =~= a + seq![c] + b1);
        assert(s.last() == b.last());
        let ra = split_char(a, c);
        let rb = split_char(b1, c);
        if b.last() == c {
            assert((ra + rb).push(Seq::<char>::empty()) =~= ra + rb.push(Seq::<char>::empty()));
        } else {
            let r = ra + rb;
            assert(r.last() == rb.last());
            assert(r.update(r.len() - 1, r.last().push(b.last())) =~= ra + rb.update(
                rb.len() - 1,
                rb.last().push(b.last()),
            ));
        }
    }
}

proof fn lemma_split_char_free(p: Seq<char>, c: char)
    requires
        free_of(p, c),
    ensures
        split_char(p, c) == seq![p],
    decreases p.len(),
{
    if p.len() == 0 {
        assert(p =~= Seq::<char>::empty());
    } else {
        assert(p.last() != c);
        assert(free_of(p.drop_last(), c));
        lemma_split_char_free(p.drop_last(), c);
        assert(p.drop_last().push(p.last()) =~= p);
        assert(seq![p.drop_last()].update(0, p.drop_last().push(p.last())) =~= seq![p]);
    }
}

proof fn lemma_pair_parts(key: Seq<char>, value: Seq<char>)
    requires
        free_of(key, '='),
    ensures
        occurs(key + seq!['='] + value, '='),
        first_index(key + seq!['='] + value, '=') == key.len(),
        (key + seq!['='] + value).take(key.len() as int) == key,
        (key + seq!['='] + value).skip(key.len() as int + 1) == value,
{
    let p = key + seq!['='] + value;
    assert(p[key.len() as int] == '=');
    assert(is_first_index(p, '=', key.len() as int));
    lemma_first_index(p, '=', key.len() as int);
    assert(p.take(key.len() as int) =~= key);
    assert(p.skip(key.len() as int + 1) =~= value);
}

proof fn lemma_verification_keys()
    ensures
        free_of("hub.mode"@, '=') && free_of("hub.mode"@, '&'),
        free_of("hub.verify_token"@, '=') && free_of("hub.verify_token"@, '&'),
        free_of("hub.challenge"@, '=') && free_of("hub.challenge"@, '&'),
        "hub.mode"@ != "hub.verify_token"@,
        "hub.mode"@ != "hub.challenge"@,
        "hub.verify_token"@ != "hub.challenge"@,
{
    reveal_strlit("hub.mode");
    reveal_strlit("hub.verify_token");
    reveal_strlit("hub.challenge");
    assert("hub.mode"@.len() == 8 && "hub.verify_token"@.len() == 16 && "hub.challenge"@.len() == 13);
    assert forall|i: int| 0 <= i < 8 implies "hub.mode"@[i] != '=' && "hub.mode"@[i] != '&' by {
        if i == 0 {} else if i == 1 {} else if i == 2 {} else if i == 3 {} else if i == 4 {} else if i == 5 {} else if i == 6 {} else if i == 7 {}
    }
    assert forall|i: int| 0 <= i < 16 implies "hub.verify_token"@[i] != '=' && "hub.verify_token"@[i] != '&' by {
        if i == 0 {} else if i == 1 {} else if i == 2 {} else if i == 3 {} else if i == 4 {} else if i == 5 {} else if i == 6 {} else if i == 7 {} else if i == 8 {} else if i == 9 {} else if i == 10 {} else if i == 11 {} else if i == 12 {} else if i == 13 {} else if i == 14 {} else if i == 15 {}
    }
    assert forall|i: int| 0 <= i < 13 implies "hub.challenge"@[i] != '=' && "hub.challenge"@[i] != '&' by {
        if i == 0 {} else if i == 1 {} else if i == 2 {} else if i == 3 {} else if i == 4 {} else if i == 5 {} else if i == 6 {} else if i == 7 {} else if i == 8 {} else if i == 9 {} else if i == 10 {} else if i == 11 {} else if i == 12 {}
    }
}

/// The verification handshake: a request whose query gives `hub.mode`,
/// `hub.verify_token` and `hub.challenge` (values without `&`) is answered
/// with the challenge exactly when the mode is `subscribe` and the token is
/// the configured one; otherwise it is refused.
pub proof fn lemma_verification_handshake(
    mode: Seq<char>,
    token: Seq<char>,
    challenge: Seq<char>,
    configured: Seq<char>,
)
    requires
        free_of(mode, '&'),
        free_of(token, '&'),
        free_of(challenge, '&'),
    ensures
        verification_spec(verification_query(mode, token, challenge), configured) == if mode == "subscribe"@
            && token == configured {
            Some(challenge)
        } else {
            None::<Seq<char>>
        },
{
    lemma_verification_keys();
    let k1 = "hub.mode"@;
    let k2 = "hub.verify_token"@;
    let k3 = "hub.challenge"@;
    let p1 = k1 + seq!['='] + mode;
    let p2 = k2 + seq!['='] + token;
    let p3 = k3 + seq!['='] + challenge;
    let q = verification_query(mode, token, challenge);
    assert(q =~= p1 + seq!['&'] + (p2 + seq!['&'] + p3));
    assert(free_of(p1, '&'));
    assert(free_of(p2, '&'));
    assert(free_of(p3, '&'));
    lemma_split_char_join(p1, p2 + seq!['&'] + p3, '&');
    lemma_split_char_join(p2, p3, '&');
    lemma_split_char_free(p1, '&');
    lemma_split_char_free(p2, '&');
    lemma_split_char_free(p3, '&');
    let ps = split_char(q, '&');
    assert(ps =~= seq![p1, p2, p3]);
    lemma_pair_parts(k1, mode);
    lemma_pair_parts(k2, token);
    lemma_pair_parts(k3, challenge);
    assert(ps.drop_first() =~= seq![p2, p3]);
    assert(ps.drop_first().drop_first() =~= seq![p3]);
    let ps1 = ps.drop_first();
    let ps2 = ps1.drop_first();
    assert(ps[0] == p1 && ps1[0] == p2 && ps2[0] == p3);
    assert(query_param_spec(q, k1) == Some(mode));
    assert(query_lookup(ps, k2) == query_lookup(ps1, k2));
    assert(query_lookup(ps1, k2) == Some(token));
    assert(query_param_spec(q, k2) == Some(token));
    assert(query_lookup(ps, k3) == query_lookup(ps1, k3));
    assert(query_lookup(ps1, k3) == query_lookup(ps2, k3));
    assert(query_lookup(ps2, k3) == Some(challenge));
    assert(query_param_spec(q, k3) == Some(challenge));
}

/// Handle a webhook verification request: Meta sends
/// `hub.mode=subscribe&hub.verify_token=TOKEN&hub.challenge=CHALLENGE` and
/// expects the challenge back when the token matches.
pub fn handle_verification(query: &str, verify_token: &str) -> (r: Option<String>)
    ensures
        match verification_spec(query@, verify_token@) {
            Some(c) => r matches Some(s) && s@ == c,
            None => r is None,
        },
{
    let mode = match query_param(query, "hub.mode") {
        Some(m) => m,
        None => {
            return None;
        },
    };
    if !str_eq(mode.as_str(), "subscribe") {
        return None;
    }
    let token = match query_param(query, "hub.verify_token") {
        Some(t) => t,
        None => {
            return None;
        },
    };
    if !str_eq(token.as_str(), verify_token) {
        return None;
    }
    query_param(query, "hub.challenge")
}

/// How the webhook answers a parsed request.
pub enum WebhookReply {
    /// The path is not the webhook's: 404.
    NotFound,
    /// A verification request that passed: 200 with the challenge.
    Challenge(String),
    /// A verification request that failed: 403.
    Forbidden,
    /// A notification: 200 at once, then the body is read.
    Notification,
    /// Any other method: 405.
    MethodNotAllowed,
}

/// Decides the answer to a request received on the webhook at `path`.
pub fn route_request(req: &ParsedHttpRequest, path: &str, verify_token: &str) -> (r: WebhookReply)
    ensures
        req.path@ != path@ ==> r is NotFound,
        req.path@ == path@ && req.method@ == "GET"@ ==> match verification_spec(
            req.query@,
            verify_token@,
        ) {
            Some(c) => r matches WebhookReply::Challenge(s) && s@ == c,
            None => r is Forbidden,
        },
        req.path@ == path@ && req.method@ == "POST"@ ==> r is Notification,
        req.path@ == path@ && req.method@ != "GET"@ && req.method@ != "POST"@ ==> r is MethodNotAllowed,
{
    proof {
        reveal_strlit("GET");
        reveal_strlit("POST");
        assert("GET"@.len() == 3);
        assert("POST"@.len() == 4);
        assert("POST"@ != "GET"@);
    }
    if !str_eq(req.path.as_str(), path) {
        return WebhookReply::NotFound;
    }
    if str_eq(req.method.as_str(), "GET") {
        match handle_verification(req.query.as_str(), verify_token) {
            Some(c) => WebhookReply::Challenge(c),
            None => WebhookReply::Forbidden,
        }
    } else if str_eq(req.method.as_str(), "POST") {
        WebhookReply::Notification
    } else {
        WebhookReply::MethodNotAllowed
    }
}

/// The HTTP response text for a reply.
pub open spec fn reply_text(r: WebhookReply) -> Seq<char> {
    match r {
        WebhookReply::NotFound => "HTTP/1.1 404 Not Found\r\nContent-Length: 0\r\nConnection: close\r\n\r\n"@,
        WebhookReply::Challenge(c) => "HTTP/1.1 200 OK\r\nContent-Type: text/plain\r\nContent-Length: "@
            + crate::text::decimal(crate::text::utf8_len(c@)) + "\r\nConnection: close\r\n\r\n"@ + c@,
        WebhookReply::Forbidden => "HTTP/1.1 403 Forbidden\r\nContent-Length: 0\r\nConnection: close\r\n\r\n"@,
        WebhookReply::Notification => "HTTP/1.1 200 OK\r\nContent-Length: 0\r\nConnection: close\r\n\r\n"@,
        WebhookReply::MethodNotAllowed => "HTTP/1.1 405 Method Not Allowed\r\nContent-Length: 0\r\nConnection: close\r\n\r\n"@,
    }
}

/// The HTTP response to send for a reply.
pub fn reply_response(r: &WebhookReply) -> (s: String)
    ensures
        s@ == reply_text(*r),
{
    match r {
        WebhookReply::NotFound => String::from_str(
            "HTTP/1.1 404 Not Found\r\nContent-Length: 0\r\nConnection: close\r\n\r\n",
        ),
        WebhookReply::Challenge(c) => {
            let mut s = String::from_str(
                "HTTP/1.1 200 OK\r\nContent-Type: text/plain\r\nContent-Length: ",
            );
            let n = c.as_str().as_bytes().len();
            let d = crate::text::decimal_text(n as u64);
            s.append(d.as_str());
            s.append("\r\nConnection: close\r\n\r\n");
            s.append(c.as_str());
            s
        },
        WebhookReply::Forbidden => String::from_str(
            "HTTP/1.1 403 Forbidden\r\nContent-Length: 0\r\nConnection: close\r\n\r\n",
        ),
        WebhookReply::Notification => String::from_str(
            "HTTP/1.1 200 OK\r\nContent-Length: 0\r\nConnection: close\r\n\r\n",
        ),
        WebhookReply::MethodNotAllowed => String::from_str(
            "HTTP/1.1 405 Method Not Allowed\r\nContent-Length: 0\r\nConnection: close\r\n\r\n",
        ),
    }
}

/// Whether the bytes read so far make a whole request: the header section
/// has ended, and either the request does not parse or the body holds at
/// least the declared length.
pub open spec fn request_complete(data: Seq<u8>) -> bool {
    exists|i: int| {
        &&& #[trigger] blank_line_at(data, i)
        &&& forall|j: int| 0 <= j < i ==> !blank_line_at(data, j)
        &&& (!valid_utf8(data) || match parse_http_spec(decode_utf8(data)) {
            Ok(v) => data.len() - i - 4 >= content_length_spec(v.headers),
            Err(_) => true,
        })
    }
}

/// Whether reading a webhook request can stop after the bytes `data`.
pub fn is_request_complete(data: &[u8]) -> (b: bool)
    ensures
        b == request_complete(data@),
{
    match find_header_end(data) {
        Some(end) => {
            match parse_http_request(data) {
                Ok(req) => {
                    let cl = content_length(req.headers.as_slice());
                    proof {
                        assert(pair_texts(req.headers@) == req@.headers);
                    }
                    data.len() - end - 4 >= cl
                },
                Err(_) => true,
            }
        },
        None => false,
    }
}

/// Truncate a message to the WhatsApp character limit.
pub open spec fn truncate_message_spec(s: Seq<char>) -> Seq<char> {
    if s.len() <= 4096 {
        s
    } else {
        s.take(4082) + "...(truncated)"@
    }
}

/// A message within the limit is sent unchanged, and no truncated message
/// exceeds the limit.
pub proof fn lemma_truncate_message_bounded(s: Seq<char>)
    ensures
        truncate_message_spec(s).len() <= 4096,
        s.len() <= 4096 ==> truncate_message_spec(s) == s,
        s.len() > 4096 ==> truncate_message_spec(s).take(4082) == s.take(4082),
{
    reveal_strlit("...(truncated)");
    if s.len() > 4096 {
        assert((s.take(4082) + "...(truncated)"@).take(4082) =~= s.take(4082));
    }
}

/// Truncate a message to the WhatsApp character limit: longer texts keep
/// their first 4082 characters and end in `...(truncated)`, 4096 in all.
pub fn truncate_message(content: &str) -> (r: String)
    ensures
        r@ == truncate_message_spec(content@),
{
    let v = chars_of(content);
    if v.len() <= MAX_MESSAGE_LENGTH {
        return String::from_str(content);
    }
    let mut r = string_of_range(&v, 0, 4082);
    r.append("...(truncated)");
    r
}

// ---------------------------------------------------------------------------
// Webhook notifications
// ---------------------------------------------------------------------------

/// Top-level webhook notification from Meta.
pub struct WebhookNotification {
    /// Should always be "whatsapp_business_account".
    pub object: String,
    pub entry: Vec<WebhookEntry>,
}

/// A single entry in the webhook notification.
pub struct WebhookEntry {
    pub changes: Vec<WebhookChange>,
}

/// A change within an entry.
pub struct WebhookChange {
    pub value: Option<WebhookValue>,
}

/// The value payload containing messages, contacts, and metadata.
pub struct WebhookValue {
    pub messages: Vec<WebhookMessage>,
    pub contacts: Vec<WebhookContact>,
    pub metadata: Option<WebhookMetadata>,
}

/// A single inbound message from the webhook.
pub struct WebhookMessage {
    /// Sender phone number (e.g. "60123456789").
    pub from: String,
    /// WhatsApp message ID.
    pub id: String,
    /// Unix timestamp as string.
    pub timestamp: String,
    /// Message type: "text", "image", "video", etc.
    pub msg_type: String,
    /// Text content (only present when type = "text").
    pub text: Option<WebhookTextContent>,
    /// Audio content (present when type = "audio").
    pub audio: Option<AudioContent>,
}

/// Text content within a message.
pub struct WebhookTextContent {
    pub body: String,
}

/// Audio content within a WhatsApp message.
pub struct AudioContent {
    /// Media object ID, used to fetch the download URL.
    pub id: String,
    /// MIME type reported by WhatsApp (e.g. "audio/ogg; codecs=opus").
    pub mime_type: String,
}

/// Contact info from the webhook.
pub struct WebhookContact {
    pub profile: Option<WebhookProfile>,
}

/// Profile info within a contact.
pub struct WebhookProfile {
    pub name: String,
}

/// Metadata about the receiving phone number.
pub struct WebhookMetadata {
    pub phone_number_id: String,
}

/// Whether a notification is one of the WhatsApp business account's.
pub fn is_business_notification(n: &WebhookNotification) -> (b: bool)
    ensures
        b == (n.object@ == "whatsapp_business_account"@),
{
    str_eq(n.object.as_str(), "whatsapp_business_account")
}

/// A message received on a channel, for the agent.
pub struct InboundMessage {
    pub channel: String,
    pub sender_id: String,
    pub chat_id: String,
    pub content: String,
    /// Extra facts about the message, each key once.
    pub metadata: Vec<(String, String)>,
}

/// An inbound message as plain text values.
pub struct InboundView {
    pub channel: Seq<char>,
    pub sender_id: Seq<char>,
    pub chat_id: Seq<char>,
    pub content: Seq<char>,
    pub metadata: Seq<(Seq<char>, Seq<char>)>,
}

impl InboundMessage {
    pub open spec fn view(&self) -> InboundView {
        InboundView {
            channel: self.channel@,
            sender_id: self.sender_id@,
            chat_id: self.chat_id@,
            content: self.content@,
            metadata: pair_texts(self.metadata@),
        }
    }
}

/// The views of a list of inbound messages.
pub open spec fn inbound_views(s: Seq<InboundMessage>) -> Seq<InboundView> {
    s.map_values(|m: InboundMessage| m@)
}


/// Whether messages from `from` are accepted: with an empty allowlist, when
/// not denying by default; else when `from` is on the list.
pub open spec fn sender_allowed(from: Seq<char>, allowlist: Seq<Seq<char>>, deny_by_default: bool) -> bool {
    if allowlist.len() == 0 {
        !deny_by_default
    } else {
        allowlist.contains(from)
    }
}

/// The metadata of an inbound text message: the message id, the timestamp
/// and the sender's name, each when not empty.
pub open spec fn inbound_metadata(id: Seq<char>, timestamp: Seq<char>, name: Seq<char>) -> Seq<
    (Seq<char>, Seq<char>),
> {
    (if id.len() > 0 {
        seq![("whatsapp_message_id"@, id)]
    } else {
        Seq::empty()
    }) + (if timestamp.len() > 0 {
        seq![("timestamp"@, timestamp)]
    } else {
        Seq::empty()
    }) + (if name.len() > 0 {
        seq![("sender_name"@, name)]
    } else {
        Seq::empty()
    })
}

/// The inbound message a webhook message gives: text messages with a
/// non-blank body from a non-blank, allowed sender.
pub open spec fn text_inbound(
    m: WebhookMessage,
    sender_name: Seq<char>,
    allowlist: Seq<Seq<char>>,
    deny_by_default: bool,
) -> Seq<InboundView> {
    if m.msg_type@ != "text"@ {
        Seq::empty()
    } else {
        match m.text {
            None => Seq::empty(),
            Some(t) => {
                let body = trim(t.body@);
                let from = trim(m.from@);
                if body.len() == 0 || from.len() == 0 || !sender_allowed(
                    from,
                    allowlist,
                    deny_by_default,
                ) {
                    Seq::empty()
                } else {
                    seq![
                        InboundView {
                            channel: "whatsapp_cloud"@,
                            sender_id: from,
                            chat_id: from,
                            content: body,
                            metadata: inbound_metadata(m.id@, m.timestamp@, sender_name),
                        },
                    ]
                }
            },
        }
    }
}

/// The inbound messages of a list of webhook messages.
pub open spec fn messages_inbound(
    ms: Seq<WebhookMessage>,
    sender_name: Seq<char>,
    allowlist: Seq<Seq<char>>,
    deny_by_default: bool,
) -> Seq<InboundView>
    decreases ms.len(),
{
    if ms.len() == 0 {
        Seq::empty()
    } else {
        messages_inbound(ms.drop_last(), sender_name, allowlist, deny_by_default) + text_inbound(
            ms.last(),
            sender_name,
            allowlist,
            deny_by_default,
        )
    }
}

/// The name of a value's first contact, empty when there is none.
pub open spec fn first_contact_name(v: WebhookValue) -> Seq<char> {
    if v.contacts@.len() > 0 {
        match v.contacts@[0].profile {
            Some(p) => p.name@,
            None => Seq::empty(),
        }
    } else {
        Seq::empty()
    }
}

/// The inbound messages of one change.
pub open spec fn change_inbound(c: WebhookChange, allowlist: Seq<Seq<char>>, deny_by_default: bool) -> Seq<
    InboundView,
> {
    match c.value {
        Some(v) => messages_inbound(v.messages@, first_contact_name(v), allowlist, deny_by_default),
        None => Seq::empty(),
    }
}

/// The inbound messages of a list of changes.
pub open spec fn changes_inbound(cs: Seq<WebhookChange>, allowlist: Seq<Seq<char>>, deny_by_default: bool) -> Seq<
    InboundView,
>
    decreases cs.len(),
{
    if cs.len() == 0 {
        Seq::empty()
    } else {
        changes_inbound(cs.drop_last(), allowlist, deny_by_default) + change_inbound(
            cs.last(),
            allowlist,
            deny_by_default,
        )
    }
}

/// The inbound messages of a list of entries.
pub open spec fn entries_inbound(es: Seq<WebhookEntry>, allowlist: Seq<Seq<char>>, deny_by_default: bool) -> Seq<
    InboundView,
>
    decreases es.len(),
{
    if es.len() == 0 {
        Seq::empty()
    } else {
        entries_inbound(es.drop_last(), allowlist, deny_by_default) + changes_inbound(
            es.last().changes@,
            allowlist,
            deny_by_default,
        )
    }
}

/// Whether `from` is on the allowlist.
fn on_list(allowlist: &[String], from: &str) -> (b: bool)
    ensures
        b == texts(allowlist@).contains(from@),
{
    let mut i: usize = 0;
    while i < allowlist.len()
        invariant
            i <= allowlist@.len(),
            forall|j: int| 0 <= j < i ==> allowlist@[j]@ != from@,
        decreases allowlist@.len() - i,
    {
        if str_eq(allowlist[i].as_str(), from) {
            assert(texts(allowlist@)[i as int] == from@);
            return true;
        }
        i += 1;
    }
    assert forall|j: int| 0 <= j < texts(allowlist@).len() implies texts(allowlist@)[j] != from@ by {
        assert(texts(allowlist@)[j] == allowlist@[j]@);
    }
    false
}

/// Appends the inbound message of `m`, if it gives one.
fn push_text_inbound(
    m: &WebhookMessage,
    sender_name: &String,
    allowlist: &[String],
    deny_by_default: bool,
    out: &mut Vec<InboundMessage>,
)
    ensures
        inbound_views(final(out)@) == inbound_views(old(out)@) + text_inbound(
            *m,
            sender_name@,
            texts(allowlist@),
            deny_by_default,
        ),
{
    assert(inbound_views(old(out)@) + Seq::<InboundView>::empty() =~= inbound_views(old(out)@));
    if !str_eq(m.msg_type.as_str(), "text") {
        return;
    }
    let t = match &m.text {
        Some(t) => t,
        None => {
            return;
        },
    };
    let body = crate::text::trimmed(t.body.as_str());
    if body.as_str().is_empty() {
        return;
    }
    let from = crate::text::trimmed(m.from.as_str());
    if from.as_str().is_empty() {
        return;
    }
    let allowed = if allowlist.len() == 0 {
        !deny_by_default
    } else {
        on_list(allowlist, from.as_str())
    };
    if !allowed {
        return;
    }
    let mut metadata: Vec<(String, String)> = Vec::new();
    let ghost m0 = pair_texts(metadata@);
    if !m.id.as_str().is_empty() {
        metadata.push((String::from_str("whatsapp_message_id"), m.id.clone()));
    }
    let ghost m1 = pair_texts(metadata@);
    if !m.timestamp.as_str().is_empty() {
        metadata.push((String::from_str("timestamp"), m.timestamp.clone()));
    }
    let ghost m2 = pair_texts(metadata@);
    if !sender_name.as_str().is_empty() {
        metadata.push((String::from_str("sender_name"), sender_name.clone()));
    }
    proof {
        assert(pair_texts(metadata@) =~= inbound_metadata(m.id@, m.timestamp@, sender_name@));
    }
    let chat_id = from.clone();
    let msg = InboundMessage {
        channel: String::from_str("whatsapp_cloud"),
        sender_id: from,
        chat_id,
        content: body,
        metadata,
    };
    let ghost before = out@;
    out.push(msg);
    assert(inbound_views(out@) =~= inbound_views(before).push(msg@));
}

/// Appends the inbound messages of `ms`.
fn push_messages_inbound(
    ms: &Vec<WebhookMessage>,
    sender_name: &String,
    allowlist: &[String],
    deny_by_default: bool,
    out: &mut Vec<InboundMessage>,
)
    ensures
        inbound_views(final(out)@) == inbound_views(old(out)@) + messages_inbound(
            ms@,
            sender_name@,
            texts(allowlist@),
            deny_by_default,
        ),
{
    let ghost al = texts(allowlist@);
    let ghost start = inbound_views(out@);
    let mut i: usize = 0;
    assert(ms@.take(0) =~= Seq::<WebhookMessage>::empty());
    assert(start + Seq::<InboundView>::empty() =~= start);
    while i < ms.len()
        invariant
            i <= ms@.len(),
            al == texts(allowlist@),
            start == inbound_views(old(out)@),
            inbound_views(out@) == start + messages_inbound(
                ms@.take(i as int),
                sender_name@,
                al,
                deny_by_default,
            ),
        decreases ms@.len() - i,
    {
        assert(ms@.take(i + 1).drop_last() =~= ms@.take(i as int));
        assert(ms@.take(i + 1).last() == ms@[i as int]);
        push_text_inbound(&ms[i], sender_name, allowlist, deny_by_default, out);
        i += 1;
    }
    assert(ms@.take(i as int) =~= ms@);
}

/// Appends the inbound messages of `cs`.
fn push_changes_inbound(
    cs: &Vec<WebhookChange>,
    allowlist: &[String],
    deny_by_default: bool,
    out: &mut Vec<InboundMessage>,
)
    ensures
        inbound_views(final(out)@) == inbound_views(old(out)@) + changes_inbound(
            cs@,
            texts(allowlist@),
            deny_by_default,
        ),
{
    let ghost al = texts(allowlist@);
    let ghost start = inbound_views(out@);
    let mut i: usize = 0;
    assert(cs@.take(0) =~= Seq::<WebhookChange>::empty());
    assert(start + Seq::<InboundView>::empty() =~= start);
    while i < cs.len()
        invariant
            i <= cs@.len(),
            al == texts(allowlist@),
            start == inbound_views(old(out)@),
            inbound_views(out@) == start + changes_inbound(cs@.take(i as int), al, deny_by_default),
        decreases cs@.len() - i,
    {
        assert(cs@.take(i + 1).drop_last() =~= cs@.take(i as int));
        assert(cs@.take(i + 1).last() == cs@[i as int]);
        let ghost before = inbound_views(out@);
        match &cs[i].value {
            Some(v) => {
                let name = if v.contacts.len() > 0 {
                    match &v.contacts[0].profile {
                        Some(p) => p.name.clone(),
                        None => String::new(),
                    }
                } else {
                    String::new()
                };
                assert(name@ == first_contact_name(*v));
                push_messages_inbound(&v.messages, &name, allowlist, deny_by_default, out);
            },
            None => {
                assert(before + Seq::<InboundView>::empty() =~= before);
            },
        }
        assert(start + changes_inbound(cs@.take(i + 1), al, deny_by_default) =~= before
            + change_inbound(cs@[i as int], al, deny_by_default));
        i += 1;
    }
    assert(cs@.take(i as int) =~= cs@);
}

/// Extract text messages from a webhook notification, applying the
/// allowlist.
pub fn extract_text_messages(
    notification: &WebhookNotification,
    allowlist: &[String],
    deny_by_default: bool,
) -> (r: Vec<InboundMessage>)
    ensures
        inbound_views(r@) == entries_inbound(
            notification.entry@,
            texts(allowlist@),
            deny_by_default,
        ),
        inbound_views(r@) == taken_in(notification_messages(notification.entry@), texts(allowlist@), deny_by_default),
{
    proof {
        lemma_extraction_complete(notification.entry@, texts(allowlist@), deny_by_default);
    }
    let ghost al = texts(allowlist@);
    let ghost es = notification.entry@;
    let mut out: Vec<InboundMessage> = Vec::new();
    let mut i: usize = 0;
    assert(es.take(0) =~= Seq::<WebhookEntry>::empty());
    assert(inbound_views(out@) =~= Seq::<InboundView>::empty());
    while i < notification.entry.len()
        invariant
            i <= es.len(),
            es == notification.entry@,
            al == texts(allowlist@),
            inbound_views(out@) == entries_inbound(es.take(i as int), al, deny_by_default),
        decreases es.len() - i,
    {
        assert(es.take(i + 1).drop_last() =~= es.take(i as int));
        assert(es.take(i + 1).last() == es[i as int]);
        push_changes_inbound(&notification.entry[i].changes, allowlist, deny_by_default, &mut out);
        i += 1;
    }
    assert(es.take(i as int) =~= es);
    out
}

/// The messages of a list of changes, in order, each with the name of its
/// change's first contact.
pub open spec fn change_messages(cs: Seq<WebhookChange>) -> Seq<(WebhookMessage, Seq<char>)>
    decreases cs.len(),
{
    if cs.len() == 0 {
        Seq::empty()
    } else {
        change_messages(cs.drop_last()) + match cs.last().value {
            Some(v) => v.messages@.map_values(|m: WebhookMessage| (m, first_contact_name(v))),
            None => Seq::empty(),
        }
    }
}

/// Every message of a notification, in entry, change and message order, each
/// with the name of its change's first contact.
pub open spec fn notification_messages(es: Seq<WebhookEntry>) -> Seq<(WebhookMessage, Seq<char>)>
    decreases es.len(),
{
    if es.len() == 0 {
        Seq::empty()
    } else {
        notification_messages(es.drop_last()) + change_messages(es.last().changes@)
    }
}

/// Whether the channel takes a message in: a text message whose body is not
/// blank, from a sender that is not blank and that the allowlist admits.
pub open spec fn takes_in(m: WebhookMessage, allowlist: Seq<Seq<char>>, deny_by_default: bool) -> bool {
    &&& m.msg_type@ == "text"@
    &&& m.text matches Some(t) && trim(t.body@).len() > 0
    &&& trim(m.from@).len() > 0
    &&& sender_allowed(trim(m.from@), allowlist, deny_by_default)
}

/// The inbound message a taken-in message becomes: sender and chat are the
/// trimmed sender, the content the trimmed body.
pub open spec fn inbound_of_message(m: WebhookMessage, sender_name: Seq<char>) -> InboundView {
    InboundView {
        channel: "whatsapp_cloud"@,
        sender_id: trim(m.from@),
        chat_id: trim(m.from@),
        content: match m.text {
            Some(t) => trim(t.body@),
            None => Seq::empty(),
        },
        metadata: inbound_metadata(m.id@, m.timestamp@, sender_name),
    }
}

/// The inbound messages of a list of messages: one for each message taken
/// in, in order, and none for the others.
pub open spec fn taken_in(
    ps: Seq<(WebhookMessage, Seq<char>)>,
    allowlist: Seq<Seq<char>>,
    deny_by_default: bool,
) -> Seq<InboundView> {
    ps.filter(|p: (WebhookMessage, Seq<char>)| takes_in(p.0, allowlist, deny_by_default)).map_values(
        |p: (WebhookMessage, Seq<char>)| inbound_of_message(p.0, p.1),
    )
}

proof fn lemma_taken_in_add(
    a: Seq<(WebhookMessage, Seq<char>)>,
    b: Seq<(WebhookMessage, Seq<char>)>,
    allowlist: Seq<Seq<char>>,
    deny_by_default: bool,
)
    ensures
        taken_in(a + b, allowlist, deny_by_default) == taken_in(a, allowlist, deny_by_default) + taken_in(
            b,
            allowlist,
            deny_by_default,
        ),
{
    let pred = |p: (WebhookMessage, Seq<char>)| takes_in(p.0, allowlist, deny_by_default);
    let f = |p: (WebhookMessage, Seq<char>)| inbound_of_message(p.0, p.1);
    Seq::filter_distributes_over_add(a, b, pred);
    let fa = a.filter(pred);
    let fb = b.filter(pred);
    assert((fa + fb).map_values(f) =~= fa.map_values(f) + fb.map_values(f));
}

proof fn lemma_messages_taken_in(
    ms: Seq<WebhookMessage>,
    name: Seq<char>,
    allowlist: Seq<Seq<char>>,
    deny_by_default: bool,
)
    ensures
        messages_inbound(ms, name, allowlist, deny_by_default) == taken_in(
            ms.map_values(|m: WebhookMessage| (m, name)),
            allowlist,
            deny_by_default,
        ),
    decreases ms.len(),
{
    let ps = ms.map_values(|m: WebhookMessage| (m, name));
    if ms.len() == 0 {
        assert(ps =~= Seq::<(WebhookMessage, Seq<char>)>::empty());
        assert(taken_in(ps, allowlist, deny_by_default) =~= Seq::<InboundView>::empty());
    } else {
        let q = ms.drop_last();
        let l = ms.last();
        lemma_messages_taken_in(q, name, allowlist, deny_by_default);
        let pq = q.map_values(|m: WebhookMessage| (m, name));
        assert(ps =~= pq + seq![(l, name)]);
        lemma_taken_in_add(pq, seq![(l, name)], allowlist, deny_by_default);
        let pred = |p: (WebhookMessage, Seq<char>)| takes_in(p.0, allowlist, deny_by_default);
        crate::seqs::lemma_filter_push(Seq::<(WebhookMessage, Seq<char>)>::empty(), pred, (l, name));
        assert(Seq::<(WebhookMessage, Seq<char>)>::empty().push((l, name)) =~= seq![(l, name)]);
        assert(Seq::<(WebhookMessage, Seq<char>)>::empty().filter(pred) =~= Seq::<(WebhookMessage, Seq<char>)>::empty()) by {
            reveal(Seq::filter);
        }
        if takes_in(l, allowlist, deny_by_default) {
            assert(taken_in(seq![(l, name)], allowlist, deny_by_default) =~= seq![inbound_of_message(l, name)]);
        } else {
            assert(taken_in(seq![(l, name)], allowlist, deny_by_default) =~= Seq::<InboundView>::empty());
        }
        assert(text_inbound(l, name, allowlist, deny_by_default) == taken_in(
            seq![(l, name)],
            allowlist,
            deny_by_default,
        ));
    }
}

proof fn lemma_changes_taken_in(cs: Seq<WebhookChange>, allowlist: Seq<Seq<char>>, deny_by_default: bool)
    ensures
        changes_inbound(cs, allowlist, deny_by_default) == taken_in(
            change_messages(cs),
            allowlist,
            deny_by_default,
        ),
    decreases cs.len(),
{
    if cs.len() == 0 {
        assert(taken_in(change_messages(cs), allowlist, deny_by_default) =~= Seq::<InboundView>::empty()) by {
            reveal(Seq::filter);
        }
    } else {
        let q = cs.drop_last();
        lemma_changes_taken_in(q, allowlist, deny_by_default);
        let tail = match cs.last().value {
            Some(v) => v.messages@.map_values(|m: WebhookMessage| (m, first_contact_name(v))),
            None => Seq::empty(),
        };
        lemma_taken_in_add(change_messages(q), tail, allowlist, deny_by_default);
        match cs.last().value {
            Some(v) => {
                lemma_messages_taken_in(v.messages@, first_contact_name(v), allowlist, deny_by_default);
            },
            None => {
                assert(taken_in(tail, allowlist, deny_by_default) =~= Seq::<InboundView>::empty()) by {
                    reveal(Seq::filter);
                }
            },
        }
    }
}

/// Extraction is complete and in order: the inbound messages of a
/// notification are exactly one for each of its messages that the channel
/// takes in (text, non-blank body, non-blank sender the allowlist admits),
/// in entry, change and message order, and none for any other message.
pub proof fn lemma_extraction_complete(es: Seq<WebhookEntry>, allowlist: Seq<Seq<char>>, deny_by_default: bool)
    ensures
        entries_inbound(es, allowlist, deny_by_default) == taken_in(
            notification_messages(es),
            allowlist,
            deny_by_default,
        ),
    decreases es.len(),
{
    if es.len() == 0 {
        assert(taken_in(notification_messages(es), allowlist, deny_by_default) =~= Seq::<InboundView>::empty()) by {
            reveal(Seq::filter);
        }
    } else {
        let q = es.drop_last();
        lemma_extraction_complete(q, allowlist, deny_by_default);
        lemma_changes_taken_in(es.last().changes@, allowlist, deny_by_default);
        lemma_taken_in_add(notification_messages(q), change_messages(es.last().changes@), allowlist, deny_by_default);
    }
}

/// Whether an inbound message respects the allowlist and carries text.
pub open spec fn admitted(m: InboundView, allowlist: Seq<Seq<char>>, deny_by_default: bool) -> bool {
    &&& m.channel == "whatsapp_cloud"@
    &&& m.chat_id == m.sender_id
    &&& m.sender_id.len() > 0
    &&& sender_allowed(m.sender_id, allowlist, deny_by_default)
    &&& m.content.len() > 0
}

proof fn lemma_messages_admitted(
    ms: Seq<WebhookMessage>,
    name: Seq<char>,
    allowlist: Seq<Seq<char>>,
    deny_by_default: bool,
)
    ensures
        forall|k: int|
            0 <= k < messages_inbound(ms, name, allowlist, deny_by_default).len() ==> admitted(
                #[trigger] messages_inbound(ms, name, allowlist, deny_by_default)[k],
                allowlist,
                deny_by_default,
            ),
    decreases ms.len(),
{
    if ms.len() > 0 {
        lemma_messages_admitted(ms.drop_last(), name, allowlist, deny_by_default);
        let a = messages_inbound(ms.drop_last(), name, allowlist, deny_by_default);
        let b = text_inbound(ms.last(), name, allowlist, deny_by_default);
        assert forall|k: int| 0 <= k < (a + b).len() implies admitted(
            #[trigger] (a + b)[k],
            allowlist,
            deny_by_default,
        ) by {
            if k >= a.len() {
                assert((a + b)[k] == b[k - a.len()]);
            } else {
                assert((a + b)[k] == a[k]);
            }
        }
    }
}

proof fn lemma_changes_admitted(cs: Seq<WebhookChange>, allowlist: Seq<Seq<char>>, deny_by_default: bool)
    ensures
        forall|k: int|
            0 <= k < changes_inbound(cs, allowlist, deny_by_default).len() ==> admitted(
                #[trigger] changes_inbound(cs, allowlist, deny_by_default)[k],
                allowlist,
                deny_by_default,
            ),
    decreases cs.len(),
{
    if cs.len() > 0 {
        lemma_changes_admitted(cs.drop_last(), allowlist, deny_by_default);
        let a = changes_inbound(cs.drop_last(), allowlist, deny_by_default);
        let b = change_inbound(cs.last(), allowlist, deny_by_default);
        match cs.last().value {
            Some(v) => lemma_messages_admitted(
                v.messages@,
                first_contact_name(v),
                allowlist,
                deny_by_default,
            ),
            None => {},
        }
        assert forall|k: int| 0 <= k < (a + b).len() implies admitted(
            #[trigger] (a + b)[k],
            allowlist,
            deny_by_default,
        ) by {
            if k >= a.len() {
                assert((a + b)[k] == b[k - a.len()]);
            } else {
                assert((a + b)[k] == a[k]);
            }
        }
    }
}

/// Every message extracted from a notification comes on this channel from a
/// non-empty sender whom the allowlist admits (with an empty allowlist, only
/// when not denying by default), in the sender's own chat, with non-empty
/// text.
pub proof fn lemma_extracted_messages_admitted(
    es: Seq<WebhookEntry>,
    allowlist: Seq<Seq<char>>,
    deny_by_default: bool,
)
    ensures
        forall|k: int|
            0 <= k < entries_inbound(es, allowlist, deny_by_default).len() ==> admitted(
                #[trigger] entries_inbound(es, allowlist, deny_by_default)[k],
                allowlist,
                deny_by_default,
            ),
    decreases es.len(),
{
    if es.len() > 0 {
        lemma_extracted_messages_admitted(es.drop_last(), allowlist, deny_by_default);
        lemma_changes_admitted(es.last().changes@, allowlist, deny_by_default);
        let a = entries_inbound(es.drop_last(), allowlist, deny_by_default);
        let b = changes_inbound(es.last().changes@, allowlist, deny_by_default);
        assert forall|k: int| 0 <= k < (a + b).len() implies admitted(
            #[trigger] (a + b)[k],
            allowlist,
            deny_by_default,
        ) by {
            if k >= a.len() {
                assert((a + b)[k] == b[k - a.len()]);
            } else {
                assert((a + b)[k] == a[k]);
            }
        }
    }
}

// ---------------------------------------------------------------------------
// Voice messages
// ---------------------------------------------------------------------------

/// A voice message to hand to the agent, before any transcription.
pub struct AudioCandidate {
    /// The sender, trimmed.
    pub from: String,
    pub message_id: String,
    pub timestamp: String,
    /// The media id and MIME type, when the message carries them.
    pub media: Option<(String, String)>,
}

/// A voice message as plain text values.
pub struct AudioView {
    pub from: Seq<char>,
    pub message_id: Seq<char>,
    pub timestamp: Seq<char>,
    pub media: Option<(Seq<char>, Seq<char>)>,
}

impl AudioCandidate {
    pub open spec fn view(&self) -> AudioView {
        AudioView {
            from: self.from@,
            message_id: self.message_id@,
            timestamp: self.timestamp@,
            media: match self.media {
                Some((i, m)) => Some((i@, m@)),
                None => None,
            },
        }
    }
}

/// The views of a list of voice messages.
pub open spec fn audio_views(s: Seq<AudioCandidate>) -> Seq<AudioView> {
    s.map_values(|c: AudioCandidate| c@)
}

/// The voice message a webhook message gives: audio messages from a
/// non-blank, allowed sender.
pub open spec fn audio_of_message(m: WebhookMessage, allowlist: Seq<Seq<char>>, deny_by_default: bool) -> Seq<AudioView> {
    let from = trim(m.from@);
    if m.msg_type@ != "audio"@ || from.len() == 0 || !sender_allowed(from, allowlist, deny_by_default) {
        Seq::empty()
    } else {
        seq![
            AudioView {
                from,
                message_id: m.id@,
                timestamp: m.timestamp@,
                media: match m.audio {
                    Some(a) => Some((a.id@, a.mime_type@)),
                    None => None,
                },
            },
        ]
    }
}

/// The voice messages of a list of webhook messages.
pub open spec fn audio_of_messages(ms: Seq<WebhookMessage>, allowlist: Seq<Seq<char>>, deny_by_default: bool) -> Seq<
    AudioView,
>
    decreases ms.len(),
{
    if ms.len() == 0 {
        Seq::empty()
    } else {
        audio_of_messages(ms.drop_last(), allowlist, deny_by_default) + audio_of_message(
            ms.last(),
            allowlist,
            deny_by_default,
        )
    }
}

/// The voice messages of a list of changes.
pub open spec fn audio_of_changes(cs: Seq<WebhookChange>, allowlist: Seq<Seq<char>>, deny_by_default: bool) -> Seq<
    AudioView,
>
    decreases cs.len(),
{
    if cs.len() == 0 {
        Seq::empty()
    } else {
        audio_of_changes(cs.drop_last(), allowlist, deny_by_default) + match cs.last().value {
            Some(v) => audio_of_messages(v.messages@, allowlist, deny_by_default),
            None => Seq::empty(),
        }
    }
}

/// The voice messages of a list of entries.
pub open spec fn audio_of_entries(es: Seq<WebhookEntry>, allowlist: Seq<Seq<char>>, deny_by_default: bool) -> Seq<
    AudioView,
>
    decreases es.len(),
{
    if es.len() == 0 {
        Seq::empty()
    } else {
        audio_of_entries(es.drop_last(), allowlist, deny_by_default) + audio_of_changes(
            es.last().changes@,
            allowlist,
            deny_by_default,
        )
    }
}

/// Whether the channel takes a message in as a voice message: an audio
/// message from a sender that is not blank and that the allowlist admits.
pub open spec fn takes_in_audio(m: WebhookMessage, allowlist: Seq<Seq<char>>, deny_by_default: bool) -> bool {
    &&& m.msg_type@ == "audio"@
    &&& trim(m.from@).len() > 0
    &&& sender_allowed(trim(m.from@), allowlist, deny_by_default)
}

/// The voice message an audio message becomes: the trimmed sender, the
/// message's id and timestamp, and its media id and type when present.
pub open spec fn audio_view_of(m: WebhookMessage) -> AudioView {
    AudioView {
        from: trim(m.from@),
        message_id: m.id@,
        timestamp: m.timestamp@,
        media: match m.audio {
            Some(a) => Some((a.id@, a.mime_type@)),
            None => None,
        },
    }
}

/// The voice messages of a list of messages: one for each message taken in
/// as audio, in order, and none for the others.
pub open spec fn audio_taken_in(
    ps: Seq<(WebhookMessage, Seq<char>)>,
    allowlist: Seq<Seq<char>>,
    deny_by_default: bool,
) -> Seq<AudioView> {
    ps.filter(|p: (WebhookMessage, Seq<char>)| takes_in_audio(p.0, allowlist, deny_by_default)).map_values(
        |p: (WebhookMessage, Seq<char>)| audio_view_of(p.0),
    )
}

proof fn lemma_audio_taken_in_add(
    a: Seq<(WebhookMessage, Seq<char>)>,
    b: Seq<(WebhookMessage, Seq<char>)>,
    allowlist: Seq<Seq<char>>,
    deny_by_default: bool,
)
    ensures
        audio_taken_in(a + b, allowlist, deny_by_default) == audio_taken_in(a, allowlist, deny_by_default)
            + audio_taken_in(b, allowlist, deny_by_default),
{
    let pred = |p: (WebhookMessage, Seq<char>)| takes_in_audio(p.0, allowlist, deny_by_default);
    let f = |p: (WebhookMessage, Seq<char>)| audio_view_of(p.0);
    Seq::filter_distributes_over_add(a, b, pred);
    let fa = a.filter(pred);
    let fb = b.filter(pred);
    assert((fa + fb).map_values(f) =~= fa.map_values(f) + fb.map_values(f));
}

proof fn lemma_audio_messages_taken_in(
    ms: Seq<WebhookMessage>,
    name: Seq<char>,
    allowlist: Seq<Seq<char>>,
    deny_by_default: bool,
)
    ensures
        audio_of_messages(ms, allowlist, deny_by_default) == audio_taken_in(
            ms.map_values(|m: WebhookMessage| (m, name)),
            allowlist,
            deny_by_default,
        ),
    decreases ms.len(),
{
    let ps = ms.map_values(|m: WebhookMessage| (m, name));
    if ms.len() == 0 {
        assert(ps =~= Seq::<(WebhookMessage, Seq<char>)>::empty());
        assert(audio_taken_in(ps, allowlist, deny_by_default) =~= Seq::<AudioView>::empty()) by {
            reveal(Seq::filter);
        }
    } else {
        let q = ms.drop_last();
        let l = ms.last();
        lemma_audio_messages_taken_in(q, name, allowlist, deny_by_default);
        let pq = q.map_values(|m: WebhookMessage| (m, name));
        assert(ps =~= pq + seq![(l, name)]);
        lemma_audio_taken_in_add(pq, seq![(l, name)], allowlist, deny_by_default);
        let pred = |p: (WebhookMessage, Seq<char>)| takes_in_audio(p.0, allowlist, deny_by_default);
        crate::seqs::lemma_filter_push(Seq::<(WebhookMessage, Seq<char>)>::empty(), pred, (l, name));
        assert(Seq::<(WebhookMessage, Seq<char>)>::empty().push((l, name)) =~= seq![(l, name)]);
        assert(Seq::<(WebhookMessage, Seq<char>)>::empty().filter(pred) =~= Seq::<(WebhookMessage, Seq<char>)>::empty()) by {
            reveal(Seq::filter);
        }
        if takes_in_audio(l, allowlist, deny_by_default) {
            assert(audio_taken_in(seq![(l, name)], allowlist, deny_by_default) =~= seq![audio_view_of(l)]);
        } else {
            assert(audio_taken_in(seq![(l, name)], allowlist, deny_by_default) =~= Seq::<AudioView>::empty());
        }
        assert(audio_of_message(l, allowlist, deny_by_default) == audio_taken_in(
            seq![(l, name)],
            allowlist,
            deny_by_default,
        ));
    }
}

proof fn lemma_audio_changes_taken_in(cs: Seq<WebhookChange>, allowlist: Seq<Seq<char>>, deny_by_default: bool)
    ensures
        audio_of_changes(cs, allowlist, deny_by_default) == audio_taken_in(
            change_messages(cs),
            allowlist,
            deny_by_default,
        ),
    decreases cs.len(),
{
    if cs.len() == 0 {
        assert(audio_taken_in(change_messages(cs), allowlist, deny_by_default) =~= Seq::<AudioView>::empty()) by {
            reveal(Seq::filter);
        }
    } else {
        let q = cs.drop_last();
        lemma_audio_changes_taken_in(q, allowlist, deny_by_default);
        let tail = match cs.last().value {
            Some(v) => v.messages@.map_values(|m: WebhookMessage| (m, first_contact_name(v))),
            None => Seq::empty(),
        };
        lemma_audio_taken_in_add(change_messages(q), tail, allowlist, deny_by_default);
        match cs.last().value {
            Some(v) => {
                lemma_audio_messages_taken_in(v.messages@, first_contact_name(v), allowlist, deny_by_default);
            },
            None => {
                assert(audio_taken_in(tail, allowlist, deny_by_default) =~= Seq::<AudioView>::empty()) by {
                    reveal(Seq::filter);
                }
            },
        }
    }
}

/// Voice extraction is complete and in order: the voice messages of a
/// notification are exactly one for each of its audio messages from a
/// non-blank sender the allowlist admits, in entry, change and message
/// order, and none for any other message.
pub proof fn lemma_audio_extraction_complete(es: Seq<WebhookEntry>, allowlist: Seq<Seq<char>>, deny_by_default: bool)
    ensures
        audio_of_entries(es, allowlist, deny_by_default) == audio_taken_in(
            notification_messages(es),
            allowlist,
            deny_by_default,
        ),
    decreases es.len(),
{
    if es.len() == 0 {
        assert(audio_taken_in(notification_messages(es), allowlist, deny_by_default) =~= Seq::<AudioView>::empty()) by {
            reveal(Seq::filter);
        }
    } else {
        let q = es.drop_last();
        lemma_audio_extraction_complete(q, allowlist, deny_by_default);
        lemma_audio_changes_taken_in(es.last().changes@, allowlist, deny_by_default);
        lemma_audio_taken_in_add(notification_messages(q), change_messages(es.last().changes@), allowlist, deny_by_default);
    }
}

fn push_audio_of_message(m: &WebhookMessage, allowlist: &[String], deny_by_default: bool, out: &mut Vec<AudioCandidate>)
    ensures
        audio_views(final(out)@) == audio_views(old(out)@) + audio_of_message(
            *m,
            texts(allowlist@),
            deny_by_default,
        ),
{
    assert(audio_views(old(out)@) + Seq::<AudioView>::empty() =~= audio_views(old(out)@));
    if !str_eq(m.msg_type.as_str(), "audio") {
        return;
    }
    let from = crate::text::trimmed(m.from.as_str());
    if from.as_str().is_empty() {
        return;
    }
    let allowed = if allowlist.len() == 0 {
        !deny_by_default
    } else {
        on_list(allowlist, from.as_str())
    };
    if !allowed {
        return;
    }
    let media = match &m.audio {
        Some(a) => Some((a.id.clone(), a.mime_type.clone())),
        None => None,
    };
    let c = AudioCandidate { from, message_id: m.id.clone(), timestamp: m.timestamp.clone(), media };
    let ghost before = out@;
    out.push(c);
    assert(audio_views(out@) =~= audio_views(before).push(c@));
}

fn push_audio_of_messages(ms: &Vec<WebhookMessage>, allowlist: &[String], deny_by_default: bool, out: &mut Vec<AudioCandidate>)
    ensures
        audio_views(final(out)@) == audio_views(old(out)@) + audio_of_messages(
            ms@,
            texts(allowlist@),
            deny_by_default,
        ),
{
    let ghost al = texts(allowlist@);
    let ghost start = audio_views(out@);
    let mut i: usize = 0;
    assert(ms@.take(0) =~= Seq::<WebhookMessage>::empty());
    assert(start + Seq::<AudioView>::empty() =~= start);
    while i < ms.len()
        invariant
            i <= ms@.len(),
            al == texts(allowlist@),
            start == audio_views(old(out)@),
            audio_views(out@) == start + audio_of_messages(ms@.take(i as int), al, deny_by_default),
        decreases ms@.len() - i,
    {
        assert(ms@.take(i + 1).drop_last() =~= ms@.take(i as int));
        assert(ms@.take(i + 1).last() == ms@[i as int]);
        push_audio_of_message(&ms[i], allowlist, deny_by_default, out);
        i += 1;
    }
    assert(ms@.take(i as int) =~= ms@);
}

fn push_audio_of_changes(cs: &Vec<WebhookChange>, allowlist: &[String], deny_by_default: bool, out: &mut Vec<AudioCandidate>)
    ensures
        audio_views(final(out)@) == audio_views(old(out)@) + audio_of_changes(
            cs@,
            texts(allowlist@),
            deny_by_default,
        ),
{
    let ghost al = texts(allowlist@);
    let ghost start = audio_views(out@);
    let mut i: usize = 0;
    assert(cs@.take(0) =~= Seq::<WebhookChange>::empty());
    assert(start + Seq::<AudioView>::empty() =~= start);
    while i < cs.len()
        invariant
            i <= cs@.len(),
            al == texts(allowlist@),
            start == audio_views(old(out)@),
            audio_views(out@) == start + audio_of_changes(cs@.take(i as int), al, deny_by_default),
        decreases cs@.len() - i,
    {
        assert(cs@.take(i + 1).drop_last() =~= cs@.take(i as int));
        assert(cs@.take(i + 1).last() == cs@[i as int]);
        let ghost before = audio_views(out@);
        match &cs[i].value {
            Some(v) => {
                push_audio_of_messages(&v.messages, allowlist, deny_by_default, out);
            },
            None => {
                assert(before + Seq::<AudioView>::empty() =~= before);
            },
        }
        assert(start + audio_of_changes(cs@.take(i + 1), al, deny_by_default) =~= before + match cs@[i as int].value {
            Some(v) => audio_of_messages(v.messages@, al, deny_by_default),
            None => Seq::<AudioView>::empty(),
        });
        i += 1;
    }
    assert(cs@.take(i as int) =~= cs@);
}

/// The voice messages of a webhook notification that the allowlist admits,
/// in order.
pub fn audio_candidates(notification: &WebhookNotification, allowlist: &[String], deny_by_default: bool) -> (r: Vec<
    AudioCandidate,
>)
    ensures
        audio_views(r@) == audio_of_entries(notification.entry@, texts(allowlist@), deny_by_default),
        audio_views(r@) == audio_taken_in(notification_messages(notification.entry@), texts(allowlist@), deny_by_default),
{
    proof {
        lemma_audio_extraction_complete(notification.entry@, texts(allowlist@), deny_by_default);
    }
    let ghost al = texts(allowlist@);
    let ghost es = notification.entry@;
    let mut out: Vec<AudioCandidate> = Vec::new();
    let mut i: usize = 0;
    assert(es.take(0) =~= Seq::<WebhookEntry>::empty());
    assert(audio_views(out@) =~= Seq::<AudioView>::empty());
    while i < notification.entry.len()
        invariant
            i <= es.len(),
            es == notification.entry@,
            al == texts(allowlist@),
            audio_views(out@) == audio_of_entries(es.take(i as int), al, deny_by_default),
        decreases es.len() - i,
    {
        assert(es.take(i + 1).drop_last() =~= es.take(i as int));
        assert(es.take(i + 1).last() == es[i as int]);
        push_audio_of_changes(&notification.entry[i].changes, allowlist, deny_by_default, &mut out);
        i += 1;
    }
    assert(es.take(i as int) =~= es);
    out
}

/// Whether a voice message is sent for transcription: a transcriber is
/// configured and the message carries its media.
pub fn wants_transcription(c: &AudioCandidate, has_transcriber: bool) -> (b: bool)
    ensures
        b == (has_transcriber && c.media is Some),
{
    has_transcriber && c.media.is_some()
}

/// The content of a voice message: its transcript, or a placeholder when
/// there is none.
pub open spec fn voice_content(transcript: Option<Seq<char>>) -> Seq<char> {
    match transcript {
        Some(t) => "[Voice: "@ + t + "]"@,
        None => "[Voice Message]"@,
    }
}

/// The inbound message for a voice message, given its transcript (if one
/// was obtained).
pub fn audio_inbound(c: &AudioCandidate, transcript: Option<&str>) -> (r: InboundMessage)
    ensures
        r@ == (InboundView {
            channel: "whatsapp_cloud"@,
            sender_id: c.from@,
            chat_id: c.from@,
            content: voice_content(
                match transcript {
                    Some(t) => Some(t@),
                    None => None,
                },
            ),
            metadata: inbound_metadata(c.message_id@, c.timestamp@, Seq::empty()),
        }),
{
    let content = match transcript {
        Some(t) => {
            let mut s = String::from_str("[Voice: ");
            s.append(t);
            s.append("]");
            s
        },
        None => String::from_str("[Voice Message]"),
    };
    let mut metadata: Vec<(String, String)> = Vec::new();
    if !c.message_id.as_str().is_empty() {
        metadata.push((String::from_str("whatsapp_message_id"), c.message_id.clone()));
    }
    if !c.timestamp.as_str().is_empty() {
        metadata.push((String::from_str("timestamp"), c.timestamp.clone()));
    }
    proof {
        assert(pair_texts(metadata@) =~= inbound_metadata(c.message_id@, c.timestamp@, Seq::empty()));
    }
    InboundMessage {
        channel: String::from_str("whatsapp_cloud"),
        sender_id: c.from.clone(),
        chat_id: c.from.clone(),
        content,
        metadata,
    }
}

// ---------------------------------------------------------------------------
// The channel's life cycle
// ---------------------------------------------------------------------------

/// The WhatsApp Cloud channel: its configuration and whether it runs. The
/// caller performs what its steps ask for (listening on the webhook
/// address, posting messages to the Cloud API).
pub struct WhatsAppCloudChannel {
    config: crate::config::WhatsAppCloudConfig,
    running: bool,
}

/// What starting the channel asks for.
pub enum StartStep {
    /// It already runs: nothing to do.
    AlreadyRunning,
    /// It is disabled in the configuration: nothing to do.
    Disabled,
    /// Listen for webhook requests on this address.
    Listen { bind_addr: String },
}

/// What stopping the channel asks for.
pub enum StopStep {
    /// It was not running: nothing to do.
    AlreadyStopped,
    /// Signal the listener to shut down.
    ShutDown,
}

/// A message to post to the Cloud API.
pub struct SendRequest {
    /// The messages endpoint of the channel's phone number.
    pub endpoint: String,
    /// The `Authorization` header.
    pub authorization: String,
    /// The recipient (trimmed chat id).
    pub to: String,
    /// The text, within the length limit.
    pub body: String,
}

/// The address the webhook listens on.
pub open spec fn bind_addr_text(c: crate::config::WhatsAppCloudConfig) -> Seq<char> {
    c.bind_address@ + ":"@ + crate::text::decimal(c.port as nat)
}

/// The Cloud API's messages endpoint for a phone number id.
pub open spec fn messages_endpoint(phone_number_id: Seq<char>) -> Seq<char> {
    "https://graph.facebook.com/v18.0/"@ + phone_number_id + "/messages"@
}

impl WhatsAppCloudChannel {
    /// Whether the channel runs.
    pub closed spec fn runs(&self) -> bool {
        self.running
    }

    /// The channel's configuration.
    pub closed spec fn conf(&self) -> crate::config::WhatsAppCloudConfig {
        self.config
    }

    /// The channel's configuration.
    pub fn config(&self) -> (r: &crate::config::WhatsAppCloudConfig)
        ensures
            *r == self.conf(),
    {
        &self.config
    }

    /// A channel for the configuration, not running.
    pub fn new(config: crate::config::WhatsAppCloudConfig) -> (r: Self)
        ensures
            r.conf() == config,
            !r.runs(),
    {
        WhatsAppCloudChannel { config, running: false }
    }

    /// The channel's name.
    pub fn name(&self) -> (r: &'static str)
        ensures
            r@ == "whatsapp_cloud"@,
    {
        "whatsapp_cloud"
    }

    /// Whether the channel runs.
    pub fn is_running(&self) -> (b: bool)
        ensures
            b == self.runs(),
    {
        self.running
    }

    /// Whether messages from `user_id` are accepted.
    pub fn is_allowed(&self, user_id: &str) -> (b: bool)
        ensures
            b == sender_allowed(user_id@, texts(self.conf().allow_from@), self.conf().deny_by_default),
    {
        if self.config.allow_from.len() == 0 {
            !self.config.deny_by_default
        } else {
            on_list(self.config.allow_from.as_slice(), user_id)
        }
    }

    /// Starts the channel: a running channel stays as it is; a disabled one,
    /// or one without a phone number id or access token, does not start (the
    /// latter with a configuration error); otherwise it runs and listens on
    /// its bind address and port.
    pub fn start(&mut self) -> (r: Result<StartStep, ZeptoError>)
        ensures
            final(self).conf() == old(self).conf(),
            old(self).runs() ==> (r matches Ok(StartStep::AlreadyRunning) && final(self).runs()),
            !old(self).runs() && !old(self).conf().enabled ==> (r matches Ok(StartStep::Disabled) && !final(self).runs()),
            !old(self).runs() && old(self).conf().enabled && (old(self).conf().phone_number_id@.len() == 0
                || old(self).conf().access_token@.len() == 0) ==> (r matches Err(ZeptoError::Config(m))
                && m@ == "WhatsApp Cloud API requires phone_number_id and access_token"@ && !final(self).runs()),
            !old(self).runs() && old(self).conf().enabled && old(self).conf().phone_number_id@.len() > 0
                && old(self).conf().access_token@.len() > 0 ==> (r matches Ok(StartStep::Listen { bind_addr })
                && bind_addr@ == bind_addr_text(old(self).conf()) && final(self).runs()),
    {
        if self.running {
            return Ok(StartStep::AlreadyRunning);
        }
        if !self.config.enabled {
            return Ok(StartStep::Disabled);
        }
        if self.config.phone_number_id.as_str().unicode_len() == 0 || self.config.access_token.as_str().unicode_len()
            == 0 {
            return Err(
                ZeptoError::Config(String::from_str("WhatsApp Cloud API requires phone_number_id and access_token")),
            );
        }
        let mut addr = self.config.bind_address.clone();
        addr.append(":");
        let port = crate::text::decimal_text(self.config.port as u64);
        addr.append(port.as_str());
        self.running = true;
        Ok(StartStep::Listen { bind_addr: addr })
    }

    /// The listener could not bind: the channel stops, with a channel error.
    pub fn listen_failed(&mut self, bind_addr: &str, reason: &str) -> (e: ZeptoError)
        ensures
            final(self).conf() == old(self).conf(),
            !final(self).runs(),
            e matches ZeptoError::Channel(m) && m@ == "Failed to bind WhatsApp Cloud webhook on "@ + bind_addr@
                + ": "@ + reason@,
    {
        self.running = false;
        let mut m = String::from_str("Failed to bind WhatsApp Cloud webhook on ");
        m.append(bind_addr);
        m.append(": ");
        m.append(reason);
        ZeptoError::Channel(m)
    }

    /// The listener ended: the channel no longer runs.
    pub fn listener_ended(&mut self)
        ensures
            final(self).conf() == old(self).conf(),
            !final(self).runs(),
    {
        self.running = false;
    }

    /// Stops the channel; a running one asks for its listener to shut down.
    pub fn stop(&mut self) -> (r: StopStep)
        ensures
            final(self).conf() == old(self).conf(),
            !final(self).runs(),
            old(self).runs() <==> r is ShutDown,
    {
        if self.running {
            self.running = false;
            StopStep::ShutDown
        } else {
            StopStep::AlreadyStopped
        }
    }

    /// The request that sends `content` to `chat_id`: an error when the
    /// channel does not run or the trimmed recipient is empty; otherwise a
    /// post to the messages endpoint with the access token, to the trimmed
    /// recipient, of the content cut to the length limit.
    pub fn send_request(&self, chat_id: &str, content: &str) -> (r: Result<SendRequest, ZeptoError>)
        ensures
            !self.runs() ==> (r matches Err(ZeptoError::Channel(m)) && m@ == "WhatsApp Cloud channel not running"@),
            self.runs() && trim(chat_id@).len() == 0 ==> (r matches Err(ZeptoError::Channel(m)) && m@
                == "WhatsApp Cloud recipient cannot be empty"@),
            self.runs() && trim(chat_id@).len() > 0 ==> (r matches Ok(q) && q.endpoint@ == messages_endpoint(
                self.conf().phone_number_id@,
            ) && q.authorization@ == "Bearer "@ + self.conf().access_token@ && q.to@ == trim(chat_id@)
                && q.body@ == truncate_message_spec(content@)),
    {
        if !self.running {
            return Err(ZeptoError::Channel(String::from_str("WhatsApp Cloud channel not running")));
        }
        let to = crate::text::trimmed(chat_id);
        if to.as_str().unicode_len() == 0 {
            return Err(ZeptoError::Channel(String::from_str("WhatsApp Cloud recipient cannot be empty")));
        }
        let mut endpoint = String::from_str("https://graph.facebook.com/v18.0/");
        endpoint.append(self.config.phone_number_id.as_str());
        endpoint.append("/messages");
        let mut authorization = String::from_str("Bearer ");
        authorization.append(self.config.access_token.as_str());
        Ok(SendRequest { endpoint, authorization, to, body: truncate_message(content) })
    }
}

/// The error for a message the Cloud API rejected: its status and the
/// API's error message (or a placeholder when it gave none).
pub fn api_error(status: &str, detail: Option<&str>) -> (e: ZeptoError)
    ensures
        e matches ZeptoError::Channel(m) && m@ == "WhatsApp Cloud API error "@ + status@ + ": "@ + match detail {
            Some(d) => d@,
            None => "Unknown API error"@,
        },
{
    let mut m = String::from_str("WhatsApp Cloud API error ");
    m.append(status);
    m.append(": ");
    match detail {
        Some(d) => m.append(d),
        None => m.append("Unknown API error"),
    }
    ZeptoError::Channel(m)
}

} // verus!
