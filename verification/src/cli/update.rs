//! Self-update: version comparison, the platform's release asset, the
//! release URL, the choice of assets and the checksum check.

use vstd::prelude::*;
use crate::split::split_char;
use crate::split::split_char_ranges;
use crate::split::words;
use crate::split::word_ranges;
use crate::text::chars_of;
use crate::text::parse_uint;
use crate::text::parse_uint_range;
use crate::text::str_eq;
use crate::text::utf8_len;
use crate::text::lowercase;
use crate::text::to_lowercase;
use crate::text::string_of_range;
use crate::text::decimal;
use crate::text::decimal_text;
use sha2::Digest;

verus! {

/// A version without its leading `v`, if it has one.
pub open spec fn strip_v(v: Seq<char>) -> Seq<char> {
    if v.len() > 0 && v[0] == 'v' {
        v.drop_first()
    } else {
        v
    }
}

/// A semver-ish version: three `.`-separated unsigned integers, after an
/// optional leading `v`.
pub open spec fn semver_spec(v: Seq<char>) -> Option<(u64, u64, u64)> {
    let parts = split_char(strip_v(v), '.');
    if parts.len() != 3 {
        None
    } else {
        match (
            parse_uint(parts[0], u64::MAX as nat),
            parse_uint(parts[1], u64::MAX as nat),
            parse_uint(parts[2], u64::MAX as nat),
        ) {
            (Some(a), Some(b), Some(c)) => Some((a as u64, b as u64, c as u64)),
            _ => None,
        }
    }
}

/// Parse a semver-ish string into (major, minor, patch).
pub fn parse_semver(v: &str) -> (r: Option<(u64, u64, u64)>)
    ensures
        r == semver_spec(v@),
{
    let c = chars_of(v);
    let n = c.len();
    let start: usize = if n > 0 && c[0] == 'v' {
        1
    } else {
        0
    };
    assert(c@.subrange(start as int, n as int) =~= strip_v(v@));
    let parts = split_char_ranges(&c, start, n, '.');
    if parts.len() != 3 {
        return None;
    }
    let (a0, b0) = parts[0];
    let (a1, b1) = parts[1];
    let (a2, b2) = parts[2];
    let x = parse_uint_range(&c, a0, b0, u64::MAX);
    let y = parse_uint_range(&c, a1, b1, u64::MAX);
    let z = parse_uint_range(&c, a2, b2, u64::MAX);
    match (x, y, z) {
        (Some(x), Some(y), Some(z)) => Some((x, y, z)),
        _ => None,
    }
}

/// Whether version `l` is greater than `c`, compared part by part.
pub open spec fn version_gt(l: (u64, u64, u64), c: (u64, u64, u64)) -> bool {
    l.0 > c.0 || (l.0 == c.0 && (l.1 > c.1 || (l.1 == c.1 && l.2 > c.2)))
}

/// Whether `latest` is strictly newer than `current` (false when either
/// does not parse).
pub open spec fn newer_spec(current: Seq<char>, latest: Seq<char>) -> bool {
    match (semver_spec(current), semver_spec(latest)) {
        (Some(c), Some(l)) => version_gt(l, c),
        _ => false,
    }
}

/// Returns `true` if `latest` is strictly newer than `current`.
pub fn is_newer(current: &str, latest: &str) -> (b: bool)
    ensures
        b == newer_spec(current@, latest@),
{
    match (parse_semver(current), parse_semver(latest)) {
        (Some(c), Some(l)) => l.0 > c.0 || (l.0 == c.0 && (l.1 > c.1 || (l.1 == c.1 && l.2 > c.2))),
        _ => false,
    }
}

/// "Newer than" is a strict order: no version is newer than itself, of two
/// versions at most one is newer than the other, and it is transitive.
pub proof fn lemma_newer_strict_order(a: Seq<char>, b: Seq<char>, c: Seq<char>)
    ensures
        !newer_spec(a, a),
        newer_spec(a, b) ==> !newer_spec(b, a),
        newer_spec(a, b) && newer_spec(b, c) ==> newer_spec(a, c),
{
}

/// The release asset name for a platform that Rust names `target_os` and
/// `target_arch`: `zeptoclaw-{os}-{arch}` for macOS or Linux on aarch64 or
/// x86_64; otherwise the error.
pub open spec fn asset_name_spec(os: Seq<char>, arch: Seq<char>) -> Result<Seq<char>, Seq<char>> {
    if os != "macos"@ && os != "linux"@ {
        Err("unsupported OS for self-update; only macOS and Linux are supported"@)
    } else if arch != "aarch64"@ && arch != "x86_64"@ {
        Err("unsupported architecture for self-update; only aarch64 and x86_64 are supported"@)
    } else {
        Ok("zeptoclaw-"@ + os + "-"@ + arch)
    }
}

/// Asset name that matches CI output for this platform.
pub fn platform_asset_name(target_os: &str, target_arch: &str) -> (r: Result<String, String>)
    ensures
        match asset_name_spec(target_os@, target_arch@) {
            Ok(n) => r matches Ok(s) && s@ == n,
            Err(e) => r matches Err(s) && s@ == e,
        },
{
    if !str_eq(target_os, "macos") && !str_eq(target_os, "linux") {
        return Err(
            String::from_str("unsupported OS for self-update; only macOS and Linux are supported"),
        );
    }
    if !str_eq(target_arch, "aarch64") && !str_eq(target_arch, "x86_64") {
        return Err(
            String::from_str(
                "unsupported architecture for self-update; only aarch64 and x86_64 are supported",
            ),
        );
    }
    let mut s = String::from_str("zeptoclaw-");
    s.append(target_os);
    s.append("-");
    s.append(target_arch);
    Ok(s)
}

/// The GitHub API URL of a release: the given version's tag (with a leading
/// `v` added when missing), or the latest release.
pub open spec fn release_url_spec(version: Option<Seq<char>>) -> Seq<char> {
    match version {
        Some(v) => "https://api.github.com/repos/qhkm/zeptoclaw/releases/tags/"@ + if v.len() > 0
            && v[0] == 'v' {
            v
        } else {
            "v"@ + v
        },
        None => "https://api.github.com/repos/qhkm/zeptoclaw/releases/latest"@,
    }
}

/// The GitHub API URL of the release to fetch.
pub fn release_url(version: Option<&str>) -> (r: String)
    ensures
        r@ == release_url_spec(
            match version {
                Some(v) => Some(v@),
                None => None,
            },
        ),
{
    match version {
        Some(v) => {
            let mut s = String::from_str("https://api.github.com/repos/qhkm/zeptoclaw/releases/tags/");
            let c = chars_of(v);
            if !(c.len() > 0 && c[0] == 'v') {
                s.append("v");
            }
            s.append(v);
            s
        },
        None => String::from_str("https://api.github.com/repos/qhkm/zeptoclaw/releases/latest"),
    }
}

/// What the update command does after comparing versions.
pub enum UpdateStep {
    /// Nothing to do.
    UpToDate,
    /// Only report; `newer` says whether an update exists.
    Report { newer: bool },
    /// Download and install.
    Install,
}

/// Decides the update step for the running version `current` and the
/// release tag `latest`.
pub fn update_step(current: &str, latest: &str, check: bool, force: bool) -> (r: UpdateStep)
    ensures
        ({
            let newer = newer_spec(current@, strip_v(latest@));
            &&& !force && !newer ==> r is UpToDate
            &&& (force || newer) && check ==> r == (UpdateStep::Report { newer })
            &&& (force || newer) && !check ==> r is Install
        }),
{
    let c = chars_of(latest);
    let n = c.len();
    let start: usize = if n > 0 && c[0] == 'v' {
        1
    } else {
        0
    };
    let bare = string_of_range(&c, start, n);
    assert(c@.subrange(start as int, n as int) =~= strip_v(latest@));
    let newer = is_newer(current, bare.as_str());
    if !force && !newer {
        UpdateStep::UpToDate
    } else if check {
        UpdateStep::Report { newer }
    } else {
        UpdateStep::Install
    }
}

/// A release asset.
pub struct GitHubAsset {
    pub name: String,
    pub browser_download_url: String,
}

/// The download URL of the first asset named `name`.
pub open spec fn asset_url(assets: Seq<GitHubAsset>, name: Seq<char>) -> Option<Seq<char>>
    decreases assets.len(),
{
    if assets.len() == 0 {
        None
    } else if assets[0].name@ == name {
        Some(assets[0].browser_download_url@)
    } else {
        asset_url(assets.drop_first(), name)
    }
}

fn find_asset(assets: &Vec<GitHubAsset>, name: &str) -> (r: Option<String>)
    ensures
        match asset_url(assets@, name@) {
            Some(u) => r matches Some(s) && s@ == u,
            None => r is None,
        },
{
    let mut i: usize = 0;
    assert(assets@.skip(0) =~= assets@);
    while i < assets.len()
        invariant
            i <= assets@.len(),
            asset_url(assets@, name@) == asset_url(assets@.skip(i as int), name@),
        decreases assets@.len() - i,
    {
        assert(assets@.skip(i as int)[0] == assets@[i as int]);
        assert(assets@.skip(i as int).drop_first() =~= assets@.skip(i + 1));
        if str_eq(assets[i].name.as_str(), name) {
            return Some(assets[i].browser_download_url.clone());
        }
        i += 1;
    }
    None
}

/// The URLs of the binary asset `asset_name` and of its `.sha256` checksum
/// in release `latest`, or the error for the first one missing.
pub fn select_assets(assets: &Vec<GitHubAsset>, latest: &str, asset_name: &str) -> (r: Result<
    (String, String),
    String,
>)
    ensures
        ({
            let checksum = asset_name@ + ".sha256"@;
            match (asset_url(assets@, asset_name@), asset_url(assets@, checksum)) {
                (Some(b), Some(c)) => r matches Ok(p) && p.0@ == b && p.1@ == c,
                (None, _) => r matches Err(e) && e@ == "release "@ + latest@
                    + " has no asset named '"@ + asset_name@ + "'"@,
                (Some(_), None) => r matches Err(e) && e@ == "release "@ + latest@
                    + " has no checksum asset '"@ + checksum + "'"@,
            }
        }),
{
    let mut checksum_name = String::from_str(asset_name);
    checksum_name.append(".sha256");
    let binary = match find_asset(assets, asset_name) {
        Some(u) => u,
        None => {
            let mut e = String::from_str("release ");
            e.append(latest);
            e.append(" has no asset named '");
            e.append(asset_name);
            e.append("'");
            return Err(e);
        },
    };
    let checksum = match find_asset(assets, checksum_name.as_str()) {
        Some(u) => u,
        None => {
            let mut e = String::from_str("release ");
            e.append(latest);
            e.append(" has no checksum asset '");
            e.append(checksum_name.as_str());
            e.append("'");
            return Err(e);
        },
    };
    Ok((binary, checksum))
}

/// The SHA-256 digest of `bytes` in lower-case hexadecimal (`sha2::Sha256`
/// formatted with `{:x}`).
pub uninterp spec fn sha256_hex(bytes: Seq<u8>) -> Seq<char>;

/// `sha2::Sha256::new()`, `update(bytes)`, `finalize()`, formatted with
/// `{:x}`: the digest of the bytes as 64 lower-case hex digits.
#[verifier::external_body]
fn sha256_hex_of(bytes: &[u8]) -> (r: String)
    ensures
        r@ == sha256_hex(bytes@),
{
    let mut hasher = sha2::Sha256::new();
    hasher.update(bytes);
    format!("{:x}", hasher.finalize())
}

/// The expected digest a checksum file gives: its first whitespace-separated
/// word, lowercased (empty when there is none).
pub open spec fn expected_digest(text: Seq<char>) -> Seq<char> {
    let w = words(text);
    crate::text::lower_text(if w.len() > 0 {
        w[0]
    } else {
        Seq::empty()
    })
}

/// The outcome of checking downloaded bytes against a checksum file.
pub open spec fn checksum_spec(binary: Seq<u8>, text: Seq<char>) -> Result<(), Seq<char>> {
    let expected = expected_digest(text);
    let actual = sha256_hex(binary);
    if utf8_len(expected) != 64 {
        Err("invalid checksum format (expected 64 hex chars, got "@ + decimal(utf8_len(expected))
            + "): "@ + text)
    } else if actual != expected {
        Err("SHA256 mismatch!\n  expected: "@ + expected + "\n  actual:   "@ + actual
            + "\n\nThe downloaded binary may be corrupted. Aborting."@)
    } else {
        Ok(())
    }
}

/// Checks downloaded bytes against the text of their checksum file
/// (`<hex>  <filename>` or just `<hex>`).
pub fn verify_checksum(binary: &[u8], checksum_text: &str) -> (r: Result<(), String>)
    ensures
        match checksum_spec(binary@, checksum_text@) {
            Ok(()) => r is Ok,
            Err(e) => r matches Err(s) && s@ == e,
        },
{
    let c = chars_of(checksum_text);
    let n = c.len();
    let ws = word_ranges(&c, 0, n);
    assert(c@.subrange(0, n as int) =~= checksum_text@);
    let first = if ws.len() > 0 {
        let (a, b) = ws[0];
        string_of_range(&c, a, b)
    } else {
        String::new()
    };
    let expected = to_lowercase(first.as_str());
    let elen = expected.as_str().as_bytes().len();
    if elen != 64 {
        let mut e = String::from_str("invalid checksum format (expected 64 hex chars, got ");
        let d = decimal_text(elen as u64);
        e.append(d.as_str());
        e.append("): ");
        e.append(checksum_text);
        return Err(e);
    }
    let actual = sha256_hex_of(binary);
    if !str_eq(actual.as_str(), expected.as_str()) {
        let mut e = String::from_str("SHA256 mismatch!\n  expected: ");
        e.append(expected.as_str());
        e.append("\n  actual:   ");
        e.append(actual.as_str());
        e.append("\n\nThe downloaded binary may be corrupted. Aborting.");
        return Err(e);
    }
    Ok(())
}

} // verus!
