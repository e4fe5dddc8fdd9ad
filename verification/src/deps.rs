//! Dependency bookkeeping: the kinds of external dependencies, their health
//! checks, the platform names used in release asset patterns, the registry
//! of installed dependencies, and a test fetcher.

use vstd::prelude::*;
use std::collections::HashMap;
use crate::error::ZeptoError;
use crate::text::chars_of;
use crate::text::occurs_at;
use crate::text::matches_at;
use crate::text::str_eq;
use crate::text::append_range;
use crate::text::push_char;
use crate::text::texts;

verus! {

// ---------------------------------------------------------------------------
// Types
// ---------------------------------------------------------------------------

/// The kind of external dependency.
#[derive(Debug, Clone, PartialEq)]
pub enum DepKind {
    /// A binary downloaded from GitHub Releases.
    Binary {
        /// GitHub repo (e.g. "qhkm/whatsmeow-rs")
        repo: String,
        /// Asset filename pattern with `{os}` and `{arch}` placeholders.
        asset_pattern: String,
        /// Semver version tag (e.g. "v0.1.0"). Empty = latest.
        version: String,
    },
    /// A Docker image.
    DockerImage {
        /// Image name (e.g. "redis")
        image: String,
        /// Image tag (e.g. "7-alpine")
        tag: String,
        /// Port mappings (host:container)
        ports: Vec<String>,
    },
    /// An npm package.
    NpmPackage {
        /// Package name (e.g. "@modelcontextprotocol/server-github")
        package: String,
        /// Version constraint (e.g. "^1.0.0")
        version: String,
        /// Entry point script or binary name within the package.
        entry_point: String,
    },
    /// A pip package installed into a virtualenv.
    PipPackage {
        /// Package name (e.g. "mcp-server-sqlite")
        package: String,
        /// Version constraint (e.g. ">=1.0")
        version: String,
        /// Entry point script or module.
        entry_point: String,
    },
}

/// How to verify a dependency process is healthy.
#[derive(Debug, Clone, PartialEq)]
pub enum HealthCheck {
    /// Connect to a WebSocket URL.
    WebSocket { url: String },
    /// HTTP GET to a URL, expect 2xx.
    Http { url: String },
    /// Check that a TCP port is listening.
    TcpPort { port: u16 },
    /// Run a command and check exit code 0.
    Command { command: String },
    /// No health check needed.
    NoCheck,
}

/// A declared external dependency.
#[derive(Debug, Clone)]
pub struct Dependency {
    /// Unique name (e.g. "whatsmeow-bridge").
    pub name: String,
    /// What kind of dependency this is.
    pub kind: DepKind,
    /// How to check process health after starting.
    pub health_check: HealthCheck,
    /// Environment variables to set when starting the process.
    pub env: HashMap<String, String>,
    /// Command-line arguments to pass when starting.
    pub args: Vec<String>,
}

/// Trait for components that declare external dependencies.
///
/// Channels, tools, or skills implement this to declare what they need.
/// Default implementation returns no dependencies.
pub trait HasDependencies {
    fn dependencies(&self) -> (r: Vec<Dependency>)
        default_ensures
            r@.len() == 0,
    {
        Vec::new()
    }
}

/// The registry's name for a dependency kind.
pub open spec fn dep_kind_label_spec(kind: DepKind) -> Seq<char> {
    match kind {
        DepKind::Binary { .. } => "binary"@,
        DepKind::DockerImage { .. } => "docker_image"@,
        DepKind::NpmPackage { .. } => "npm_package"@,
        DepKind::PipPackage { .. } => "pip_package"@,
    }
}

/// The registry's name for a dependency kind.
pub fn dep_kind_label(kind: &DepKind) -> (r: &'static str)
    ensures
        r@ == dep_kind_label_spec(*kind),
{
    match kind {
        DepKind::Binary { .. } => "binary",
        DepKind::DockerImage { .. } => "docker_image",
        DepKind::NpmPackage { .. } => "npm_package",
        DepKind::PipPackage { .. } => "pip_package",
    }
}

// ---------------------------------------------------------------------------
// Platform names
// ---------------------------------------------------------------------------

/// The release name of an operating system as Rust names it
/// (`std::env::consts::OS`).
pub open spec fn release_os(os: Seq<char>) -> Seq<char> {
    if os == "macos"@ {
        "darwin"@
    } else if os == "linux"@ {
        "linux"@
    } else if os == "windows"@ {
        "windows"@
    } else {
        "unknown"@
    }
}

/// The release name of an architecture as Rust names it
/// (`std::env::consts::ARCH`).
pub open spec fn release_arch(arch: Seq<char>) -> Seq<char> {
    if arch == "x86_64"@ {
        "amd64"@
    } else if arch == "aarch64"@ {
        "arm64"@
    } else {
        "unknown"@
    }
}

/// The platform names used in binary downloads, for the operating system
/// and architecture that Rust names `target_os` and `target_arch`.
pub fn current_platform(target_os: &str, target_arch: &str) -> (r: (&'static str, &'static str))
    ensures
        r.0@ == release_os(target_os@),
        r.1@ == release_arch(target_arch@),
{
    let os = if str_eq(target_os, "macos") {
        "darwin"
    } else if str_eq(target_os, "linux") {
        "linux"
    } else if str_eq(target_os, "windows") {
        "windows"
    } else {
        "unknown"
    };
    let arch = if str_eq(target_arch, "x86_64") {
        "amd64"
    } else if str_eq(target_arch, "aarch64") {
        "arm64"
    } else {
        "unknown"
    };
    (os, arch)
}

/// `s` with every occurrence of `from` replaced by `to`, scanning from the
/// left and not re-reading replaced text (`str::replace`, `from` not empty).
pub open spec fn replace_all(s: Seq<char>, from: Seq<char>, to: Seq<char>) -> Seq<char>
    recommends
        from.len() > 0,
    decreases s.len(),
{
    if s.len() == 0 || from.len() == 0 {
        s
    } else if occurs_at(s, from, 0) {
        to + replace_all(s.skip(from.len() as int), from, to)
    } else {
        seq![s[0]] + replace_all(s.drop_first(), from, to)
    }
}

/// `str::replace` for a non-empty pattern.
pub fn replace_text(s: &str, from: &str, to: &str) -> (r: String)
    requires
        from@.len() > 0,
    ensures
        r@ == replace_all(s@, from@, to@),
{
    let v = chars_of(s);
    let p = chars_of(from);
    let t = chars_of(to);
    let n = v.len();
    let mut out = String::new();
    let mut i: usize = 0;
    assert(v@.skip(0) =~= v@);
    assert(out@ + replace_all(v@, p@, t@) =~= replace_all(v@, p@, t@));
    while i < n
        invariant
            v@ == s@,
            p@ == from@,
            t@ == to@,
            n == v@.len(),
            p@.len() > 0,
            i <= n,
            out@ + replace_all(v@.skip(i as int), p@, t@) == replace_all(s@, from@, to@),
        decreases n - i,
    {
        let ghost rest = v@.skip(i as int);
        if matches_at(&v, i, &p) {
            assert(occurs_at(rest, p@, 0)) by {
                assert(rest.subrange(0, p@.len() as int) =~= v@.subrange(i as int, i + p@.len()));
            }
            let ghost before = out@;
            let tl = t.len();
            append_range(&mut out, &t, 0, tl);
            assert(t@.subrange(0, tl as int) =~= t@);
            assert(rest.skip(p@.len() as int) =~= v@.skip(i + p@.len()));
            assert(out@ + replace_all(v@.skip(i + p@.len()), p@, t@) =~= before + replace_all(
                rest,
                p@,
                t@,
            ));
            i = i + p.len();
        } else {
            assert(!occurs_at(rest, p@, 0)) by {
                if occurs_at(rest, p@, 0) {
                    assert(rest.subrange(0, p@.len() as int) =~= v@.subrange(
                        i as int,
                        i + p@.len(),
                    ));
                }
            }
            let ghost before = out@;
            push_char(&mut out, v[i]);
            assert(rest.drop_first() =~= v@.skip(i + 1));
            assert(out@ + replace_all(v@.skip(i + 1), p@, t@) =~= before + replace_all(
                rest,
                p@,
                t@,
            ));
            i = i + 1;
        }
    }
    assert(v@.skip(i as int) =~= Seq::<char>::empty());
    assert(out@ + Seq::<char>::empty() =~= out@);
    out
}

proof fn lemma_replace_absent(s: Seq<char>, from: Seq<char>, to: Seq<char>)
    requires
        !crate::text::contains(s, from),
    ensures
        replace_all(s, from, to) == s,
    decreases s.len(),
{
    if s.len() > 0 && from.len() > 0 {
        assert(!occurs_at(s, from, 0));
        let rest = s.drop_first();
        assert forall|k: int| !occurs_at(rest, from, k) by {
            if occurs_at(rest, from, k) {
                assert(rest.subrange(k, k + from.len()) =~= s.subrange(k + 1, k + 1 + from.len()));
                assert(occurs_at(s, from, k + 1));
            }
        }
        lemma_replace_absent(rest, from, to);
        assert(seq![s[0]] + rest =~= s);
    }
}

/// A pattern without `{os}` or `{arch}` placeholders resolves to itself.
pub proof fn lemma_resolve_without_placeholders(pattern: Seq<char>, os: Seq<char>, arch: Seq<char>)
    requires
        !crate::text::contains(pattern, "{os}"@),
        !crate::text::contains(pattern, "{arch}"@),
    ensures
        resolved_asset(pattern, os, arch) == pattern,
{
    lemma_replace_absent(pattern, "{os}"@, os);
    lemma_replace_absent(pattern, "{arch}"@, arch);
}

/// An asset pattern with its placeholders filled in.
pub open spec fn resolved_asset(pattern: Seq<char>, os: Seq<char>, arch: Seq<char>) -> Seq<char> {
    replace_all(replace_all(pattern, "{os}"@, os), "{arch}"@, arch)
}

/// Resolve `{os}` and `{arch}` placeholders in an asset pattern, for the
/// platform that Rust names `target_os` and `target_arch`.
pub fn resolve_asset_pattern(pattern: &str, target_os: &str, target_arch: &str) -> (r: String)
    ensures
        r@ == resolved_asset(pattern@, release_os(target_os@), release_arch(target_arch@)),
{
    let (os, arch) = current_platform(target_os, target_arch);
    proof {
        reveal_strlit("{os}");
        reveal_strlit("{arch}");
    }
    let once = replace_text(pattern, "{os}", os);
    replace_text(once.as_str(), "{arch}", arch)
}

// ---------------------------------------------------------------------------
// Registry of installed dependencies
// ---------------------------------------------------------------------------

/// An entry in the dependency registry.
#[derive(Debug, Clone)]
pub struct RegistryEntry {
    /// Dependency kind (e.g. "binary", "docker_image", "npm_package", "pip_package").
    pub kind: String,
    /// Installed version.
    pub version: String,
    /// When it was installed (ISO 8601).
    pub installed_at: String,
    /// Path to the installed artifact.
    pub path: String,
    /// Whether a managed process is currently believed to be running.
    pub running: bool,
    /// PID of the managed process (if running).
    pub pid: Option<u32>,
}

/// The registry of installed dependencies, keyed by dependency name.
///
/// The entries are held as a list with distinct names, viewed as a map by
/// name, so that what a lookup finds after an insert or a removal is
/// proved. vstd specifies `std::collections::HashMap` only for keys that
/// obey its key model (`obeys_key_model`), which it grants to the
/// primitive integer types and not to `String`; with `String` names a
/// `HashMap` would carry no provable contract.
#[derive(Debug)]
pub struct Registry {
    entries: Vec<(String, RegistryEntry)>,
}

/// Whether `k` names one of `s`'s entries.
pub open spec fn has_key(s: Seq<(String, RegistryEntry)>, k: Seq<char>) -> bool {
    exists|i: int| 0 <= i < s.len() && (#[trigger] s[i]).0@ == k
}

/// The position of the entry named `k`.
pub open spec fn key_index(s: Seq<(String, RegistryEntry)>, k: Seq<char>) -> int {
    choose|i: int| 0 <= i < s.len() && (#[trigger] s[i]).0@ == k
}

/// The names of `s`'s entries are distinct.
pub open spec fn distinct_keys(s: Seq<(String, RegistryEntry)>) -> bool {
    forall|i: int, j: int| 0 <= i < s.len() && 0 <= j < s.len() && i != j ==> (#[trigger] s[i]).0@ != (#[trigger] s[j]).0@
}

/// The map from names to entries that `s` holds.
pub open spec fn entries_map(s: Seq<(String, RegistryEntry)>) -> Map<Seq<char>, RegistryEntry> {
    Map::new(|k: Seq<char>| has_key(s, k), |k: Seq<char>| s[key_index(s, k)].1)
}

proof fn lemma_key_index(s: Seq<(String, RegistryEntry)>, i: int)
    requires
        distinct_keys(s),
        0 <= i < s.len(),
    ensures
        has_key(s, s[i].0@),
        key_index(s, s[i].0@) == i,
        entries_map(s).contains_key(s[i].0@),
        entries_map(s)[s[i].0@] == s[i].1,
{
    let k = s[i].0@;
    assert(has_key(s, k));
    let j = key_index(s, k);
    assert(s[j].0@ == k);
}

/// The entry `e` with the running flag and pid set.
pub open spec fn with_run_state(e: RegistryEntry, running: bool, pid: Option<u32>) -> RegistryEntry {
    RegistryEntry { running, pid, ..e }
}

/// The registry `m` with the entry named `k`, if there is one, given the
/// running flag and pid.
pub open spec fn marked(
    m: Map<Seq<char>, RegistryEntry>,
    k: Seq<char>,
    running: bool,
    pid: Option<u32>,
) -> Map<Seq<char>, RegistryEntry> {
    if m.contains_key(k) {
        m.insert(k, with_run_state(m[k], running, pid))
    } else {
        m
    }
}

/// Marking an entry stopped after marking it running leaves it as marking it
/// stopped alone does: not running, with no pid, the rest unchanged.
pub proof fn lemma_stop_after_run(m: Map<Seq<char>, RegistryEntry>, k: Seq<char>, pid: u32)
    ensures
        marked(marked(m, k, true, Some(pid)), k, false, None) == marked(m, k, false, None),
{
    if m.contains_key(k) {
        assert(marked(marked(m, k, true, Some(pid)), k, false, None) =~= marked(m, k, false, None));
    }
}

/// Marking changes no name: the registered names stay the same.
pub proof fn lemma_marking_keeps_names(
    m: Map<Seq<char>, RegistryEntry>,
    k: Seq<char>,
    running: bool,
    pid: Option<u32>,
)
    ensures
        marked(m, k, running, pid).dom() == m.dom(),
{
    if m.contains_key(k) {
        assert(marked(m, k, running, pid).dom() =~= m.dom());
    }
}

/// Setting an entry then reading it gives it back; removing it then asking
/// for it finds nothing, and the other names are untouched.
pub proof fn lemma_set_get_remove(m: Map<Seq<char>, RegistryEntry>, k: Seq<char>, e: RegistryEntry)
    ensures
        m.insert(k, e).contains_key(k),
        m.insert(k, e)[k] == e,
        !m.insert(k, e).remove(k).contains_key(k),
        m.insert(k, e).remove(k) == m.remove(k),
{
    assert(m.insert(k, e).remove(k) =~= m.remove(k));
}

impl Registry {
    /// The registry as a map from names to entries.
    pub closed spec fn view(&self) -> Map<Seq<char>, RegistryEntry> {
        entries_map(self.entries@)
    }

    /// Each name is held once.
    pub closed spec fn wf(&self) -> bool {
        distinct_keys(self.entries@)
    }

    /// The position of the entry named `name`, if any.
    fn find(&self, name: &str) -> (r: Option<usize>)
        requires
            self.wf(),
        ensures
            match r {
                Some(i) => i < self.entries@.len() && self.entries@[i as int].0@ == name@,
                None => !has_key(self.entries@, name@),
            },
    {
        let mut i: usize = 0;
        while i < self.entries.len()
            invariant
                i <= self.entries@.len(),
                forall|j: int| 0 <= j < i ==> (#[trigger] self.entries@[j]).0@ != name@,
            decreases self.entries@.len() - i,
        {
            if str_eq(self.entries[i].0.as_str(), name) {
                return Some(i);
            }
            i += 1;
        }
        None
    }

    /// Get an entry by dependency name.
    pub fn get(&self, name: &str) -> (r: Option<&RegistryEntry>)
        requires
            self.wf(),
        ensures
            match r {
                Some(e) => self@.contains_key(name@) && *e == self@[name@],
                None => !self@.contains_key(name@),
            },
    {
        match self.find(name) {
            Some(i) => {
                proof {
                    lemma_key_index(self.entries@, i as int);
                }
                Some(&self.entries[i].1)
            },
            None => None,
        }
    }

    /// Insert or update an entry.
    pub fn set(&mut self, name: String, entry: RegistryEntry)
        requires
            old(self).wf(),
        ensures
            final(self).wf(),
            final(self)@ == old(self)@.insert(name@, entry),
    {
        let ghost old_s = self.entries@;
        let ghost k = name@;
        let ghost e = entry;
        match self.find(name.as_str()) {
            Some(i) => {
                self.replace_at(i, entry);
            },
            None => {
                self.entries.push((name, entry));
                let ghost s = self.entries@;
                assert forall|a: int| 0 <= a < old_s.len() implies s[a] == old_s[a] by {}
                assert(s[old_s.len() as int].0@ == k);
                assert forall|a: int, b: int|
                    0 <= a < s.len() && 0 <= b < s.len() && a != b implies (#[trigger] s[a]).0@
                    != (#[trigger] s[b]).0@ by {
                    if a < old_s.len() && b < old_s.len() {
                        assert(old_s[a] == s[a] && old_s[b] == s[b]);
                    } else if a < old_s.len() {
                        assert(old_s[a] == s[a]);
                    } else {
                        assert(old_s[b] == s[b]);
                    }
                }
                assert(entries_map(s) =~= entries_map(old_s).insert(k, e)) by {
                    assert forall|x: Seq<char>| has_key(s, x) == (has_key(old_s, x) || x == k) by {
                        if has_key(s, x) {
                            let j = choose|j: int| 0 <= j < s.len() && (#[trigger] s[j]).0@ == x;
                            if j < old_s.len() {
                                assert(old_s[j] == s[j]);
                            }
                        }
                        if has_key(old_s, x) {
                            let j = choose|j: int| 0 <= j < old_s.len() && (#[trigger] old_s[j]).0@ == x;
                            assert(old_s[j] == s[j]);
                        }
                        if x == k {
                            assert(s[old_s.len() as int].0@ == k);
                        }
                    }
                    assert forall|x: Seq<char>| #[trigger] has_key(s, x) implies entries_map(s)[x]
                        == entries_map(old_s).insert(k, e)[x] by {
                        let j = choose|j: int| 0 <= j < s.len() && (#[trigger] s[j]).0@ == x;
                        lemma_key_index(s, j);
                        if j < old_s.len() {
                            assert(old_s[j] == s[j]);
                            lemma_key_index(old_s, j);
                        }
                    }
                }
            },
        }
    }

    /// Replaces the entry at position `i`, keeping its name.
    fn replace_at(&mut self, i: usize, entry: RegistryEntry)
        requires
            old(self).wf(),
            i < old(self).entries@.len(),
        ensures
            final(self).wf(),
            final(self)@ == old(self)@.insert(old(self).entries@[i as int].0@, entry),
            final(self).entries@.len() == old(self).entries@.len(),
    {
        let ghost old_s = self.entries@;
        let ghost k = old_s[i as int].0@;
        let ghost e = entry;
        let name = self.entries[i].0.clone();
        self.entries.set(i, (name, entry));
        let ghost s = self.entries@;
        assert(s[i as int].0@ == k);
        assert forall|a: int, b: int|
            0 <= a < s.len() && 0 <= b < s.len() && a != b implies (#[trigger] s[a]).0@
            != (#[trigger] s[b]).0@ by {
            if a != i && b != i {
                assert(old_s[a] == s[a] && old_s[b] == s[b]);
            } else if a == i {
                assert(old_s[b] == s[b]);
            } else {
                assert(old_s[a] == s[a]);
            }
        }
        assert(entries_map(s) =~= entries_map(old_s).insert(k, e)) by {
            assert forall|x: Seq<char>| has_key(s, x) == (has_key(old_s, x) || x == k) by {
                if has_key(s, x) {
                    let j = choose|j: int| 0 <= j < s.len() && (#[trigger] s[j]).0@ == x;
                    if j != i {
                        assert(old_s[j] == s[j]);
                    }
                }
                if has_key(old_s, x) {
                    let j = choose|j: int| 0 <= j < old_s.len() && (#[trigger] old_s[j]).0@ == x;
                    if j != i {
                        assert(old_s[j] == s[j]);
                    }
                }
            }
            assert forall|x: Seq<char>| #[trigger] has_key(s, x) implies entries_map(s)[x]
                == entries_map(old_s).insert(k, e)[x] by {
                let j = choose|j: int| 0 <= j < s.len() && (#[trigger] s[j]).0@ == x;
                lemma_key_index(s, j);
                if j != i {
                    assert(old_s[j] == s[j]);
                    lemma_key_index(old_s, j);
                }
            }
        }
    }

    /// Remove an entry, giving it back.
    pub fn remove(&mut self, name: &str) -> (r: Option<RegistryEntry>)
        requires
            old(self).wf(),
        ensures
            final(self).wf(),
            final(self)@ == old(self)@.remove(name@),
            match r {
                Some(e) => old(self)@.contains_key(name@) && e == old(self)@[name@],
                None => !old(self)@.contains_key(name@),
            },
    {
        let ghost old_s = self.entries@;
        match self.find(name) {
            Some(i) => {
                proof {
                    lemma_key_index(old_s, i as int);
                }
                let (_, e) = self.entries.remove(i);
                let ghost s = self.entries@;
                assert forall|a: int| 0 <= a < s.len() implies #[trigger] s[a] == if a < i {
                    old_s[a]
                } else {
                    old_s[a + 1]
                } by {}
                assert forall|a: int, b: int|
                    0 <= a < s.len() && 0 <= b < s.len() && a != b implies (#[trigger] s[a]).0@
                    != (#[trigger] s[b]).0@ by {
                    let a1 = if a < i {
                        a
                    } else {
                        a + 1
                    };
                    let b1 = if b < i {
                        b
                    } else {
                        b + 1
                    };
                    assert(s[a] == old_s[a1] && s[b] == old_s[b1]);
                }
                assert(entries_map(s) =~= entries_map(old_s).remove(name@)) by {
                    assert forall|x: Seq<char>| has_key(s, x) == (has_key(old_s, x) && x != name@) by {
                        if has_key(s, x) {
                            let j = choose|j: int| 0 <= j < s.len() && (#[trigger] s[j]).0@ == x;
                            let j1 = if j < i {
                                j
                            } else {
                                j + 1
                            };
                            assert(s[j] == old_s[j1]);
                            assert(old_s[j1].0@ == x);
                        }
                        if has_key(old_s, x) && x != name@ {
                            let j = choose|j: int| 0 <= j < old_s.len() && (#[trigger] old_s[j]).0@ == x;
                            if j < i {
                                assert(s[j] == old_s[j]);
                            } else {
                                assert(j != i);
                                assert(s[j - 1] == old_s[j]);
                            }
                        }
                    }
                    assert forall|x: Seq<char>| #[trigger] has_key(s, x) implies entries_map(s)[x]
                        == entries_map(old_s)[x] by {
                        let j = choose|j: int| 0 <= j < s.len() && (#[trigger] s[j]).0@ == x;
                        let j1 = if j < i {
                            j
                        } else {
                            j + 1
                        };
                        assert(s[j] == old_s[j1]);
                        lemma_key_index(s, j);
                        lemma_key_index(old_s, j1);
                    }
                }
                Some(e)
            },
            None => {
                assert(entries_map(old_s) =~= entries_map(old_s).remove(name@));
                None
            },
        }
    }

    /// Check if a dependency is registered.
    pub fn contains(&self, name: &str) -> (b: bool)
        requires
            self.wf(),
        ensures
            b == self@.contains_key(name@),
    {
        self.find(name).is_some()
    }

    /// List all entry names, each once.
    pub fn names(&self) -> (r: Vec<String>)
        requires
            self.wf(),
        ensures
            texts(r@).no_duplicates(),
            forall|k: Seq<char>| texts(r@).contains(k) <==> self@.contains_key(k),
    {
        let mut r: Vec<String> = Vec::new();
        let mut i: usize = 0;
        while i < self.entries.len()
            invariant
                i <= self.entries@.len(),
                distinct_keys(self.entries@),
                r@.len() == i,
                forall|j: int| 0 <= j < i ==> (#[trigger] r@[j])@ == self.entries@[j].0@,
            decreases self.entries@.len() - i,
        {
            r.push(self.entries[i].0.clone());
            i += 1;
        }
        let ghost t = texts(r@);
        assert forall|a: int, b: int| 0 <= a < t.len() && 0 <= b < t.len() && a != b implies t[a] != t[b] by {
            assert(t[a] == r@[a]@ && t[b] == r@[b]@);
            assert(self.entries@[a].0@ != self.entries@[b].0@);
        }
        assert forall|k: Seq<char>| t.contains(k) <==> self@.contains_key(k) by {
            if t.contains(k) {
                let j = choose|j: int| 0 <= j < t.len() && t[j] == k;
                assert(t[j] == r@[j]@);
                lemma_key_index(self.entries@, j);
            }
            if self@.contains_key(k) {
                let j = choose|j: int| 0 <= j < self.entries@.len() && (#[trigger] self.entries@[j]).0@ == k;
                assert(t[j] == r@[j]@);
            }
        }
        r
    }

    /// Mark a dependency as running with a PID.
    pub fn mark_running(&mut self, name: &str, pid: u32)
        requires
            old(self).wf(),
        ensures
            final(self).wf(),
            final(self)@ == marked(old(self)@, name@, true, Some(pid)),
    {
        if let Some(i) = self.find(name) {
            proof {
                lemma_key_index(self.entries@, i as int);
            }
            let e = &self.entries[i].1;
            let updated = RegistryEntry {
                kind: e.kind.clone(),
                version: e.version.clone(),
                installed_at: e.installed_at.clone(),
                path: e.path.clone(),
                running: true,
                pid: Some(pid),
            };
            self.replace_at(i, updated);
        }
    }

    /// Mark a dependency as stopped.
    pub fn mark_stopped(&mut self, name: &str)
        requires
            old(self).wf(),
        ensures
            final(self).wf(),
            final(self)@ == marked(old(self)@, name@, false, None),
    {
        if let Some(i) = self.find(name) {
            proof {
                lemma_key_index(self.entries@, i as int);
            }
            let e = &self.entries[i].1;
            let updated = RegistryEntry {
                kind: e.kind.clone(),
                version: e.version.clone(),
                installed_at: e.installed_at.clone(),
                path: e.path.clone(),
                running: false,
                pid: None,
            };
            self.replace_at(i, updated);
        }
    }

    /// Find entries that claim to be running (for stale process cleanup).
    pub fn stale_running(&self) -> (r: Vec<(String, &RegistryEntry)>)
        requires
            self.wf(),
        ensures
            r@.map_values(|p: (String, &RegistryEntry)| p.0@).no_duplicates(),
            forall|j: int|
                0 <= j < r@.len() ==> self@.contains_key((#[trigger] r@[j]).0@) && *r@[j].1
                    == self@[r@[j].0@] && r@[j].1.running,
            forall|k: Seq<char>|
                self@.contains_key(k) && self@[k].running ==> exists|j: int|
                    0 <= j < r@.len() && (#[trigger] r@[j]).0@ == k,
    {
        let ghost es = self.entries@;
        let mut r: Vec<(String, &RegistryEntry)> = Vec::new();
        let ghost mut idx: Seq<int> = Seq::empty();
        let mut i: usize = 0;
        while i < self.entries.len()
            invariant
                i <= es.len(),
                es == self.entries@,
                distinct_keys(es),
                idx.len() == r@.len(),
                forall|j: int|
                    0 <= j < r@.len() ==> 0 <= #[trigger] idx[j] < i && r@[j].0@ == es[idx[j]].0@
                        && *r@[j].1 == es[idx[j]].1 && es[idx[j]].1.running,
                forall|a: int, b: int| 0 <= a < b < idx.len() ==> #[trigger] idx[a] < #[trigger] idx[b],
                forall|m: int|
                    0 <= m < i && (#[trigger] es[m]).1.running ==> exists|j: int|
                        0 <= j < idx.len() && #[trigger] idx[j] == m,
            decreases es.len() - i,
        {
            if self.entries[i].1.running {
                let ghost before = idx;
                r.push((self.entries[i].0.clone(), &self.entries[i].1));
                proof {
                    idx = idx.push(i as int);
                    assert forall|m: int|
                        0 <= m < i + 1 && (#[trigger] es[m]).1.running implies exists|j: int|
                        0 <= j < idx.len() && #[trigger] idx[j] == m by {
                        if m == i {
                            assert(idx[before.len() as int] == m);
                        } else {
                            let j = choose|j: int| 0 <= j < before.len() && #[trigger] before[j] == m;
                            assert(idx[j] == m);
                        }
                    }
                }
            }
            i += 1;
        }
        proof {
            assert forall|j: int|
                0 <= j < r@.len() implies self@.contains_key((#[trigger] r@[j]).0@) && *r@[j].1
                == self@[r@[j].0@] && r@[j].1.running by {
                lemma_key_index(es, idx[j]);
            }
            assert forall|k: Seq<char>|
                self@.contains_key(k) && self@[k].running implies exists|j: int|
                0 <= j < r@.len() && (#[trigger] r@[j]).0@ == k by {
                let m = choose|m: int| 0 <= m < es.len() && (#[trigger] es[m]).0@ == k;
                lemma_key_index(es, m);
                assert(es[m].1.running);
                let j = choose|j: int| 0 <= j < idx.len() && #[trigger] idx[j] == m;
                assert(r@[j].0@ == k);
            }
            let names = r@.map_values(|p: (String, &RegistryEntry)| p.0@);
            assert forall|a: int, b: int|
                0 <= a < names.len() && 0 <= b < names.len() && a != b implies names[a] != names[b] by {
                assert(names[a] == r@[a].0@ && names[b] == r@[b].0@);
                if a < b {
                    assert(idx[a] < idx[b]);
                } else {
                    assert(idx[b] < idx[a]);
                }
            }
        }
        r
    }
}

impl Default for Registry {
    fn default() -> (r: Self)
        ensures
            r@ == Map::<Seq<char>, RegistryEntry>::empty(),
            r.wf(),
    {
        let r = Registry { entries: Vec::new() };
        assert(r@ =~= Map::<Seq<char>, RegistryEntry>::empty());
        r
    }
}

// ---------------------------------------------------------------------------
// Fetchers
// ---------------------------------------------------------------------------

/// Result of a fetch operation.
#[derive(Debug, Clone)]
pub struct FetchResult {
    /// Path where the artifact was installed.
    pub path: String,
    /// Resolved version that was installed.
    pub version: String,
}

/// Abstracts the operations that fetch dependencies.
pub trait DepFetcher {
    /// Check if a command/binary is available on the system.
    fn is_command_available(&self, command: &str) -> bool;
}

/// Fetcher with configured answers, for tests.
pub struct MockFetcher {
    /// The result the next install gives; taken by it.
    pub install_result: Option<Result<FetchResult, ZeptoError>>,
    /// The commands reported available.
    pub commands_available: Vec<String>,
}

impl MockFetcher {
    /// A fetcher whose install succeeds with the given path and version.
    pub fn success(path: &str, version: &str) -> (r: Self)
        ensures
            r.install_result matches Some(Ok(f)) && f.path@ == path@ && f.version@ == version@,
            r.commands_available@.len() == 0,
    {
        MockFetcher {
            install_result: Some(
                Ok(FetchResult { path: String::from_str(path), version: String::from_str(version) }),
            ),
            commands_available: Vec::new(),
        }
    }

    /// A fetcher whose install fails with a tool error.
    pub fn failure(msg: &str) -> (r: Self)
        ensures
            r.install_result matches Some(Err(ZeptoError::Tool(m))) && m@ == msg@,
            r.commands_available@.len() == 0,
    {
        MockFetcher {
            install_result: Some(Err(ZeptoError::Tool(String::from_str(msg)))),
            commands_available: Vec::new(),
        }
    }

    /// The same fetcher, reporting exactly the given commands available.
    pub fn with_commands(self, cmds: Vec<&str>) -> (r: Self)
        ensures
            r.install_result == self.install_result,
            texts(r.commands_available@) == cmds@.map_values(|c: &str| c@),
    {
        let mut list: Vec<String> = Vec::new();
        let mut i: usize = 0;
        while i < cmds.len()
            invariant
                i <= cmds@.len(),
                texts(list@) == cmds@.take(i as int).map_values(|c: &str| c@),
            decreases cmds@.len() - i,
        {
            let ghost before = list@;
            list.push(String::from_str(cmds[i]));
            assert(texts(list@) =~= texts(before).push(cmds@[i as int]@));
            assert(cmds@.take(i + 1).map_values(|c: &str| c@) =~= cmds@.take(i as int).map_values(
                |c: &str| c@,
            ).push(cmds@[i as int]@));
            i += 1;
        }
        assert(cmds@.take(i as int) =~= cmds@);
        MockFetcher { install_result: self.install_result, commands_available: list }
    }

    /// The configured install result, once; afterwards a tool error.
    pub fn install(&mut self, kind: &DepKind, dest_dir: &str) -> (r: Result<FetchResult, ZeptoError>)
        ensures
            final(self).install_result is None,
            final(self).commands_available == old(self).commands_available,
            match old(self).install_result {
                Some(res) => r == res,
                None => r matches Err(ZeptoError::Tool(m)) && m@ == "No mock result configured"@,
            },
    {
        match self.install_result.take() {
            Some(res) => res,
            None => Err(ZeptoError::Tool(String::from_str("No mock result configured"))),
        }
    }
}

impl DepFetcher for MockFetcher {
    fn is_command_available(&self, command: &str) -> (b: bool)
        ensures
            b == texts(self.commands_available@).contains(command@),
    {
        let mut i: usize = 0;
        while i < self.commands_available.len()
            invariant
                i <= self.commands_available@.len(),
                forall|j: int| 0 <= j < i ==> self.commands_available@[j]@ != command@,
            decreases self.commands_available@.len() - i,
        {
            if str_eq(self.commands_available[i].as_str(), command) {
                assert(texts(self.commands_available@)[i as int] == command@);
                return true;
            }
            i += 1;
        }
        assert forall|j: int| 0 <= j < texts(self.commands_available@).len() implies texts(self.commands_available@)[j] != command@ by {
            assert(texts(self.commands_available@)[j] == self.commands_available@[j]@);
        }
        false
    }
}

// ---------------------------------------------------------------------------
// Installing and starting dependencies
// ---------------------------------------------------------------------------

/// `a` joined with `b` as Unix paths are joined (`Path::join`): an absolute
/// `b` replaces `a`; otherwise a `/` separates them unless `a` is empty or
/// already ends with one.
pub open spec fn path_join(a: Seq<char>, b: Seq<char>) -> Seq<char> {
    if b.len() > 0 && b[0] == '/' {
        b
    } else if a.len() == 0 {
        b
    } else if a.last() == '/' {
        a + b
    } else {
        a + "/"@ + b
    }
}

/// Joins two Unix paths.
pub fn join_path(a: &str, b: &str) -> (r: String)
    ensures
        r@ == path_join(a@, b@),
{
    let bv = chars_of(b);
    if bv.len() > 0 && bv[0] == '/' {
        return String::from_str(b);
    }
    let av = chars_of(a);
    if av.len() == 0 {
        return String::from_str(b);
    }
    let mut r = String::from_str(a);
    if av[av.len() - 1] != '/' {
        r.append("/");
    }
    r.append(b);
    r
}

/// A program and its arguments.
pub struct CommandSpec {
    pub program: String,
    pub args: Vec<String>,
}

/// `-p` before each port mapping.
pub open spec fn port_args(ports: Seq<Seq<char>>) -> Seq<Seq<char>>
    decreases ports.len(),
{
    if ports.len() == 0 {
        Seq::empty()
    } else {
        port_args(ports.drop_last()) + seq!["-p"@, ports.last()]
    }
}

/// The command that starts an installed dependency: a binary runs with its
/// arguments; a Docker image runs in a removed-on-exit container with its
/// port mappings; an npm package runs its entry point through `npx`; a pip
/// package runs its entry point from the virtualenv's `bin` directory.
pub open spec fn start_command_spec(kind: DepKind, artifact: Seq<char>, args: Seq<Seq<char>>) -> (Seq<char>, Seq<Seq<char>>) {
    match kind {
        DepKind::Binary { .. } => (artifact, args),
        DepKind::DockerImage { image, tag, ports } => (
            "docker"@,
            seq!["run"@, "--rm"@] + port_args(texts(ports@)) + seq![image@ + ":"@ + tag@] + args,
        ),
        DepKind::NpmPackage { entry_point, .. } => ("npx"@, seq![entry_point@] + args),
        DepKind::PipPackage { entry_point, .. } => (path_join(path_join(artifact, "bin"@), entry_point@), args),
    }
}

proof fn lemma_port_args_layout(ports: Seq<Seq<char>>)
    ensures
        port_args(ports).len() == 2 * ports.len(),
        forall|i: int| 0 <= i < ports.len() ==> #[trigger] port_args(ports)[2 * i] == "-p"@,
        forall|i: int| 0 <= i < ports.len() ==> #[trigger] port_args(ports)[2 * i + 1] == ports[i],
    decreases ports.len(),
{
    if ports.len() > 0 {
        let q = ports.drop_last();
        lemma_port_args_layout(q);
        let p = port_args(ports);
        assert(p == port_args(q) + seq!["-p"@, ports.last()]);
        assert forall|i: int| 0 <= i < ports.len() implies #[trigger] p[2 * i] == "-p"@ by {
            if i < q.len() {
                assert(p[2 * i] == port_args(q)[2 * i]);
            }
        }
        assert forall|i: int| 0 <= i < ports.len() implies #[trigger] p[2 * i + 1] == ports[i] by {
            if i < q.len() {
                assert(p[2 * i + 1] == port_args(q)[2 * i + 1]);
                assert(q[i] == ports[i]);
            }
        }
    }
}

/// Whether `s` ends with `tail`.
pub open spec fn ends_with_seq<A>(s: Seq<A>, tail: Seq<A>) -> bool {
    s.len() >= tail.len() && forall|i: int| 0 <= i < tail.len() ==> #[trigger] s[s.len() - tail.len() + i] == tail[i]
}

/// Whatever the kind of dependency, the start command's arguments end with
/// the dependency's own arguments, in order. A Docker image is started as
/// `docker run --rm`, then `-p` and each port mapping in order, then
/// `image:tag`, then those arguments; an npm package as `npx` with its entry
/// point first; a binary or a pip package with exactly those arguments.
pub proof fn lemma_start_command_keeps_args(kind: DepKind, artifact: Seq<char>, args: Seq<Seq<char>>)
    ensures
        ends_with_seq(start_command_spec(kind, artifact, args).1, args),
        kind matches DepKind::DockerImage { image, tag, ports } ==> {
            let c = start_command_spec(kind, artifact, args);
            let n = ports@.len() as int;
            &&& c.0 == "docker"@
            &&& c.1.len() == 3 + 2 * n + args.len()
            &&& c.1[0] == "run"@
            &&& c.1[1] == "--rm"@
            &&& forall|i: int| 0 <= i < n ==> c.1[2 + 2 * i] == "-p"@ && #[trigger] c.1[3 + 2 * i] == ports@[i]@
            &&& c.1[2 + 2 * n] == image@ + ":"@ + tag@
        },
        kind matches DepKind::NpmPackage { entry_point, .. } ==> start_command_spec(kind, artifact, args)
            == ("npx"@, seq![entry_point@] + args),
        (kind is Binary || kind is PipPackage) ==> start_command_spec(kind, artifact, args).1 == args,
{
    if let DepKind::DockerImage { image, tag, ports } = kind {
        let ps = texts(ports@);
        lemma_port_args_layout(ps);
        let head = seq!["run"@, "--rm"@] + port_args(ps) + seq![image@ + ":"@ + tag@];
        let c = start_command_spec(kind, artifact, args).1;
        assert(c == head + args);
        assert(head.len() == 3 + 2 * ports@.len());
        assert(c[2 + 2 * (ports@.len() as int)] == head[2 + 2 * (ports@.len() as int)]);
        let n = ports@.len() as int;
        assert forall|i: int| 0 <= i < n implies c[2 + 2 * i] == "-p"@ && #[trigger] c[3 + 2 * i]
            == ports@[i]@ by {
            assert(port_args(ps)[2 * i + 1] == ps[i]);
            assert(port_args(ps)[2 * i] == "-p"@);
            assert(c[3 + 2 * i] == port_args(ps)[2 * i + 1]);
            assert(c[2 + 2 * i] == port_args(ps)[2 * i]);
        }
        assert(ends_with_seq(c, args)) by {
            assert forall|i: int| 0 <= i < args.len() implies #[trigger] c[c.len() - args.len() + i] == args[i] by {
                assert(c[head.len() + i] == args[i]);
            }
        }
    } else if let DepKind::NpmPackage { entry_point, .. } = kind {
        let c = start_command_spec(kind, artifact, args).1;
        assert forall|i: int| 0 <= i < args.len() implies #[trigger] c[c.len() - args.len() + i] == args[i] by {
            assert(c[1 + i] == args[i]);
        }
    }
}

fn push_all(r: &mut Vec<String>, items: &[String])
    ensures
        texts(final(r)@) == texts(old(r)@) + items@.map_values(|x: String| x@),
{
    let ghost start = r@;
    let mut i: usize = 0;
    while i < items.len()
        invariant
            i <= items@.len(),
            texts(r@) == texts(start) + items@.take(i as int).map_values(|x: String| x@),
        decreases items@.len() - i,
    {
        let ghost before = r@;
        r.push(items[i].clone());
        assert(texts(r@) =~= texts(before).push(items@[i as int]@));
        assert(items@.take(i + 1).map_values(|x: String| x@) =~= items@.take(i as int).map_values(
            |x: String| x@,
        ).push(items@[i as int]@));
        i += 1;
    }
    assert(items@.take(i as int) =~= items@);
}

/// Builds the command for starting a dependency.
pub fn build_start_command(kind: &DepKind, artifact_path: &str, args: &[String]) -> (r: Result<CommandSpec, ZeptoError>)
    ensures
        r matches Ok(c) && (c.program@, texts(c.args@)) == start_command_spec(
            *kind,
            artifact_path@,
            args@.map_values(|x: String| x@),
        ),
        r matches Ok(c) && ends_with_seq(texts(c.args@), args@.map_values(|x: String| x@)),
{
    proof {
        lemma_start_command_keeps_args(*kind, artifact_path@, args@.map_values(|x: String| x@));
    }
    let ghost a = args@.map_values(|x: String| x@);
    match kind {
        DepKind::Binary { .. } => {
            let mut v: Vec<String> = Vec::new();
            assert(texts(v@) =~= Seq::<Seq<char>>::empty());
            push_all(&mut v, args);
            assert(texts(v@) =~= a);
            Ok(CommandSpec { program: String::from_str(artifact_path), args: v })
        },
        DepKind::DockerImage { image, tag, ports } => {
            let mut v: Vec<String> = Vec::new();
            v.push(String::from_str("run"));
            v.push(String::from_str("--rm"));
            assert(texts(v@) =~= seq!["run"@, "--rm"@] + port_args(texts(ports@).take(0)));
            let mut i: usize = 0;
            while i < ports.len()
                invariant
                    i <= ports@.len(),
                    texts(v@) == seq!["run"@, "--rm"@] + port_args(texts(ports@).take(i as int)),
                decreases ports@.len() - i,
            {
                let ghost before = v@;
                v.push(String::from_str("-p"));
                v.push(ports[i].clone());
                assert(texts(ports@).take(i + 1).drop_last() =~= texts(ports@).take(i as int));
                assert(texts(v@) =~= texts(before) + seq!["-p"@, ports@[i as int]@]);
                i += 1;
            }
            assert(texts(ports@).take(i as int) =~= texts(ports@));
            let mut it = image.clone();
            it.append(":");
            it.append(tag.as_str());
            let ghost mid = v@;
            v.push(it);
            assert(texts(v@) =~= texts(mid) + seq![image@ + ":"@ + tag@]);
            let ghost mid2 = v@;
            push_all(&mut v, args);
            Ok(CommandSpec { program: String::from_str("docker"), args: v })
        },
        DepKind::NpmPackage { entry_point, .. } => {
            let mut v: Vec<String> = Vec::new();
            v.push(entry_point.clone());
            assert(texts(v@) =~= seq![entry_point@]);
            push_all(&mut v, args);
            Ok(CommandSpec { program: String::from_str("npx"), args: v })
        },
        DepKind::PipPackage { entry_point, .. } => {
            let bin = join_path(artifact_path, "bin");
            let program = join_path(bin.as_str(), entry_point.as_str());
            let mut v: Vec<String> = Vec::new();
            assert(texts(v@) =~= Seq::<Seq<char>>::empty());
            push_all(&mut v, args);
            assert(texts(v@) =~= a);
            Ok(CommandSpec { program, args: v })
        },
    }
}

/// The part of a path after its last `/` (all of it when it has none).
pub open spec fn last_segment(s: Seq<char>) -> Seq<char>
    decreases s.len(),
{
    if s.len() == 0 {
        s
    } else if s.last() == '/' {
        Seq::empty()
    } else {
        last_segment(s.drop_last()).push(s.last())
    }
}

/// The part of a path after its last `/`.
pub fn last_path_segment(s: &str) -> (r: String)
    ensures
        r@ == last_segment(s@),
{
    let v = chars_of(s);
    let mut start: usize = 0;
    let mut i: usize = 0;
    while i < v.len()
        invariant
            start <= i <= v@.len(),
            v@ == s@,
            last_segment(v@.take(i as int)) == v@.subrange(start as int, i as int),
        decreases v@.len() - i,
    {
        assert(v@.take(i + 1).drop_last() =~= v@.take(i as int));
        if v[i] == '/' {
            start = i + 1;
            assert(v@.subrange(start as int, i + 1) =~= Seq::<char>::empty());
        } else {
            assert(v@.subrange(start as int, i + 1) =~= v@.subrange(start as int, i as int).push(v@[i as int]));
        }
        i += 1;
    }
    assert(v@.take(i as int) =~= v@);
    crate::text::string_of_range(&v, start, v.len())
}

/// A command of an install, with the texts that begin its error when it
/// cannot be run and when it exits unsuccessfully (followed by the reason,
/// or by what it wrote to stderr).
pub struct PlannedCommand {
    pub program: String,
    pub args: Vec<String>,
    pub spawn_error: String,
    pub failure: String,
}

/// How a dependency is installed: the directory to create first (if any),
/// the commands to run in order, and what the install gives when they all
/// succeed (a tool error's text for `Err`).
pub struct InstallPlan {
    pub create_dir: Option<String>,
    pub commands: Vec<PlannedCommand>,
    pub outcome: Result<FetchResult, String>,
}

/// The view of a planned command.
pub open spec fn command_view(c: PlannedCommand) -> (Seq<char>, Seq<Seq<char>>, Seq<char>, Seq<char>) {
    (c.program@, texts(c.args@), c.spawn_error@, c.failure@)
}

/// How a dependency is installed into `dest` on the given platform.
/// Binaries are not downloaded yet: their install creates `dest/bin` and
/// fails, naming where the binary would go. A Docker image is pulled. An npm
/// package is installed under `dest` (its files in `dest/node_modules`). A
/// pip package gets a virtualenv in `dest/venvs/<package>` and is installed
/// with that virtualenv's pip.
pub open spec fn install_plan_ok(p: InstallPlan, kind: DepKind, dest: Seq<char>, os: Seq<char>, arch: Seq<char>) -> bool {
    match kind {
        DepKind::Binary { repo, asset_pattern, version } => {
            let bin_dir = path_join(dest, "bin"@);
            let bin_name = last_segment(resolved_asset(asset_pattern@, os, arch));
            &&& p.create_dir matches Some(d) && d@ == bin_dir
            &&& p.commands@.len() == 0
            &&& p.outcome matches Err(e) && e@ == "Binary download not yet implemented: "@ + repo@ + " "@
                + version@ + " -> "@ + path_join(bin_dir, bin_name)
        },
        DepKind::DockerImage { image, tag, .. } => {
            let reference = image@ + ":"@ + tag@;
            &&& p.create_dir is None
            &&& p.commands@.len() == 1
            &&& command_view(p.commands@[0]) == (
                "docker"@,
                seq!["pull"@, reference],
                "Failed to run docker pull: "@,
                "docker pull failed: "@,
            )
            &&& p.outcome matches Ok(f) && f.path@ == reference && f.version@ == tag@
        },
        DepKind::NpmPackage { package, version, .. } => {
            let node_dir = path_join(dest, "node_modules"@);
            &&& p.create_dir matches Some(d) && d@ == node_dir
            &&& p.commands@.len() == 1
            &&& command_view(p.commands@[0]) == (
                "npm"@,
                seq!["install"@, "--prefix"@, dest, package@ + "@"@ + version@],
                "npm install failed: "@,
                "npm install failed: "@,
            )
            &&& p.outcome matches Ok(f) && f.path@ == node_dir && f.version@ == version@
        },
        DepKind::PipPackage { package, version, .. } => {
            let venv = path_join(path_join(dest, "venvs"@), package@);
            &&& p.create_dir matches Some(d) && d@ == venv
            &&& p.commands@.len() == 2
            &&& command_view(p.commands@[0]) == (
                "python3"@,
                seq!["-m"@, "venv"@, venv],
                "venv creation failed: "@,
                "venv creation failed: "@,
            )
            &&& command_view(p.commands@[1]) == (
                path_join(path_join(venv, "bin"@), "pip"@),
                seq!["install"@, package@ + version@],
                "pip install failed: "@,
                "pip install failed: "@,
            )
            &&& p.outcome matches Ok(f) && f.path@ == venv && f.version@ == version@
        },
    }
}

/// What an install gives back is what the start command then runs: the
/// Docker image reference that was pulled is the image the container runs,
/// and a pip package's program is started from the `bin` directory of the
/// virtualenv whose `pip` installed it.
pub proof fn lemma_start_runs_what_was_installed(
    p: InstallPlan,
    kind: DepKind,
    dest: Seq<char>,
    os: Seq<char>,
    arch: Seq<char>,
    args: Seq<Seq<char>>,
)
    requires
        install_plan_ok(p, kind, dest, os, arch),
        p.outcome is Ok,
    ensures
        kind matches DepKind::DockerImage { ports, .. } ==> {
            let c = start_command_spec(kind, p.outcome->Ok_0.path@, args);
            &&& c.0 == "docker"@
            &&& c.1[2 + 2 * (ports@.len() as int)] == command_view(p.commands@[0]).1[1]
            &&& command_view(p.commands@[0]).0 == "docker"@
            &&& command_view(p.commands@[0]).1[0] == "pull"@
        },
        kind matches DepKind::PipPackage { entry_point, .. } ==> {
            let f = p.outcome->Ok_0;
            &&& start_command_spec(kind, f.path@, args).0 == path_join(path_join(f.path@, "bin"@), entry_point@)
            &&& command_view(p.commands@[1]).0 == path_join(path_join(f.path@, "bin"@), "pip"@)
        },
{
    lemma_start_command_keeps_args(kind, p.outcome->Ok_0.path@, args);
}

fn planned(program: String, args: Vec<String>, spawn_error: &str, failure: &str) -> (c: PlannedCommand)
    ensures
        command_view(c) == (program@, texts(args@), spawn_error@, failure@),
{
    PlannedCommand {
        program,
        args,
        spawn_error: String::from_str(spawn_error),
        failure: String::from_str(failure),
    }
}

/// Plans the install of a dependency into `dest_dir`, for the platform
/// that Rust names `target_os` and `target_arch`.
pub fn install_plan(kind: &DepKind, dest_dir: &str, target_os: &str, target_arch: &str) -> (p: InstallPlan)
    ensures
        install_plan_ok(p, *kind, dest_dir@, release_os(target_os@), release_arch(target_arch@)),
{
    match kind {
        DepKind::Binary { repo, asset_pattern, version } => {
            let resolved = resolve_asset_pattern(asset_pattern.as_str(), target_os, target_arch);
            let bin_dir = join_path(dest_dir, "bin");
            let bin_name = last_path_segment(resolved.as_str());
            let bin_path = join_path(bin_dir.as_str(), bin_name.as_str());
            let mut e = String::from_str("Binary download not yet implemented: ");
            e.append(repo.as_str());
            e.append(" ");
            e.append(version.as_str());
            e.append(" -> ");
            e.append(bin_path.as_str());
            InstallPlan { create_dir: Some(bin_dir), commands: Vec::new(), outcome: Err(e) }
        },
        DepKind::DockerImage { image, tag, .. } => {
            let mut reference = image.clone();
            reference.append(":");
            reference.append(tag.as_str());
            let args = vec![String::from_str("pull"), reference.clone()];
            assert(texts(args@) =~= seq!["pull"@, reference@]);
            let c = planned(String::from_str("docker"), args, "Failed to run docker pull: ", "docker pull failed: ");
            let commands = vec![c];
            InstallPlan {
                create_dir: None,
                commands,
                outcome: Ok(FetchResult { path: reference, version: tag.clone() }),
            }
        },
        DepKind::NpmPackage { package, version, .. } => {
            let node_dir = join_path(dest_dir, "node_modules");
            let mut spec = package.clone();
            spec.append("@");
            spec.append(version.as_str());
            let args = vec![
                String::from_str("install"),
                String::from_str("--prefix"),
                String::from_str(dest_dir),
                spec,
            ];
            assert(texts(args@) =~= seq!["install"@, "--prefix"@, dest_dir@, package@ + "@"@ + version@]);
            let c = planned(String::from_str("npm"), args, "npm install failed: ", "npm install failed: ");
            let commands = vec![c];
            InstallPlan {
                create_dir: Some(node_dir.clone()),
                commands,
                outcome: Ok(FetchResult { path: node_dir, version: version.clone() }),
            }
        },
        DepKind::PipPackage { package, version, .. } => {
            let venvs = join_path(dest_dir, "venvs");
            let venv = join_path(venvs.as_str(), package.as_str());
            let venv_args = vec![String::from_str("-m"), String::from_str("venv"), venv.clone()];
            assert(texts(venv_args@) =~= seq!["-m"@, "venv"@, venv@]);
            let c1 = planned(String::from_str("python3"), venv_args, "venv creation failed: ", "venv creation failed: ");
            let bin = join_path(venv.as_str(), "bin");
            let pip = join_path(bin.as_str(), "pip");
            let mut spec = package.clone();
            spec.append(version.as_str());
            let pip_args = vec![String::from_str("install"), spec];
            assert(texts(pip_args@) =~= seq!["install"@, package@ + version@]);
            let c2 = planned(pip, pip_args, "pip install failed: ", "pip install failed: ");
            let commands = vec![c1, c2];
            InstallPlan {
                create_dir: Some(venv.clone()),
                commands,
                outcome: Ok(FetchResult { path: venv, version: version.clone() }),
            }
        },
    }
}

// ---------------------------------------------------------------------------
// The dependency manager
// ---------------------------------------------------------------------------

/// Whether `e` is the registry entry recorded for a dependency just
/// installed: its kind's label, the installed version and path, the time
/// given, and no process.
pub open spec fn is_installed_entry(e: RegistryEntry, kind: DepKind, result: FetchResult, installed_at: String) -> bool {
    &&& e.kind@ == dep_kind_label_spec(kind)
    &&& e.version == result.version
    &&& e.installed_at == installed_at
    &&& e.path == result.path
    &&& !e.running
    &&& e.pid is None
}

/// What starting a dependency asks for.
pub enum StartPlan {
    /// Its process already runs: nothing to do.
    AlreadyRunning,
    /// Spawn this command (with the dependency's environment), its output
    /// going to `log_path` in the directory `log_dir`.
    Spawn { command: CommandSpec, log_dir: String, log_path: String },
}

/// The dependency manager's bookkeeping: the directory dependencies go to,
/// the registry of installed ones, and the names of the processes it
/// started. The caller installs, spawns and kills as the steps ask.
pub struct DepManager {
    deps_dir: String,
    registry: Registry,
    running: Vec<String>,
}

impl DepManager {
    /// The directory dependencies are installed into.
    pub closed spec fn dir(&self) -> Seq<char> {
        self.deps_dir@
    }

    /// The installed dependencies by name.
    pub closed spec fn installed(&self) -> Map<Seq<char>, RegistryEntry> {
        self.registry@
    }

    /// The names of the dependencies whose processes run.
    pub closed spec fn procs(&self) -> Set<Seq<char>> {
        texts(self.running@).to_set()
    }

    /// The registry is well formed and each running name is held once.
    pub closed spec fn wf(&self) -> bool {
        &&& self.registry.wf()
        &&& texts(self.running@).no_duplicates()
    }

    /// A manager over `deps_dir` with the loaded registry and no process.
    pub fn new(deps_dir: String, registry: Registry) -> (r: Self)
        requires
            registry.wf(),
        ensures
            r.wf(),
            r.dir() == deps_dir@,
            r.installed() == registry@,
            r.procs() == Set::<Seq<char>>::empty(),
    {
        let r = DepManager { deps_dir, registry, running: Vec::new() };
        assert(texts(r.running@) =~= Seq::<Seq<char>>::empty());
        assert(r.procs() =~= Set::<Seq<char>>::empty());
        r
    }

    /// The registry, for saving.
    pub fn registry(&self) -> (r: &Registry)
        ensures
            r@ == self.installed(),
            self.wf() ==> r.wf(),
    {
        &self.registry
    }

    /// Whether a dependency of this name is installed.
    pub fn is_installed(&self, name: &str) -> (b: bool)
        requires
            self.wf(),
        ensures
            b == self.installed().contains_key(name@),
    {
        self.registry.contains(name)
    }

    fn running_index(&self, name: &str) -> (r: Option<usize>)
        ensures
            match r {
                Some(i) => i < self.running@.len() && self.running@[i as int]@ == name@,
                None => !self.procs().contains(name@),
            },
    {
        let mut i: usize = 0;
        while i < self.running.len()
            invariant
                i <= self.running@.len(),
                forall|j: int| 0 <= j < i ==> self.running@[j]@ != name@,
            decreases self.running@.len() - i,
        {
            if str_eq(self.running[i].as_str(), name) {
                return Some(i);
            }
            i += 1;
        }
        assert forall|j: int| 0 <= j < texts(self.running@).len() implies texts(self.running@)[j] != name@ by {
            assert(texts(self.running@)[j] == self.running@[j]@);
        }
        None
    }

    /// Whether the process of this dependency runs.
    pub fn is_running(&self, name: &str) -> (b: bool)
        ensures
            b == self.procs().contains(name@),
    {
        match self.running_index(name) {
            Some(i) => {
                assert(texts(self.running@)[i as int] == name@);
                true
            },
            None => false,
        }
    }

    /// Whether `ensure_installed` has to install the dependency: only when
    /// no dependency of its name is installed.
    pub fn needs_install(&self, dep: &Dependency) -> (b: bool)
        requires
            self.wf(),
        ensures
            b == !self.installed().contains_key(dep.name@),
    {
        !self.registry.contains(dep.name.as_str())
    }

    /// Records a finished install: the registry gets an entry for the
    /// dependency's name with its kind, the installed version and path, the
    /// time given, and no process.
    pub fn record_install(&mut self, dep: &Dependency, result: FetchResult, installed_at: String)
        requires
            old(self).wf(),
        ensures
            final(self).wf(),
            final(self).dir() == old(self).dir(),
            final(self).procs() == old(self).procs(),
            final(self).installed().contains_key(dep.name@),
            is_installed_entry(final(self).installed()[dep.name@], dep.kind, result, installed_at),
            final(self).installed().remove(dep.name@) == old(self).installed().remove(dep.name@),
    {
        let entry = RegistryEntry {
            kind: String::from_str(dep_kind_label(&dep.kind)),
            version: result.version,
            installed_at,
            path: result.path,
            running: false,
            pid: None,
        };
        let ghost e = entry;
        self.registry.set(dep.name.clone(), entry);
        assert(self.registry@.remove(dep.name@) =~= old(self).registry@.remove(dep.name@));
    }

    /// What starting a dependency asks for: nothing when its process runs;
    /// a tool error when it is not installed; else its start command, with
    /// its log at `<deps_dir>/logs/<name>.log`.
    pub fn start_plan(&self, dep: &Dependency) -> (r: Result<StartPlan, ZeptoError>)
        requires
            self.wf(),
        ensures
            self.procs().contains(dep.name@) ==> r matches Ok(StartPlan::AlreadyRunning),
            !self.procs().contains(dep.name@) && !self.installed().contains_key(dep.name@) ==> (r matches Err(
                ZeptoError::Tool(m),
            ) && m@ == "Dependency '"@ + dep.name@ + "' not installed, cannot start"@),
            !self.procs().contains(dep.name@) && self.installed().contains_key(dep.name@) ==> (r matches Ok(
                StartPlan::Spawn { command, log_dir, log_path },
            ) && (command.program@, texts(command.args@)) == start_command_spec(
                dep.kind,
                self.installed()[dep.name@].path@,
                texts(dep.args@),
            ) && log_dir@ == path_join(self.dir(), "logs"@) && log_path@ == path_join(
                path_join(self.dir(), "logs"@),
                dep.name@ + ".log"@,
            )),
    {
        if self.is_running(dep.name.as_str()) {
            return Ok(StartPlan::AlreadyRunning);
        }
        let path = match self.registry.get(dep.name.as_str()) {
            Some(e) => e.path.clone(),
            None => {
                let mut m = String::from_str("Dependency '");
                m.append(dep.name.as_str());
                m.append("' not installed, cannot start");
                return Err(ZeptoError::Tool(m));
            },
        };
        let command = match build_start_command(&dep.kind, path.as_str(), dep.args.as_slice()) {
            Ok(c) => c,
            Err(e) => return Err(e),
        };
        let log_dir = join_path(self.deps_dir.as_str(), "logs");
        let mut file = dep.name.clone();
        file.append(".log");
        let log_path = join_path(log_dir.as_str(), file.as_str());
        Ok(StartPlan::Spawn { command, log_dir, log_path })
    }

    /// Records a started process: the registry marks the dependency running
    /// with its pid, and its name joins the running ones.
    pub fn record_started(&mut self, name: &str, pid: u32)
        requires
            old(self).wf(),
        ensures
            final(self).wf(),
            final(self).dir() == old(self).dir(),
            final(self).installed() == marked(old(self).installed(), name@, true, Some(pid)),
            final(self).procs() == old(self).procs().insert(name@),
    {
        self.registry.mark_running(name, pid);
        let ghost before = texts(self.running@);
        let found = self.running_index(name);
        if let Some(i) = found {
            assert(before[i as int] == name@);
            assert(before.to_set().contains(name@));
            assert(before.to_set().insert(name@) =~= before.to_set());
        } else {
            self.running.push(String::from_str(name));
            assert(texts(self.running@) =~= before.push(name@));
            assert forall|a: int, b: int| 0 <= a < b < texts(self.running@).len() implies texts(self.running@)[a]
                != texts(self.running@)[b] by {
                if b == before.len() {
                    assert(before[a] == texts(self.running@)[a]);
                    assert(before.contains(before[a]));
                    assert(before.to_set().contains(before[a]));
                }
            }
            assert(texts(self.running@).to_set() =~= before.to_set().insert(name@)) by {
                assert forall|x: Seq<char>| texts(self.running@).to_set().contains(x) <==> before.to_set().insert(
                    name@,
                ).contains(x) by {
                    if texts(self.running@).contains(x) {
                        let k = choose|k: int| 0 <= k < texts(self.running@).len() && texts(self.running@)[k] == x;
                        if k < before.len() {
                            assert(before[k] == x);
                        }
                    }
                    if before.contains(x) {
                        let k = choose|k: int| 0 <= k < before.len() && before[k] == x;
                        assert(texts(self.running@)[k] == x);
                    }
                    if x == name@ {
                        assert(texts(self.running@)[before.len() as int] == x);
                    }
                }
            }
        }
    }

    /// Stops a dependency: its name leaves the running ones and the registry
    /// marks it stopped. Gives whether its process ran (and is to be
    /// killed).
    pub fn stop_step(&mut self, name: &str) -> (was_running: bool)
        requires
            old(self).wf(),
        ensures
            final(self).wf(),
            final(self).dir() == old(self).dir(),
            was_running == old(self).procs().contains(name@),
            final(self).procs() == old(self).procs().remove(name@),
            final(self).installed() == marked(old(self).installed(), name@, false, None),
    {
        let ghost before = texts(self.running@);
        let was = match self.running_index(name) {
            Some(i) => {
                assert(before[i as int] == name@);
                self.running.remove(i);
                assert(texts(self.running@) =~= before.remove(i as int));
                assert forall|x: Seq<char>| texts(self.running@).to_set().contains(x) <==> before.to_set().remove(
                    name@,
                ).contains(x) by {
                    let r = texts(self.running@);
                    if r.contains(x) {
                        let k = choose|k: int| 0 <= k < r.len() && r[k] == x;
                        if k < i {
                            assert(before[k] == x);
                            assert(k != i);
                        } else {
                            assert(before[k + 1] == x);
                        }
                    }
                    if before.contains(x) && x != name@ {
                        let k = choose|k: int| 0 <= k < before.len() && before[k] == x;
                        assert(k != i);
                        if k < i {
                            assert(r[k] == x);
                        } else {
                            assert(r[k - 1] == x);
                        }
                    }
                }
                assert(texts(self.running@).to_set() =~= before.to_set().remove(name@));
                assert(before.to_set().contains(name@));
                true
            },
            None => {
                assert(before.to_set().remove(name@) =~= before.to_set());
                false
            },
        };
        self.registry.mark_stopped(name);
        was
    }

    /// The names of the running processes, each once (for stopping them all).
    pub fn running_names(&self) -> (r: Vec<String>)
        ensures
            texts(r@).to_set() == self.procs(),
            self.wf() ==> texts(r@).no_duplicates(),
    {
        let mut r: Vec<String> = Vec::new();
        let mut i: usize = 0;
        while i < self.running.len()
            invariant
                i <= self.running@.len(),
                texts(r@) == texts(self.running@).take(i as int),
            decreases self.running@.len() - i,
        {
            let ghost prev = texts(r@);
            r.push(String::from_str(self.running[i].as_str()));
            assert(texts(r@) =~= prev.push(self.running@[i as int]@));
            assert(texts(r@) =~= texts(self.running@).take(i + 1));
            i += 1;
        }
        assert(texts(self.running@).take(i as int) =~= texts(self.running@));
        r
    }
}

/// The error of a health check that timed out; none for a dependency
/// without a health check.
pub open spec fn health_timeout_text(check: HealthCheck) -> Option<Seq<char>> {
    match check {
        HealthCheck::NoCheck => None,
        HealthCheck::TcpPort { port } => Some(
            "Health check timed out: TCP port "@ + crate::text::decimal(port as nat) + " not reachable"@,
        ),
        HealthCheck::Http { url } => Some("Health check timed out: HTTP "@ + url@ + " not returning 2xx"@),
        HealthCheck::WebSocket { url } => Some(
            "Health check timed out: WebSocket "@ + url@ + " not accepting connections"@,
        ),
        HealthCheck::Command { command } => Some(
            "Health check timed out: command '"@ + command@ + "' not returning 0"@,
        ),
    }
}

/// The tool error for a health check that timed out (`None` when the
/// dependency has no health check, which is healthy at once).
pub fn health_timeout_error(check: &HealthCheck) -> (r: Option<ZeptoError>)
    ensures
        match health_timeout_text(*check) {
            Some(t) => r matches Some(ZeptoError::Tool(m)) && m@ == t,
            None => r is None,
        },
{
    let m = match check {
        HealthCheck::NoCheck => return None,
        HealthCheck::TcpPort { port } => {
            let mut m = String::from_str("Health check timed out: TCP port ");
            m.append(crate::text::decimal_text(*port as u64).as_str());
            m.append(" not reachable");
            m
        },
        HealthCheck::Http { url } => {
            let mut m = String::from_str("Health check timed out: HTTP ");
            m.append(url.as_str());
            m.append(" not returning 2xx");
            m
        },
        HealthCheck::WebSocket { url } => {
            let mut m = String::from_str("Health check timed out: WebSocket ");
            m.append(url.as_str());
            m.append(" not accepting connections");
            m
        },
        HealthCheck::Command { command } => {
            let mut m = String::from_str("Health check timed out: command '");
            m.append(command.as_str());
            m.append("' not returning 0");
            m
        },
    };
    Some(ZeptoError::Tool(m))
}

} // verus!
