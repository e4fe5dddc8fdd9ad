//! Gateway decisions: degraded mode after crashes, the container backend
//! chosen on the command line, the tunnel, where heartbeat results are
//! delivered, and the texts shown at startup.

use vstd::prelude::*;
use crate::text::chars_of;
use crate::text::find_char;
use crate::text::string_of_range;
use crate::whatsapp::occurs;
use crate::whatsapp::first_index;
use crate::whatsapp::is_first_index;
use crate::whatsapp::lemma_first_index;
use crate::text::texts;
use crate::text::lowercase;
use crate::text::to_lowercase;
use crate::text::str_eq;
use crate::config::ContainerAgentBackend;

verus! {

/// A `channel:chat_id` target: the text before the first `:` and the text
/// after it, both non-empty.
pub open spec fn deliver_to_spec(s: Seq<char>) -> Option<(Seq<char>, Seq<char>)> {
    if occurs(s, ':') {
        let k = first_index(s, ':');
        if k > 0 && k + 1 < s.len() {
            Some((s.take(k), s.skip(k + 1)))
        } else {
            None
        }
    } else {
        None
    }
}

/// Parse a `deliver_to` string in `"channel:chat_id"` format.
/// Returns `None` if the string is missing a colon or either part is empty.
pub fn parse_deliver_to(s: &str) -> (r: Option<(String, String)>)
    ensures
        match deliver_to_spec(s@) {
            Some((c, id)) => r matches Some(p) && p.0@ == c && p.1@ == id,
            None => r is None,
        },
{
    let v = chars_of(s);
    let n = v.len();
    match find_char(&v, 0, n, ':') {
        Some(k) => {
            proof {
                lemma_first_index(s@, ':', k as int);
            }
            if k > 0 && k + 1 < n {
                assert(v@.subrange(0, k as int) =~= s@.take(k as int));
                assert(v@.subrange(k + 1, n as int) =~= s@.skip(k + 1));
                Some((string_of_range(&v, 0, k), string_of_range(&v, k + 1, n)))
            } else {
                None
            }
        },
        None => None,
    }
}

/// A target written as `channel:chat_id`, from a non-empty channel without
/// `:` and a non-empty chat id, reads back as that channel and chat id (the
/// chat id may hold `:`).
pub proof fn lemma_deliver_to_round_trip(channel: Seq<char>, chat_id: Seq<char>)
    requires
        channel.len() > 0,
        !occurs(channel, ':'),
        chat_id.len() > 0,
    ensures
        deliver_to_spec(channel + ":"@ + chat_id) == Some((channel, chat_id)),
{
    reveal_strlit(":");
    let s = channel + ":"@ + chat_id;
    let k = channel.len() as int;
    assert(s[k] == ':');
    assert forall|m: int| 0 <= m < k implies s[m] != ':' by {
        assert(s[m] == channel[m]);
    }
    assert(is_first_index(s, ':', k));
    lemma_first_index(s, ':', k);
    assert(s.take(k) =~= channel);
    assert(s.skip(k + 1) =~= chat_id);
}

/// The tools denied in degraded mode (after consecutive crashes): shell and
/// filesystem writes.
pub open spec fn degraded_deny_spec() -> Seq<Seq<char>> {
    seq!["shell"@, "write_file"@, "edit_file"@]
}

/// The deny list for the tools: the degraded-mode list when the startup
/// guard detected consecutive crashes, else the configured one unchanged.
pub fn startup_deny_list(degraded: bool, configured: Vec<String>) -> (r: Vec<String>)
    ensures
        texts(r@) == (if degraded {
            degraded_deny_spec()
        } else {
            texts(configured@)
        }),
{
    if !degraded {
        return configured;
    }
    let r = vec![String::from_str("shell"), String::from_str("write_file"), String::from_str("edit_file")];
    assert(texts(r@) =~= degraded_deny_spec());
    r
}

/// The backend named on the command line (already in lower case): `docker`,
/// `apple` (on macOS), or `auto`; any other name is refused with the
/// backends that can be used here.
pub open spec fn backend_for_name_spec(lower: Seq<char>, on_macos: bool) -> Result<ContainerAgentBackend, Seq<char>> {
    if lower == "docker"@ {
        Ok(ContainerAgentBackend::Docker)
    } else if on_macos && lower == "apple"@ {
        Ok(ContainerAgentBackend::Apple)
    } else if lower == "auto"@ {
        Ok(ContainerAgentBackend::Auto)
    } else if on_macos {
        Err("Unknown backend '"@ + lower + "'. Use: docker or apple"@)
    } else {
        Err("Unknown backend '"@ + lower + "'. Use: docker"@)
    }
}

/// The backend for a lower-case backend name.
pub fn backend_for_name(lower: &str, on_macos: bool) -> (r: Result<ContainerAgentBackend, String>)
    ensures
        match r {
            Ok(b) => backend_for_name_spec(lower@, on_macos) == Ok::<ContainerAgentBackend, Seq<char>>(b),
            Err(e) => backend_for_name_spec(lower@, on_macos) == Err::<ContainerAgentBackend, Seq<char>>(e@),
        },
{
    if str_eq(lower, "docker") {
        Ok(ContainerAgentBackend::Docker)
    } else if on_macos && str_eq(lower, "apple") {
        Ok(ContainerAgentBackend::Apple)
    } else if str_eq(lower, "auto") {
        Ok(ContainerAgentBackend::Auto)
    } else {
        let mut e = String::from_str("Unknown backend '");
        e.append(lower);
        if on_macos {
            e.append("'. Use: docker or apple");
        } else {
            e.append("'. Use: docker");
        }
        Err(e)
    }
}

/// The container backend once `--containerized [backend]` is applied: no
/// flag or `auto` keeps the configured backend; any other flag is read in
/// lower case.
pub open spec fn containerized_backend_spec(
    flag: Option<Seq<char>>,
    configured: ContainerAgentBackend,
    on_macos: bool,
) -> Result<ContainerAgentBackend, Seq<char>> {
    match flag {
        None => Ok(configured),
        Some(b) => if b == "auto"@ {
            Ok(configured)
        } else {
            backend_for_name_spec(crate::text::lower_text(b), on_macos)
        },
    }
}

/// Applies the `--containerized` flag to the configured backend.
pub fn containerized_backend(
    flag: Option<&str>,
    configured: ContainerAgentBackend,
    on_macos: bool,
) -> (r: Result<ContainerAgentBackend, String>)
    ensures
        match r {
            Ok(b) => containerized_backend_spec(
                match flag {
                    Some(f) => Some(f@),
                    None => None,
                },
                configured,
                on_macos,
            ) == Ok::<ContainerAgentBackend, Seq<char>>(b),
            Err(e) => containerized_backend_spec(
                match flag {
                    Some(f) => Some(f@),
                    None => None,
                },
                configured,
                on_macos,
            ) == Err::<ContainerAgentBackend, Seq<char>>(e@),
        },
{
    match flag {
        None => Ok(configured),
        Some(b) => {
            if str_eq(b, "auto") {
                Ok(configured)
            } else {
                let lower = to_lowercase(b);
                backend_for_name(lower.as_str(), on_macos)
            }
        },
    }
}

/// The tunnel to start: the one named on the command line, else the
/// configured one.
pub fn tunnel_provider(flag: Option<String>, configured: &Option<String>) -> (r: Option<String>)
    ensures
        match flag {
            Some(f) => r == Some(f),
            None => match *configured {
                Some(c) => r matches Some(x) && x@ == c@,
                None => r is None,
            },
        },
{
    match flag {
        Some(f) => Some(f),
        None => match configured {
            Some(c) => Some(c.clone()),
            None => None,
        },
    }
}

/// Where heartbeat results go: the configured `channel:chat_id` target,
/// else the `heartbeat`/`system` pseudo-channel. The flag asks for a warning
/// about a configured target that does not parse.
pub open spec fn heartbeat_target_spec(deliver_to: Option<Seq<char>>) -> (Seq<char>, Seq<char>, bool) {
    match deliver_to {
        None => ("heartbeat"@, "system"@, false),
        Some(s) => match deliver_to_spec(s) {
            Some((c, id)) => (c, id, false),
            None => ("heartbeat"@, "system"@, true),
        },
    }
}

/// The channel and chat id that heartbeat results are delivered to.
pub fn heartbeat_target(deliver_to: Option<&str>) -> (r: (String, String, bool))
    ensures
        (r.0@, r.1@, r.2) == heartbeat_target_spec(
            match deliver_to {
                Some(s) => Some(s@),
                None => None,
            },
        ),
{
    match deliver_to {
        None => (String::from_str("heartbeat"), String::from_str("system"), false),
        Some(s) => match parse_deliver_to(s) {
            Some((c, id)) => (c, id, false),
            None => (String::from_str("heartbeat"), String::from_str("system"), true),
        },
    }
}

/// Whether the WhatsApp bridge is installed and started with the gateway:
/// the channel is configured, enabled, and its bridge is managed here.
pub fn whatsapp_bridge_managed(wa: &Option<crate::config::WhatsAppConfig>) -> (b: bool)
    ensures
        b == (*wa matches Some(c) && c.enabled && c.bridge_managed),
{
    match wa {
        Some(c) => c.enabled && c.bridge_managed,
        None => false,
    }
}

/// The banner printed once the gateway runs.
pub open spec fn running_banner_spec(degraded: bool, containerized: bool) -> Seq<char> {
    (if degraded {
        "  WARNING: DEGRADED MODE \u{2014} dangerous tools disabled after consecutive crashes\n  Fix the underlying issue and restart to clear.\n\n"@
    } else {
        ""@
    }) + (if containerized {
        "Gateway is running (containerized mode). Press Ctrl+C to stop."@
    } else {
        "Gateway is running. Press Ctrl+C to stop."@
    })
}

/// The banner printed once the gateway runs; `degraded` when tools are
/// denied.
pub fn running_banner(degraded: bool, containerized: bool) -> (r: String)
    ensures
        r@ == running_banner_spec(degraded, containerized),
{
    let mut r = String::new();
    if degraded {
        r.append(
            "  WARNING: DEGRADED MODE \u{2014} dangerous tools disabled after consecutive crashes\n  Fix the underlying issue and restart to clear.\n\n",
        );
    }
    let ghost head = r@;
    if containerized {
        r.append("Gateway is running (containerized mode). Press Ctrl+C to stop.");
    } else {
        r.append("Gateway is running. Press Ctrl+C to stop.");
    }
    proof {
        reveal_strlit("");
        assert(!degraded ==> head =~= ""@);
    }
    r
}

/// The error when Docker cannot be run.
pub fn docker_unavailable_text(docker_binary: &str) -> (r: String)
    ensures
        r@ == "Docker is not available via '"@ + docker_binary@
            + "'. Install Docker or run without --containerized."@,
{
    let mut r = String::from_str("Docker is not available via '");
    r.append(docker_binary);
    r.append("'. Install Docker or run without --containerized.");
    r
}

/// The warning lines and the error when the agent image is missing.
pub fn docker_image_missing(image: &str, docker_binary: &str) -> (r: (String, String))
    ensures
        r.0@ == "Warning: Docker image '"@ + image@ + "' not found (checked via '"@ + docker_binary@
            + "').\nBuild it with: "@ + docker_binary@ + " build -t "@ + image@ + " ."@,
        r.1@ == "Docker image '"@ + image@ + "' not found (checked via '"@ + docker_binary@ + "')"@,
{
    let mut w = String::from_str("Warning: Docker image '");
    w.append(image);
    w.append("' not found (checked via '");
    w.append(docker_binary);
    w.append("').\nBuild it with: ");
    w.append(docker_binary);
    w.append(" build -t ");
    w.append(image);
    w.append(" .");
    let mut e = String::from_str("Docker image '");
    e.append(image);
    e.append("' not found (checked via '");
    e.append(docker_binary);
    e.append("')");
    (w, e)
}

} // verus!
