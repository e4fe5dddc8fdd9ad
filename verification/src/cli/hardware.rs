//! Hardware command texts: the device table and the device details, and
//! the version banner.

use vstd::prelude::*;
use crate::cli::slash::pad_right;
use crate::cli::watch::hex_digit;
use crate::text::chars_of;
use crate::text::decimal;
use crate::text::decimal_text;
use crate::text::push_char;

verus! {

/// A USB device found on the machine.
pub struct DeviceView {
    pub vid: u16,
    pub pid: u16,
    pub name: String,
    pub architecture: Option<String>,
    pub detail: Option<String>,
    /// The serial port path, when known.
    pub device_path: Option<String>,
}

/// `v` as four lower-case hexadecimal digits (`{:04x}`).
pub open spec fn hex4(v: u16) -> Seq<char> {
    seq![
        hex_digit((v / 4096) as nat),
        hex_digit(((v / 256) % 16) as nat),
        hex_digit(((v / 16) % 16) as nat),
        hex_digit((v % 16) as nat),
    ]
}

fn hex_char(d: u16) -> (c: char)
    requires
        d < 16,
    ensures
        c == hex_digit(d as nat),
{
    let b = d as u8;
    if b < 10 {
        (48u8 + b) as char
    } else {
        (87u8 + b) as char
    }
}

fn append_hex4(out: &mut String, v: u16)
    ensures
        final(out)@ == old(out)@ + hex4(v),
{
    let ghost start = out@;
    push_char(out, hex_char(v / 4096));
    push_char(out, hex_char((v / 256) % 16));
    push_char(out, hex_char((v / 16) % 16));
    push_char(out, hex_char(v % 16));
    assert(out@ =~= start + hex4(v));
}

fn append_padded(out: &mut String, s: &str, w: usize)
    ensures
        final(out)@ == old(out)@ + pad_right(s@, w as nat),
{
    let v = chars_of(s);
    let vl = v.len();
    let ghost start = out@;
    out.append(s);
    let mut n = vl;
    while n < w
        invariant
            vl == s@.len(),
            vl <= n,
            n <= w || n == vl,
            out@ == start + s@ + Seq::new((n - vl) as nat, |i: int| ' '),
        decreases w - n,
    {
        push_char(out, ' ');
        assert(out@ =~= start + s@ + Seq::new((n + 1 - vl) as nat, |i: int| ' '));
        n += 1;
    }
    if vl >= w {
        assert(out@ =~= start + s@);
    }
}

/// An optional text, or `--`.
pub open spec fn or_dashes(o: Option<String>) -> Seq<char> {
    match o {
        Some(s) => s@,
        None => "--"@,
    }
}

/// The table line of a device.
pub open spec fn device_line_spec(d: DeviceView) -> Seq<char> {
    "  "@ + hex4(d.vid) + ":"@ + hex4(d.pid) + "  "@ + pad_right(d.name@, 20) + " "@ + pad_right(
        or_dashes(d.architecture),
        20,
    ) + " "@ + or_dashes(d.detail)
}

/// The table line of a device: ids, name, architecture, detail.
pub fn device_line(d: &DeviceView) -> (r: String)
    ensures
        r@ == device_line_spec(*d),
{
    let mut r = String::from_str("  ");
    append_hex4(&mut r, d.vid);
    r.append(":");
    append_hex4(&mut r, d.pid);
    r.append("  ");
    append_padded(&mut r, d.name.as_str(), 20);
    r.append(" ");
    match &d.architecture {
        Some(a) => append_padded(&mut r, a.as_str(), 20),
        None => append_padded(&mut r, "--", 20),
    }
    r.append(" ");
    match &d.detail {
        Some(x) => r.append(x.as_str()),
        None => r.append("--"),
    }
    r
}

/// The count line under the table.
pub fn devices_found_text(n: usize) -> (r: String)
    ensures
        r@ == decimal(n as nat) + " device(s) found."@,
{
    let mut r = decimal_text(n as u64);
    r.append(" device(s) found.");
    r
}

/// A labelled detail line, when the detail is known.
pub open spec fn detail_line(label: Seq<char>, o: Option<String>) -> Seq<char> {
    match o {
        Some(s) => "\n  "@ + label + s@,
        None => Seq::empty(),
    }
}

/// The `hardware info` text of a device.
pub open spec fn device_info_spec(d: DeviceView) -> Seq<char> {
    "Device: "@ + d.name@ + "\n  VID:PID       "@ + hex4(d.vid) + ":"@ + hex4(d.pid) + detail_line(
        "Architecture  "@,
        d.architecture,
    ) + detail_line("Description   "@, d.detail) + detail_line("Serial path   "@, d.device_path)
}

fn append_detail(out: &mut String, label: &str, o: &Option<String>)
    ensures
        final(out)@ == old(out)@ + detail_line(label@, *o),
{
    match o {
        Some(s) => {
            out.append("\n  ");
            out.append(label);
            out.append(s.as_str());
        },
        None => {
            assert(out@ =~= out@ + Seq::<char>::empty());
        },
    }
}

/// The `hardware info` text of a device.
pub fn device_info_text(d: &DeviceView) -> (r: String)
    ensures
        r@ == device_info_spec(*d),
{
    let mut r = String::from_str("Device: ");
    r.append(d.name.as_str());
    r.append("\n  VID:PID       ");
    append_hex4(&mut r, d.vid);
    r.append(":");
    append_hex4(&mut r, d.pid);
    append_detail(&mut r, "Architecture  ", &d.architecture);
    append_detail(&mut r, "Description   ", &d.detail);
    append_detail(&mut r, "Serial path   ", &d.device_path);
    r
}

/// The text for a device that was not found.
pub fn device_not_found_text(device: &str) -> (r: String)
    ensures
        r@ == "Device '"@ + device@
            + "' not found.\n\nTry: zeptoclaw hardware list\nOr use a VID:PID format (e.g., 0483:374b)"@,
{
    let mut r = String::from_str("Device '");
    r.append(device);
    r.append("' not found.\n\nTry: zeptoclaw hardware list\nOr use a VID:PID format (e.g., 0483:374b)");
    r
}

/// The `version` text for a version number.
pub fn version_text(version: &str) -> (r: String)
    ensures
        r@ == "zeptoclaw "@ + version@
            + "\n\nUltra-lightweight personal AI assistant\nhttps://github.com/qhkm/zeptoclaw"@,
{
    let mut r = String::from_str("zeptoclaw ");
    r.append(version);
    r.append("\n\nUltra-lightweight personal AI assistant\nhttps://github.com/qhkm/zeptoclaw");
    r
}

} // verus!
