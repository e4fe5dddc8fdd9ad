//! Device events: the hardware events the agent is told about, their
//! message text, and the reading of USB hotplug lines from `udevadm`.

use vstd::prelude::*;
use crate::text::chars_of;
use crate::text::contains;
use crate::text::find_seq;
use crate::text::lowercase;
use crate::text::to_lowercase;

verus! {

/// A hardware event from any source.
#[derive(Debug, Clone)]
pub struct DeviceEvent {
    pub action: DeviceAction,
    pub kind: DeviceKind,
    pub vendor: String,
    pub product: String,
    pub serial: Option<String>,
    pub capabilities: Option<String>,
}

#[derive(Debug, Clone, Copy, PartialEq, Eq, Structural)]
pub enum DeviceAction {
    Connected,
    Disconnected,
}

#[derive(Debug, Clone, Copy, PartialEq, Eq, Structural)]
pub enum DeviceKind {
    Usb,
    Generic,
}

/// The word for an action in the event message.
pub open spec fn action_word(a: DeviceAction) -> Seq<char> {
    match a {
        DeviceAction::Connected => "Connected"@,
        DeviceAction::Disconnected => "Disconnected"@,
    }
}

/// The message text of an event: a heading with the action, the device's
/// vendor and product, then its capabilities and its serial when known.
pub open spec fn event_message(e: DeviceEvent) -> Seq<char> {
    "\u{1F50C} Device "@ + action_word(e.action) + "\n\nDevice: "@ + e.vendor@ + " "@ + e.product@
        + "\n"@ + match e.capabilities {
        Some(c) => "Capabilities: "@ + c@ + "\n"@,
        None => Seq::empty(),
    } + match e.serial {
        Some(s) => "Serial: "@ + s@ + "\n"@,
        None => Seq::empty(),
    }
}

impl DeviceEvent {
    pub fn format_message(&self) -> (r: String)
        ensures
            r@ == event_message(*self),
    {
        let mut msg = String::from_str("\u{1F50C} Device ");
        match self.action {
            DeviceAction::Connected => msg.append("Connected"),
            DeviceAction::Disconnected => msg.append("Disconnected"),
        }
        msg.append("\n\nDevice: ");
        msg.append(self.vendor.as_str());
        msg.append(" ");
        msg.append(self.product.as_str());
        msg.append("\n");
        let ghost head = msg@;
        match &self.capabilities {
            Some(c) => {
                msg.append("Capabilities: ");
                msg.append(c.as_str());
                msg.append("\n");
            },
            None => {},
        }
        let ghost mid = msg@;
        match &self.serial {
            Some(s) => {
                msg.append("Serial: ");
                msg.append(s.as_str());
                msg.append("\n");
            },
            None => {},
        }
        proof {
            let caps = match &self.capabilities {
                Some(c) => "Capabilities: "@ + c@ + "\n"@,
                None => Seq::<char>::empty(),
            };
            let ser = match &self.serial {
                Some(s) => "Serial: "@ + s@ + "\n"@,
                None => Seq::<char>::empty(),
            };
            assert(mid =~= head + caps);
            assert(msg@ =~= head + caps + ser);
        }
        msg
    }
}

/// Manages device event sources.
pub struct DeviceService {
    pub enabled: bool,
    pub monitor_usb: bool,
}

impl DeviceService {
    pub fn new(enabled: bool, monitor_usb: bool) -> (r: Self)
        ensures
            r.enabled == enabled,
            r.monitor_usb == monitor_usb,
    {
        DeviceService { enabled, monitor_usb }
    }
}

/// The action a `udevadm monitor` line reports: `add` for a connection,
/// `remove` for a disconnection, as a word between spaces in the lowercased
/// line; `add` is looked for first.
pub open spec fn udev_action(line: Seq<char>) -> Option<DeviceAction> {
    let lower = crate::text::lower_text(line);
    if contains(lower, " add "@) {
        Some(DeviceAction::Connected)
    } else if contains(lower, " remove "@) {
        Some(DeviceAction::Disconnected)
    } else {
        None
    }
}

/// Reads a `udevadm monitor` line ("UDEV  [timestamp] add/remove   /devices/... (usb)")
/// into a USB device event.
pub fn parse_udevadm_line(line: &str) -> (r: Option<DeviceEvent>)
    ensures
        match udev_action(line@) {
            Some(a) => r matches Some(e) && e.action == a && e.kind == DeviceKind::Usb
                && e.vendor@ == "USB Device"@ && e.product@ == "Unknown"@ && e.serial is None
                && e.capabilities is None,
            None => r is None,
        },
{
    let lower = to_lowercase(line);
    let v = chars_of(lower.as_str());
    let add = chars_of(" add ");
    let remove = chars_of(" remove ");
    let action = if find_seq(&v, &add).is_some() {
        DeviceAction::Connected
    } else if find_seq(&v, &remove).is_some() {
        DeviceAction::Disconnected
    } else {
        return None;
    };
    Some(
        DeviceEvent {
            action,
            kind: DeviceKind::Usb,
            vendor: String::from_str("USB Device"),
            product: String::from_str("Unknown"),
            serial: None,
            capabilities: None,
        },
    )
}

} // verus!
