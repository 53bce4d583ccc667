//! Device descriptors and the vendor policy that picks one of them.

use vstd::prelude::*;
use crate::text::{has_substring, lower_of, lowercase, text_contains};

verus! {

/// One enumerated serial device.
pub struct SerialPortInfo {
    /// The system's name for the port.
    pub port_name: String,
    /// `"USB"` for a USB device, `"Unknown"` for any other transport.
    pub port_type: String,
    pub manufacturer: Option<String>,
    pub product: Option<String>,
    pub serial_number: Option<String>,
}

/// The transport label of a USB device.
pub open spec fn usb_label() -> Seq<char> {
    seq!['U', 'S', 'B']
}

/// The transport label of any other device.
pub open spec fn unknown_label() -> Seq<char> {
    seq!['U', 'n', 'k', 'n', 'o', 'w', 'n']
}

/// A lower-cased manufacturer name names one of the known USB-serial bridge
/// or microcontroller vendors.
pub open spec fn vendor_listed(lowered: Seq<char>) -> bool {
    has_substring(lowered, "arduino"@) || has_substring(lowered, "ftdi"@) || has_substring(
        lowered,
        "silicon labs"@,
    ) || has_substring(lowered, "ch340"@) || has_substring(lowered, "wch.cn"@) || has_substring(
        lowered,
        "1a86"@,
    )
}

/// A device qualifies when it is on USB and its manufacturer, case-folded,
/// names a known vendor.
pub open spec fn compatible(d: SerialPortInfo) -> bool {
    d.port_type@ == usb_label() && match d.manufacturer {
        Some(m) => vendor_listed(lower_of(m@)),
        None => false,
    }
}

/// Whether an already lower-cased manufacturer name names a known vendor.
pub fn matches_known_vendor(lowered: &str) -> (r: bool)
    ensures
        r == vendor_listed(lowered@),
{
    text_contains(lowered, "arduino") || text_contains(lowered, "ftdi") || text_contains(
        lowered,
        "silicon labs",
    ) || text_contains(lowered, "ch340") || text_contains(lowered, "wch.cn") || text_contains(
        lowered,
        "1a86",
    )
}

/// Whether `s` is the USB transport label.
pub fn is_usb_label(s: &String) -> (r: bool)
    ensures
        r == (s@ == usb_label()),
{
    let usb = String::from_str("USB");
    proof {
        reveal_strlit("USB");
    }
    assert(usb@ =~= usb_label());
    *s == usb
}

impl SerialPortInfo {
    /// A USB device with its vendor metadata.
    pub fn usb(
        port_name: String,
        manufacturer: Option<String>,
        product: Option<String>,
        serial_number: Option<String>,
    ) -> (r: SerialPortInfo)
        ensures
            r.port_name@ == port_name@,
            r.port_type@ == usb_label(),
            r.manufacturer == manufacturer,
            r.product == product,
            r.serial_number == serial_number,
    {
        let port_type = String::from_str("USB");
        proof {
            reveal_strlit("USB");
        }
        assert(port_type@ =~= usb_label());
        SerialPortInfo { port_name, port_type, manufacturer, product, serial_number }
    }

    /// A device on another transport; it carries no vendor metadata.
    pub fn other(port_name: String) -> (r: SerialPortInfo)
        ensures
            r.port_name@ == port_name@,
            r.port_type@ == unknown_label(),
            r.manufacturer is None,
            r.product is None,
            r.serial_number is None,
    {
        let port_type = String::from_str("Unknown");
        proof {
            reveal_strlit("Unknown");
        }
        assert(port_type@ =~= unknown_label());
        SerialPortInfo { port_name, port_type, manufacturer: None, product: None, serial_number: None }
    }

    /// Whether this device qualifies for listening.
    pub fn is_compatible(&self) -> (r: bool)
        ensures
            r == compatible(*self),
    {
        if !is_usb_label(&self.port_type) {
            return false;
        }
        match &self.manufacturer {
            Some(m) => {
                let lowered = lowercase(m.as_str());
                matches_known_vendor(lowered.as_str())
            },
            None => false,
        }
    }
}

/// The first compatible device, by position in enumeration order; `None`
/// when no device qualifies (an empty list included).
pub fn select_device(ports: &Vec<SerialPortInfo>) -> (r: Option<usize>)
    ensures
        r is None <==> forall|i: int| 0 <= i < ports@.len() ==> !compatible(#[trigger] ports@[i]),
        r matches Some(k) ==> k < ports@.len() && compatible(ports@[k as int]) && forall|i: int|
            0 <= i < k ==> !compatible(#[trigger] ports@[i]),
{
    let mut i: usize = 0;
    while i < ports.len()
        invariant
            0 <= i <= ports@.len(),
            forall|j: int| 0 <= j < i ==> !compatible(#[trigger] ports@[j]),
        decreases ports@.len() - i,
    {
        if ports[i].is_compatible() {
            return Some(i);
        }
        i += 1;
    }
    None
}

} // verus!
