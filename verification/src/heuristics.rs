//! The confidence that each kind of evidence is worth, the notes that record
//! it, and the brand keywords that speak for a receipt printer.
use crate::model::{Candidate, CandidateView};
use crate::text::{chars_of, contains, has_infix, lowercase, lowercase_of};
use vstd::prelude::*;
use vstd::string::*;

verus! {

/// A device node in the printer-class namespace.
pub const USB_CLASS_NODE_CONFIDENCE: u8 = 80;

/// A device node in a serial namespace.
pub const SERIAL_NODE_CONFIDENCE: u8 = 40;

/// A serial port that the port list reports.
pub const SERIAL_PORT_CONFIDENCE: u8 = 35;

/// A device on the bus with an interface of the printer class.
pub const PRINTER_INTERFACE_CONFIDENCE: u8 = 80;

/// A device on the bus whose string descriptors give a name.
pub const NAMED_DEVICE_FLOOR: u8 = 85;

/// A declared interface list with the printer class in it.
pub const PRINTER_CLASS_FLOOR: u8 = 90;

/// A display name with a brand keyword in it.
pub const KEYWORD_FLOOR: u8 = 70;

/// A serial device behind USB with a display name.
pub const NAMED_SERIAL_FLOOR: u8 = 60;

/// The note of a device node in the printer-class namespace.
pub open spec fn usb_class_node_note() -> Seq<char> {
    "found in USB printer-class device namespace."@
}

/// The note of a device on the bus with an interface of the printer class.
pub open spec fn printer_interface_note() -> Seq<char> {
    "exposes USB printer-class interface."@
}

/// The note of a device on the bus whose string descriptors give a name.
pub open spec fn named_device_note() -> Seq<char> {
    "libusb: string descriptors give a display name"@
}

/// The note of a declared interface list with the printer class in it.
pub open spec fn printer_class_note() -> Seq<char> {
    "udev: ID_USB_INTERFACES indicates USB printer class (07)"@
}

/// The note of a serial node with a property record and a display name.
pub open spec fn named_serial_node_note() -> Seq<char> {
    "udev: USB-backed serial device with a display name"@
}

/// The note of a serial port behind USB with a display name.
pub open spec fn named_serial_port_note() -> Seq<char> {
    "serialport: USB-backed serial device"@
}

/// The note of a serial node, which names the pattern that it matched.
pub open spec fn serial_node_note(pattern: Seq<char>) -> Seq<char> {
    "Found serial device node ("@ + pattern + ")"@
}

/// The note of a serial port, which names the port.
pub open spec fn serial_port_note(port: Seq<char>) -> Seq<char> {
    "serialport: "@ + port
}

/// The note of a brand keyword in the display name.
pub open spec fn keyword_note(keyword: Seq<char>) -> Seq<char> {
    "make/model contains keyword '"@ + keyword + "'"@
}

/// The brand keywords, in the order in which they are tried.
pub open spec fn keywords() -> Seq<Seq<char>> {
    seq![
        "epson"@,
        "star"@,
        "bixolon"@,
        "citizen"@,
        "sewoo"@,
        "zjiang"@,
        "xprinter"@,
        "pos"@,
        "receipt"@,
        "thermal"@,
    ]
}

/// The first keyword, from position `from` on, that occurs in `lowered`.
pub open spec fn first_keyword_from(lowered: Seq<char>, from: int) -> Option<int>
    decreases keywords().len() - from,
{
    if from < 0 || from >= keywords().len() {
        None
    } else if has_infix(lowered, keywords()[from]) {
        Some(from)
    } else {
        first_keyword_from(lowered, from + 1)
    }
}

/// The first keyword that occurs in a text that is already in lowercase.
pub open spec fn first_keyword(lowered: Seq<char>) -> Option<int> {
    first_keyword_from(lowered, 0)
}

/// The first keyword that occurs in a display name, whatever the case of its
/// letters.
pub open spec fn brand_keyword(name: Seq<char>) -> Option<int> {
    first_keyword(lowercase_of(name))
}

/// The candidate with the keyword floor, where its display name holds a
/// brand keyword.
pub open spec fn with_keyword_floor(c: CandidateView) -> CandidateView {
    match c.make_model {
        Some(name) => match brand_keyword(name) {
            Some(k) => c.raised(KEYWORD_FLOOR, keyword_note(keywords()[k])),
            None => c,
        },
        None => c,
    }
}

/// The candidate with the floor of a named serial device, where it is a
/// serial device with a display name.
pub open spec fn with_named_serial_floor(c: CandidateView, note: Seq<char>) -> CandidateView {
    if c.transport is Serial && c.make_model is Some {
        c.raised(NAMED_SERIAL_FLOOR, note)
    } else {
        c
    }
}

/// The brand keyword at position `k`.
pub fn keyword(k: usize) -> (r: &'static str)
    requires
        k < keywords().len(),
    ensures
        r@ == keywords()[k as int],
{
    if k == 0 {
        "epson"
    } else if k == 1 {
        "star"
    } else if k == 2 {
        "bixolon"
    } else if k == 3 {
        "citizen"
    } else if k == 4 {
        "sewoo"
    } else if k == 5 {
        "zjiang"
    } else if k == 6 {
        "xprinter"
    } else if k == 7 {
        "pos"
    } else if k == 8 {
        "receipt"
    } else {
        "thermal"
    }
}

/// The number of brand keywords.
pub fn keyword_count() -> (r: usize)
    ensures
        r == keywords().len(),
{
    10
}

/// The position of the first keyword that occurs in a text that is already
/// in lowercase.
pub fn keyword_in(lowered: &str) -> (r: Option<usize>)
    ensures
        match r {
            Some(k) => k < keywords().len() && first_keyword(lowered@) == Some(k as int),
            None => first_keyword(lowered@) is None,
        },
{
    let hay = chars_of(lowered);
    let n = keyword_count();
    let mut k: usize = 0;
    while k < n
        invariant
            n == keywords().len(),
            k <= n,
            hay@ == lowered@,
            first_keyword(lowered@) == first_keyword_from(lowered@, k as int),
        decreases n - k,
    {
        let needle = chars_of(keyword(k));
        if contains(&hay, &needle) {
            return Some(k);
        }
        k += 1;
    }
    None
}

/// The position of the first keyword that occurs in a display name, whatever
/// the case of its letters.
pub fn find_brand_keyword(name: &str) -> (r: Option<usize>)
    ensures
        match r {
            Some(k) => k < keywords().len() && brand_keyword(name@) == Some(k as int),
            None => brand_keyword(name@) is None,
        },
{
    let lowered = lowercase(name);
    keyword_in(lowered.as_str())
}

/// Raises the candidate to the keyword floor, where its display name holds a
/// brand keyword, and notes the keyword.
pub fn apply_keyword_floor(c: &mut Candidate)
    ensures
        final(c)@ == with_keyword_floor(old(c)@),
{
    let found = match c.make_model() {
        Some(name) => find_brand_keyword(name.as_str()),
        None => None,
    };
    if let Some(k) = found {
        let mut note = String::from_str("make/model contains keyword '");
        note.append(keyword(k));
        note.append("'");
        c.raise_confidence(KEYWORD_FLOOR, note);
    }
}

/// Raises a serial device with a display name to the floor of a named serial
/// device, and appends the note.
pub fn apply_named_serial_floor(c: &mut Candidate, note: String)
    ensures
        final(c)@ == with_named_serial_floor(old(c)@, note@),
{
    let serial = match c.transport() {
        crate::model::Transport::Serial { .. } => true,
        _ => false,
    };
    if serial && c.make_model().is_some() {
        c.raise_confidence(NAMED_SERIAL_FLOOR, note);
    }
}

} // verus!
