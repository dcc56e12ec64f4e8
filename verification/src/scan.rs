//! The scanners: from what a platform lists, the raw candidates.
//!
//! Each scanner takes what was enumerated as plain values and gives one
//! candidate for each endpoint that it accepts, in the order of the listing.
//! A device whose strings could not be read still gives its candidate.
use crate::heuristics::{
    apply_keyword_floor, named_device_note, named_serial_port_note, printer_interface_note,
    serial_node_note, serial_port_note, usb_class_node_note, with_keyword_floor, NAMED_DEVICE_FLOOR,
    NAMED_SERIAL_FLOOR, PRINTER_INTERFACE_CONFIDENCE, SERIAL_NODE_CONFIDENCE,
    SERIAL_PORT_CONFIDENCE, USB_CLASS_NODE_CONFIDENCE,
};
use crate::model::{all_bounded, copy_text, Candidate, CandidateView, Transport, TransportView};
use crate::text::{format_hex4, hex4, join_names, joined_name};
use vstd::prelude::*;
use vstd::string::*;

verus! {

/// The class code of a printer interface.
pub const PRINTER_CLASS: u8 = 0x07;

/// The time, in milliseconds, that the read of one string descriptor may
/// take.
pub const DESCRIPTOR_READ_TIMEOUT_MS: u64 = 100;

/// The pattern of the device nodes of the printer class.
pub open spec fn usb_lp_pattern_text() -> Seq<char> {
    "/dev/usb/lp*"@
}

/// The pattern of the device nodes of USB serial adapters.
pub open spec fn tty_usb_pattern_text() -> Seq<char> {
    "/dev/ttyUSB*"@
}

/// The pattern of the device nodes of ACM modems.
pub open spec fn tty_acm_pattern_text() -> Seq<char> {
    "/dev/ttyACM*"@
}

/// The pattern of the device nodes of the printer class.
pub fn usb_lp_pattern() -> (r: &'static str)
    ensures
        r@ == usb_lp_pattern_text(),
{
    "/dev/usb/lp*"
}

/// The pattern of the device nodes of USB serial adapters.
pub fn tty_usb_pattern() -> (r: &'static str)
    ensures
        r@ == tty_usb_pattern_text(),
{
    "/dev/ttyUSB*"
}

/// The pattern of the device nodes of ACM modems.
pub fn tty_acm_pattern() -> (r: &'static str)
    ensures
        r@ == tty_acm_pattern_text(),
{
    "/dev/ttyACM*"
}

/// One entry of a listing of device nodes: the path of a node, or what the
/// platform layer said of an entry that it could not read.
#[derive(Debug, Clone)]
pub enum NodeEntry {
    Found(String),
    Unreadable(String),
}

/// The mathematical value of a [`NodeEntry`].
pub enum NodeEntryView {
    Found(Seq<char>),
    Unreadable(Seq<char>),
}

impl View for NodeEntry {
    type V = NodeEntryView;

    open spec fn view(&self) -> NodeEntryView {
        match self {
            NodeEntry::Found(path) => NodeEntryView::Found(path@),
            NodeEntry::Unreadable(reason) => NodeEntryView::Unreadable(reason@),
        }
    }
}

impl DeepView for NodeEntry {
    type V = NodeEntryView;

    open spec fn deep_view(&self) -> NodeEntryView {
        self@
    }
}

/// The paths of the entries that could be read, in the order of the
/// listing.
pub open spec fn found_paths(entries: Seq<NodeEntryView>) -> Seq<Seq<char>>
    decreases entries.len(),
{
    if entries.len() == 0 {
        Seq::empty()
    } else {
        match entries.last() {
            NodeEntryView::Found(path) => found_paths(entries.drop_last()).push(path),
            NodeEntryView::Unreadable(_) => found_paths(entries.drop_last()),
        }
    }
}

/// The paths of the entries that could be read, in the order of the
/// listing. An entry that could not be read is passed over.
pub fn readable_paths(entries: Vec<NodeEntry>) -> (r: Vec<String>)
    ensures
        r.deep_view() == found_paths(entries.deep_view()),
{
    let mut out: Vec<String> = Vec::new();
    let ghost all = entries.deep_view();
    assert(all.take(0) =~= Seq::<NodeEntryView>::empty());
    assert(out.deep_view() =~= found_paths(all.take(0)));
    for entry in it: entries
        invariant
            it.seq().len() == all.len(),
            forall|k: int| 0 <= k < all.len() ==> (#[trigger] it.seq()[k])@ == all[k],
            out.deep_view() == found_paths(all.take(it.index() as int)),
    {
        proof {
            let next = all.take(it.index() + 1);
            assert(next.drop_last() =~= all.take(it.index() as int));
            assert(next.last() == entry@);
        }
        let ghost before = out.deep_view();
        match entry {
            NodeEntry::Found(path) => {
                out.push(path);
                assert(out.deep_view() =~= before.push(path@));
            },
            NodeEntry::Unreadable(_) => {},
        }
    }
    assert(all.take(all.len() as int) =~= all);
    out
}

/// The candidate of a device node of the printer class.
pub open spec fn usb_lp_candidate(path: Seq<char>) -> CandidateView {
    CandidateView::fresh(
        TransportView::UsbLp { path },
        USB_CLASS_NODE_CONFIDENCE,
        usb_class_node_note(),
    )
}

/// The candidates of the device nodes of the printer class.
pub open spec fn usb_lp_candidates(paths: Seq<Seq<char>>) -> Seq<CandidateView> {
    Seq::new(paths.len(), |i: int| usb_lp_candidate(paths[i]))
}

/// The candidate of a serial device node that matched `pattern`.
pub open spec fn serial_node_candidate(pattern: Seq<char>, path: Seq<char>) -> CandidateView {
    CandidateView::fresh(
        TransportView::Serial { path },
        SERIAL_NODE_CONFIDENCE,
        serial_node_note(pattern),
    )
}

/// The candidates of the serial device nodes that matched `pattern`.
pub open spec fn serial_node_candidates(
    pattern: Seq<char>,
    paths: Seq<Seq<char>>,
) -> Seq<CandidateView> {
    Seq::new(paths.len(), |i: int| serial_node_candidate(pattern, paths[i]))
}

/// Scans the device nodes of the printer class: each node that could be
/// read is a candidate.
pub fn scan_usb_lp_nodes(entries: Vec<NodeEntry>) -> (r: Vec<Candidate>)
    ensures
        r.deep_view() == usb_lp_candidates(found_paths(entries.deep_view())),
{
    let paths = readable_paths(entries);
    let mut out: Vec<Candidate> = Vec::new();
    let ghost all = paths.deep_view();
    for path in it: paths
        invariant
            it.seq().len() == all.len(),
            forall|k: int| 0 <= k < all.len() ==> (#[trigger] it.seq()[k])@ == all[k],
            out.len() == it.index(),
            forall|k: int| 0 <= k < out.len() ==> (#[trigger] out@[k])@ == usb_lp_candidate(all[k]),
    {
        out.push(
            Candidate::new(
                Transport::UsbLp { path },
                USB_CLASS_NODE_CONFIDENCE,
                String::from_str("found in USB printer-class device namespace."),
            ),
        );
    }
    assert(out.deep_view() =~= usb_lp_candidates(all));
    out
}

/// The candidates of the serial device nodes that matched `pattern`.
fn serial_nodes_of(pattern: &str, entries: Vec<NodeEntry>) -> (r: Vec<Candidate>)
    ensures
        r.deep_view() == serial_node_candidates(pattern@, found_paths(entries.deep_view())),
{
    let paths = readable_paths(entries);
    let mut out: Vec<Candidate> = Vec::new();
    let ghost all = paths.deep_view();
    for path in it: paths
        invariant
            it.seq().len() == all.len(),
            forall|k: int| 0 <= k < all.len() ==> (#[trigger] it.seq()[k])@ == all[k],
            out.len() == it.index(),
            forall|k: int|
                0 <= k < out.len() ==> (#[trigger] out@[k])@ == serial_node_candidate(pattern@, all[k]),
    {
        let mut note = String::from_str("Found serial device node (");
        note.append(pattern);
        note.append(")");
        out.push(Candidate::new(Transport::Serial { path }, SERIAL_NODE_CONFIDENCE, note));
    }
    assert(out.deep_view() =~= serial_node_candidates(pattern@, all));
    out
}

/// Scans the serial device nodes: those of USB serial adapters, then those
/// of ACM modems; each node that could be read is a candidate.
pub fn scan_serial_nodes(tty_usb: Vec<NodeEntry>, tty_acm: Vec<NodeEntry>) -> (r: Vec<Candidate>)
    ensures
        r.deep_view() == serial_node_candidates(
            tty_usb_pattern_text(),
            found_paths(tty_usb.deep_view()),
        ) + serial_node_candidates(tty_acm_pattern_text(), found_paths(tty_acm.deep_view())),
{
    let mut out = serial_nodes_of(tty_usb_pattern(), tty_usb);
    let mut rest = serial_nodes_of(tty_acm_pattern(), tty_acm);
    let ghost first = out.deep_view();
    let ghost second = rest.deep_view();
    out.append(&mut rest);
    assert(out.deep_view() =~= first + second);
    out
}

/// What a serial port behind USB reports of its device.
#[derive(Debug, Clone)]
pub struct UsbPortInfo {
    pub vid: u16,
    pub pid: u16,
    pub serial_number: Option<String>,
    pub manufacturer: Option<String>,
    pub product: Option<String>,
}

/// The mathematical value of a [`UsbPortInfo`].
pub struct UsbPortInfoView {
    pub vid: u16,
    pub pid: u16,
    pub serial_number: Option<Seq<char>>,
    pub manufacturer: Option<Seq<char>>,
    pub product: Option<Seq<char>>,
}

impl View for UsbPortInfo {
    type V = UsbPortInfoView;

    open spec fn view(&self) -> UsbPortInfoView {
        UsbPortInfoView {
            vid: self.vid,
            pid: self.pid,
            serial_number: self.serial_number.deep_view(),
            manufacturer: self.manufacturer.deep_view(),
            product: self.product.deep_view(),
        }
    }
}

impl DeepView for UsbPortInfo {
    type V = UsbPortInfoView;

    open spec fn deep_view(&self) -> UsbPortInfoView {
        self@
    }
}

/// One serial port of the port list: its name, and what is known of the USB
/// device behind it, where there is one.
#[derive(Debug, Clone)]
pub struct SerialPortRecord {
    pub port_name: String,
    pub usb: Option<UsbPortInfo>,
}

/// The mathematical value of a [`SerialPortRecord`].
pub struct SerialPortRecordView {
    pub port_name: Seq<char>,
    pub usb: Option<UsbPortInfoView>,
}

impl View for SerialPortRecord {
    type V = SerialPortRecordView;

    open spec fn view(&self) -> SerialPortRecordView {
        SerialPortRecordView { port_name: self.port_name@, usb: self.usb.deep_view() }
    }
}

impl DeepView for SerialPortRecord {
    type V = SerialPortRecordView;

    open spec fn deep_view(&self) -> SerialPortRecordView {
        self@
    }
}

/// The candidate of a serial port that is behind USB, from the candidate of
/// the port: the identifiers, the serial number, and, where manufacturer and
/// product give a name, the name with its floors.
pub open spec fn with_usb_port_info(base: CandidateView, info: UsbPortInfoView) -> CandidateView {
    let known = base.with_vid(Some(hex4(info.vid))).with_pid(Some(hex4(info.pid))).with_serial(
        info.serial_number,
    );
    let name = joined_name(info.manufacturer, info.product);
    let named = if name.len() > 0 {
        known.with_make_model(Some(name)).raised(NAMED_SERIAL_FLOOR, named_serial_port_note())
    } else {
        known
    };
    with_keyword_floor(named)
}

/// The candidate of a serial port.
pub open spec fn serial_port_candidate(port: SerialPortRecordView) -> CandidateView {
    let base = CandidateView::fresh(
        TransportView::Serial { path: port.port_name },
        SERIAL_PORT_CONFIDENCE,
        serial_port_note(port.port_name),
    );
    match port.usb {
        Some(info) => with_usb_port_info(base, info),
        None => base,
    }
}

/// The candidates of the serial ports.
pub open spec fn serial_port_candidates(ports: Seq<SerialPortRecordView>) -> Seq<CandidateView> {
    Seq::new(ports.len(), |i: int| serial_port_candidate(ports[i]))
}

/// The candidate of one serial port.
pub fn candidate_from_serial_port(port: SerialPortRecord) -> (r: Candidate)
    ensures
        r@ == serial_port_candidate(port@),
{
    let SerialPortRecord { port_name, usb } = port;
    let mut note = String::from_str("serialport: ");
    note.append(port_name.as_str());
    let mut c = Candidate::new(Transport::Serial { path: port_name }, SERIAL_PORT_CONFIDENCE, note);
    if let Some(info) = usb {
        c.fill_vid(Some(format_hex4(info.vid)));
        c.fill_pid(Some(format_hex4(info.pid)));
        let name = join_names(info.manufacturer.as_ref(), info.product.as_ref());
        c.fill_serial(info.serial_number);
        if !name.as_str().is_empty() {
            c.fill_make_model(Some(name));
            c.raise_confidence(
                NAMED_SERIAL_FLOOR,
                String::from_str("serialport: USB-backed serial device"),
            );
        }
        apply_keyword_floor(&mut c);
    }
    c
}

/// Scans the serial ports: each is a candidate.
pub fn discover_serial_ports(ports: Vec<SerialPortRecord>) -> (r: Vec<Candidate>)
    ensures
        r.deep_view() == serial_port_candidates(ports.deep_view()),
{
    let mut out: Vec<Candidate> = Vec::new();
    let ghost all = ports.deep_view();
    for port in it: ports
        invariant
            it.seq().len() == all.len(),
            forall|k: int| 0 <= k < all.len() ==> (#[trigger] it.seq()[k])@ == all[k],
            out.len() == it.index(),
            forall|k: int| 0 <= k < out.len() ==> (#[trigger] out@[k])@ == serial_port_candidate(all[k]),
    {
        out.push(candidate_from_serial_port(port));
    }
    assert(out.deep_view() =~= serial_port_candidates(all));
    out
}

/// How the read of one string descriptor ended.
#[derive(Debug, Clone)]
pub enum DescriptorRead {
    Value(String),
    TimedOut,
    DeviceError,
}

/// The mathematical value of a [`DescriptorRead`].
pub enum DescriptorReadView {
    Value(Seq<char>),
    TimedOut,
    DeviceError,
}

impl View for DescriptorRead {
    type V = DescriptorReadView;

    open spec fn view(&self) -> DescriptorReadView {
        match self {
            DescriptorRead::Value(s) => DescriptorReadView::Value(s@),
            DescriptorRead::TimedOut => DescriptorReadView::TimedOut,
            DescriptorRead::DeviceError => DescriptorReadView::DeviceError,
        }
    }
}

impl DeepView for DescriptorRead {
    type V = DescriptorReadView;

    open spec fn deep_view(&self) -> DescriptorReadView {
        self@
    }
}

/// One device on the bus: its identifiers, the class codes of the
/// interfaces of its active configuration (absent where the configuration
/// could not be read), and how the read of each string descriptor ended
/// (absent where it was not tried).
#[derive(Debug, Clone)]
pub struct UsbDeviceRecord {
    pub vendor_id: u16,
    pub product_id: u16,
    pub interface_classes: Option<Vec<u8>>,
    pub manufacturer: Option<DescriptorRead>,
    pub product: Option<DescriptorRead>,
    pub serial: Option<DescriptorRead>,
}

/// The mathematical value of a [`UsbDeviceRecord`].
pub struct UsbDeviceRecordView {
    pub vendor_id: u16,
    pub product_id: u16,
    pub interface_classes: Option<Seq<u8>>,
    pub manufacturer: Option<DescriptorReadView>,
    pub product: Option<DescriptorReadView>,
    pub serial: Option<DescriptorReadView>,
}

impl View for UsbDeviceRecord {
    type V = UsbDeviceRecordView;

    open spec fn view(&self) -> UsbDeviceRecordView {
        UsbDeviceRecordView {
            vendor_id: self.vendor_id,
            product_id: self.product_id,
            interface_classes: match self.interface_classes {
                Some(classes) => Some(classes@),
                None => None,
            },
            manufacturer: self.manufacturer.deep_view(),
            product: self.product.deep_view(),
            serial: self.serial.deep_view(),
        }
    }
}

impl DeepView for UsbDeviceRecord {
    type V = UsbDeviceRecordView;

    open spec fn deep_view(&self) -> UsbDeviceRecordView {
        self@
    }
}

/// Whether one of the interfaces is of the printer class.
pub open spec fn has_printer_interface(classes: Option<Seq<u8>>) -> bool {
    match classes {
        Some(codes) => codes.contains(PRINTER_CLASS),
        None => false,
    }
}

/// The test "has an interface of the printer class".
pub open spec fn is_printer() -> spec_fn(UsbDeviceRecordView) -> bool {
    |d: UsbDeviceRecordView| has_printer_interface(d.interface_classes)
}

/// The string that a read gave, where it was tried and gave one.
pub open spec fn read_value(read: Option<DescriptorReadView>) -> Option<Seq<char>> {
    match read {
        Some(DescriptorReadView::Value(s)) => Some(s),
        _ => None,
    }
}

/// The candidate of a device with a printer interface. Where manufacturer
/// and product were both read and give a name, it has the name and the floor
/// of a named device.
pub open spec fn usb_device_candidate(d: UsbDeviceRecordView) -> CandidateView {
    let serial = read_value(d.serial);
    let base = CandidateView::fresh(
        TransportView::UsbDevice { vid: d.vendor_id, pid: d.product_id, serial },
        PRINTER_INTERFACE_CONFIDENCE,
        printer_interface_note(),
    ).with_serial(serial).with_vid(Some(hex4(d.vendor_id))).with_pid(Some(hex4(d.product_id)));
    let name = joined_name(read_value(d.manufacturer), read_value(d.product));
    if read_value(d.manufacturer) is Some && read_value(d.product) is Some && name.len() > 0 {
        base.with_make_model(Some(name)).raised(NAMED_DEVICE_FLOOR, named_device_note())
    } else {
        base
    }
}

/// The candidates of the devices on the bus: one for each device with a
/// printer interface.
pub open spec fn usb_printer_candidates(devices: Seq<UsbDeviceRecordView>) -> Seq<CandidateView> {
    Seq::new(
        devices.filter(is_printer()).len(),
        |i: int| usb_device_candidate(devices.filter(is_printer())[i]),
    )
}

/// Whether `code` is among the class codes.
fn has_class(codes: &Vec<u8>, code: u8) -> (r: bool)
    ensures
        r == codes@.contains(code),
{
    let n = codes.len();
    let mut i: usize = 0;
    while i < n
        invariant
            n == codes.len(),
            i <= n,
            forall|k: int| 0 <= k < i ==> codes@[k] != code,
        decreases n - i,
    {
        if codes[i] == code {
            assert(codes@[i as int] == code);
            return true;
        }
        i += 1;
    }
    false
}

/// Whether one of the interfaces of the active configuration is of the
/// printer class. A device whose configuration could not be read has none.
pub fn device_has_printer_interface(classes: &Option<Vec<u8>>) -> (r: bool)
    ensures
        r == has_printer_interface(
            match classes {
                Some(codes) => Some(codes@),
                None => None,
            },
        ),
{
    match classes {
        Some(codes) => has_class(codes, PRINTER_CLASS),
        None => false,
    }
}

/// The string that a read gave, where it was tried and gave one.
pub fn string_read(read: Option<DescriptorRead>) -> (r: Option<String>)
    ensures
        r.deep_view() == read_value(read.deep_view()),
{
    match read {
        Some(DescriptorRead::Value(s)) => Some(s),
        _ => None,
    }
}

/// The candidate of one device with a printer interface.
pub fn candidate_from_usb_device(device: UsbDeviceRecord) -> (r: Candidate)
    ensures
        r@ == usb_device_candidate(device@),
{
    let UsbDeviceRecord { vendor_id, product_id, interface_classes: _, manufacturer, product, serial } =
        device;
    let serial = string_read(serial);
    let manufacturer = string_read(manufacturer);
    let product = string_read(product);
    let mut c = Candidate::new(
        Transport::UsbDevice { vid: vendor_id, pid: product_id, serial: copy_text(&serial) },
        PRINTER_INTERFACE_CONFIDENCE,
        String::from_str("exposes USB printer-class interface."),
    );
    c.fill_serial(serial);
    c.fill_vid(Some(format_hex4(vendor_id)));
    c.fill_pid(Some(format_hex4(product_id)));
    if manufacturer.is_some() && product.is_some() {
        let name = join_names(manufacturer.as_ref(), product.as_ref());
        if !name.as_str().is_empty() {
            c.fill_make_model(Some(name));
            c.raise_confidence(
                NAMED_DEVICE_FLOOR,
                String::from_str("libusb: string descriptors give a display name"),
            );
        }
    }
    c
}

/// Scans the devices on the bus: each device with an interface of the
/// printer class is a candidate.
pub fn discover_usb_printer_class(devices: Vec<UsbDeviceRecord>) -> (r: Vec<Candidate>)
    ensures
        r.deep_view() == usb_printer_candidates(devices.deep_view()),
{
    let mut out: Vec<Candidate> = Vec::new();
    let ghost all = devices.deep_view();
    assert(all.take(0) =~= Seq::<UsbDeviceRecordView>::empty());
    proof {
        all.take(0).lemma_filter_len(is_printer());
    }
    for device in it: devices
        invariant
            it.seq().len() == all.len(),
            forall|k: int| 0 <= k < all.len() ==> (#[trigger] it.seq()[k])@ == all[k],
            out.deep_view() == usb_printer_candidates(all.take(it.index() as int)),
    {
        let ghost done = all.take(it.index() as int);
        proof {
            assert(all.take(it.index() + 1) =~= done.push(device@));
            done.lemma_filter_push(device@, is_printer());
        }
        let ghost before = out.deep_view();
        if device_has_printer_interface(&device.interface_classes) {
            out.push(candidate_from_usb_device(device));
            assert(out.deep_view() =~= before.push(usb_device_candidate(all[it.index() as int])));
            assert(out.deep_view() =~= usb_printer_candidates(all.take(it.index() + 1)));
        }
    }
    assert(all.take(all.len() as int) =~= all);
    out
}

/// Every scanner creates its candidates with a confidence in range.
pub proof fn lemma_scanned_in_range(
    paths: Seq<Seq<char>>,
    pattern: Seq<char>,
    ports: Seq<SerialPortRecordView>,
    devices: Seq<UsbDeviceRecordView>,
)
    ensures
        all_bounded(usb_lp_candidates(paths)),
        all_bounded(serial_node_candidates(pattern, paths)),
        all_bounded(serial_port_candidates(ports)),
        all_bounded(usb_printer_candidates(devices)),
{
}

} // verus!
