//! Discovery: the scanners of one platform, enrichment where the platform
//! has a property service, then fusion and ranking.
//!
//! The platform layer enumerates; discovery takes what it listed. A listing
//! that failed makes the whole discovery fail; a host without a backend has
//! no candidates, which is no failure.
use crate::enrich::{
    build_udev_devnode_map, enrich_with_udev, enriched, indexed, lemma_enriched_in_range,
    DeviceRecord, DeviceRecordView,
};
use crate::fusion::{distinct_keys, fuse_and_rank, fused, lemma_fused_bounded};
use crate::model::{all_bounded, Candidate, CandidateView};
use crate::ranking::{lemma_ranked_bounded, non_increasing, ranked};
use crate::scan::{
    discover_serial_ports, discover_usb_printer_class, found_paths, lemma_scanned_in_range,
    scan_serial_nodes, scan_usb_lp_nodes, serial_node_candidates, serial_port_candidates,
    tty_acm_pattern_text, tty_usb_pattern_text, usb_lp_candidates, usb_printer_candidates,
    NodeEntry, NodeEntryView, SerialPortRecord, SerialPortRecordView, UsbDeviceRecord,
    UsbDeviceRecordView,
};
use vstd::prelude::*;
use vstd::string::*;

verus! {

/// The scanner whose enumeration failed.
#[derive(Debug, Clone, Copy, PartialEq, Eq, Structural)]
pub enum Scanner {
    UsbClassNodes,
    SerialNodes,
    PropertyService,
    SerialPorts,
    UsbBus,
}

/// A discovery failure: the enumeration of one scanner failed, with the
/// message that the platform layer gave.
#[derive(Debug, Clone)]
pub struct DiscoveryError {
    pub scanner: Scanner,
    pub message: String,
}

/// The mathematical value of a [`DiscoveryError`].
pub struct DiscoveryErrorView {
    pub scanner: Scanner,
    pub message: Seq<char>,
}

impl View for DiscoveryError {
    type V = DiscoveryErrorView;

    open spec fn view(&self) -> DiscoveryErrorView {
        DiscoveryErrorView { scanner: self.scanner, message: self.message@ }
    }
}

/// The mathematical value of a listing of device nodes: the entries, or the
/// message of the failure.
pub open spec fn nodes_view(listing: Result<Vec<NodeEntry>, String>) -> Result<
    Seq<NodeEntryView>,
    Seq<char>,
> {
    match listing {
        Ok(entries) => Ok(entries.deep_view()),
        Err(message) => Err(message@),
    }
}

/// The mathematical value of the outcome of a discovery.
pub open spec fn outcome_view(outcome: Result<Vec<Candidate>, DiscoveryError>) -> Result<
    Seq<CandidateView>,
    DiscoveryErrorView,
> {
    match outcome {
        Ok(cands) => Ok(cands.deep_view()),
        Err(e) => Err(e@),
    }
}

/// What the platform layer listed on a Linux host.
#[derive(Debug)]
pub struct LinuxScan {
    /// The device nodes of the printer class.
    pub usb_lp_nodes: Result<Vec<NodeEntry>, String>,
    /// The device nodes of USB serial adapters.
    pub tty_usb_nodes: Result<Vec<NodeEntry>, String>,
    /// The device nodes of ACM modems.
    pub tty_acm_nodes: Result<Vec<NodeEntry>, String>,
    /// The devices of the property service.
    pub devices: Result<Vec<DeviceRecord>, String>,
}

/// The mathematical value of a [`LinuxScan`].
pub struct LinuxScanView {
    pub usb_lp_nodes: Result<Seq<NodeEntryView>, Seq<char>>,
    pub tty_usb_nodes: Result<Seq<NodeEntryView>, Seq<char>>,
    pub tty_acm_nodes: Result<Seq<NodeEntryView>, Seq<char>>,
    pub devices: Result<Seq<DeviceRecordView>, Seq<char>>,
}

impl View for LinuxScan {
    type V = LinuxScanView;

    open spec fn view(&self) -> LinuxScanView {
        LinuxScanView {
            usb_lp_nodes: nodes_view(self.usb_lp_nodes),
            tty_usb_nodes: nodes_view(self.tty_usb_nodes),
            tty_acm_nodes: nodes_view(self.tty_acm_nodes),
            devices: match self.devices {
                Ok(devices) => Ok(devices.deep_view()),
                Err(message) => Err(message@),
            },
        }
    }
}

/// What the platform layer listed on a macOS host.
#[derive(Debug)]
pub struct MacScan {
    /// The serial ports.
    pub serial_ports: Result<Vec<SerialPortRecord>, String>,
    /// The devices on the bus.
    pub usb_devices: Result<Vec<UsbDeviceRecord>, String>,
}

/// The mathematical value of a [`MacScan`].
pub struct MacScanView {
    pub serial_ports: Result<Seq<SerialPortRecordView>, Seq<char>>,
    pub usb_devices: Result<Seq<UsbDeviceRecordView>, Seq<char>>,
}

impl View for MacScan {
    type V = MacScanView;

    open spec fn view(&self) -> MacScanView {
        MacScanView {
            serial_ports: match self.serial_ports {
                Ok(ports) => Ok(ports.deep_view()),
                Err(message) => Err(message@),
            },
            usb_devices: match self.usb_devices {
                Ok(devices) => Ok(devices.deep_view()),
                Err(message) => Err(message@),
            },
        }
    }
}

/// The failure of a listing, where it failed.
pub open spec fn failure_of<T>(listing: Result<T, Seq<char>>, scanner: Scanner) -> Option<
    DiscoveryErrorView,
> {
    match listing {
        Ok(_) => None,
        Err(message) => Some(DiscoveryErrorView { scanner, message }),
    }
}

/// The items of a listing, none where it failed.
pub open spec fn listed<T>(listing: Result<Seq<T>, Seq<char>>) -> Seq<T> {
    match listing {
        Ok(items) => items,
        Err(_) => Seq::empty(),
    }
}

/// The first of two failures that is there.
pub open spec fn first_failure(
    a: Option<DiscoveryErrorView>,
    b: Option<DiscoveryErrorView>,
) -> Option<DiscoveryErrorView> {
    if a is Some {
        a
    } else {
        b
    }
}

/// The backend of a Linux host: device nodes of the printer class, serial
/// device nodes where they are included, and the property service where it
/// is used.
#[derive(Debug, Clone, Copy)]
pub struct LinuxDiscovery {
    pub include_serial: bool,
    pub use_udev: bool,
}

impl LinuxDiscovery {
    /// The failure of the first scanner, of those that are in use, whose
    /// listing failed.
    pub open spec fn failure(self, scan: LinuxScanView) -> Option<DiscoveryErrorView> {
        first_failure(
            failure_of(scan.usb_lp_nodes, Scanner::UsbClassNodes),
            first_failure(
                if self.include_serial {
                    first_failure(
                        failure_of(scan.tty_usb_nodes, Scanner::SerialNodes),
                        failure_of(scan.tty_acm_nodes, Scanner::SerialNodes),
                    )
                } else {
                    None
                },
                if self.use_udev {
                    failure_of(scan.devices, Scanner::PropertyService)
                } else {
                    None
                },
            ),
        )
    }

    /// The raw candidates: those of the printer class, then the serial
    /// ones. An entry of a listing that could not be read gives none.
    pub open spec fn raw(self, scan: LinuxScanView) -> Seq<CandidateView> {
        usb_lp_candidates(found_paths(listed(scan.usb_lp_nodes))) + if self.include_serial {
            serial_node_candidates(tty_usb_pattern_text(), found_paths(listed(scan.tty_usb_nodes)))
                + serial_node_candidates(
                tty_acm_pattern_text(),
                found_paths(listed(scan.tty_acm_nodes)),
            )
        } else {
            Seq::empty()
        }
    }

    /// The candidates after enrichment, where the property service is used.
    pub open spec fn enriched(self, scan: LinuxScanView) -> Seq<CandidateView> {
        if self.use_udev {
            enriched(self.raw(scan), indexed(listed(scan.devices)))
        } else {
            self.raw(scan)
        }
    }

    /// What discovery gives: the failure, where a scanner in use failed, and
    /// else the candidates, enriched, fused and ranked.
    pub open spec fn outcome(self, scan: LinuxScanView) -> Result<
        Seq<CandidateView>,
        DiscoveryErrorView,
    > {
        match self.failure(scan) {
            Some(e) => Err(e),
            None => Ok(ranked(fused(self.enriched(scan)))),
        }
    }

    /// The backend with every scanner and the property service in use.
    pub fn new() -> (r: LinuxDiscovery)
        ensures
            r.include_serial,
            r.use_udev,
    {
        LinuxDiscovery { include_serial: true, use_udev: true }
    }

    /// Discovers the printer candidates of a Linux host from what was
    /// listed.
    pub fn discover(&self, scan: LinuxScan) -> (r: Result<Vec<Candidate>, DiscoveryError>)
        ensures
            outcome_view(r) == self.outcome(scan@),
            r matches Ok(cands) ==> all_bounded(cands.deep_view()) && non_increasing(
                cands.deep_view(),
            ) && distinct_keys(cands.deep_view()),
    {
        let LinuxScan { usb_lp_nodes, tty_usb_nodes, tty_acm_nodes, devices } = scan;
        let mut cands = match usb_lp_nodes {
            Ok(paths) => scan_usb_lp_nodes(paths),
            Err(message) => {
                return Err(DiscoveryError { scanner: Scanner::UsbClassNodes, message });
            },
        };
        if self.include_serial {
            let tty_usb = match tty_usb_nodes {
                Ok(paths) => paths,
                Err(message) => {
                    return Err(DiscoveryError { scanner: Scanner::SerialNodes, message });
                },
            };
            let tty_acm = match tty_acm_nodes {
                Ok(paths) => paths,
                Err(message) => {
                    return Err(DiscoveryError { scanner: Scanner::SerialNodes, message });
                },
            };
            let mut serial = scan_serial_nodes(tty_usb, tty_acm);
            let ghost first = cands.deep_view();
            let ghost second = serial.deep_view();
            cands.append(&mut serial);
            assert(cands.deep_view() =~= first + second);
        } else {
            assert(cands.deep_view() + Seq::<CandidateView>::empty() =~= cands.deep_view());
        }
        assert(cands.deep_view() == self.raw(scan@));
        if self.use_udev {
            let index = match devices {
                Ok(records) => build_udev_devnode_map(records),
                Err(message) => {
                    return Err(DiscoveryError { scanner: Scanner::PropertyService, message });
                },
            };
            cands = enrich_with_udev(cands, &index);
        }
        Ok(fuse_and_rank(cands))
    }
}

impl Default for LinuxDiscovery {
    /// The backend with the scanner of the printer class alone.
    fn default() -> (r: LinuxDiscovery)
        ensures
            !r.include_serial,
            !r.use_udev,
    {
        LinuxDiscovery { include_serial: false, use_udev: false }
    }
}

/// The backend of a macOS host: the serial ports and the devices on the
/// bus, each where it is included.
#[derive(Debug, Clone, Copy)]
pub struct MacDiscovery {
    pub include_serial: bool,
    pub include_usb: bool,
}

impl MacDiscovery {
    /// The failure of the first scanner, of those that are in use, whose
    /// listing failed.
    pub open spec fn failure(self, scan: MacScanView) -> Option<DiscoveryErrorView> {
        first_failure(
            if self.include_serial {
                failure_of(scan.serial_ports, Scanner::SerialPorts)
            } else {
                None
            },
            if self.include_usb {
                failure_of(scan.usb_devices, Scanner::UsbBus)
            } else {
                None
            },
        )
    }

    /// The raw candidates: those of the serial ports, then those of the bus.
    pub open spec fn raw(self, scan: MacScanView) -> Seq<CandidateView> {
        (if self.include_serial {
            serial_port_candidates(listed(scan.serial_ports))
        } else {
            Seq::empty()
        }) + (if self.include_usb {
            usb_printer_candidates(listed(scan.usb_devices))
        } else {
            Seq::empty()
        })
    }

    /// What discovery gives: the failure, where a scanner in use failed, and
    /// else the candidates, fused and ranked.
    pub open spec fn outcome(self, scan: MacScanView) -> Result<
        Seq<CandidateView>,
        DiscoveryErrorView,
    > {
        match self.failure(scan) {
            Some(e) => Err(e),
            None => Ok(ranked(fused(self.raw(scan)))),
        }
    }

    /// The backend with both scanners in use.
    pub fn new() -> (r: MacDiscovery)
        ensures
            r.include_serial,
            r.include_usb,
    {
        MacDiscovery { include_serial: true, include_usb: true }
    }

    /// Discovers the printer candidates of a macOS host from what was
    /// listed.
    pub fn discover(&self, scan: MacScan) -> (r: Result<Vec<Candidate>, DiscoveryError>)
        ensures
            outcome_view(r) == self.outcome(scan@),
            r matches Ok(cands) ==> all_bounded(cands.deep_view()) && non_increasing(
                cands.deep_view(),
            ) && distinct_keys(cands.deep_view()),
    {
        let MacScan { serial_ports, usb_devices } = scan;
        let mut cands: Vec<Candidate> = Vec::new();
        if self.include_serial {
            match serial_ports {
                Ok(ports) => {
                    cands = discover_serial_ports(ports);
                },
                Err(message) => {
                    return Err(DiscoveryError { scanner: Scanner::SerialPorts, message });
                },
            }
        } else {
            assert(cands.deep_view() =~= Seq::<CandidateView>::empty());
        }
        let ghost first = cands.deep_view();
        if self.include_usb {
            match usb_devices {
                Ok(devices) => {
                    let mut found = discover_usb_printer_class(devices);
                    let ghost second = found.deep_view();
                    cands.append(&mut found);
                    assert(cands.deep_view() =~= first + second);
                },
                Err(message) => {
                    return Err(DiscoveryError { scanner: Scanner::UsbBus, message });
                },
            }
        } else {
            assert(first + Seq::<CandidateView>::empty() =~= first);
        }
        Ok(fuse_and_rank(cands))
    }
}

impl Default for MacDiscovery {
    /// The backend with no scanner in use.
    fn default() -> (r: MacDiscovery)
        ensures
            !r.include_serial,
            !r.include_usb,
    {
        MacDiscovery { include_serial: false, include_usb: false }
    }
}

/// What the platform layer listed, by the kind of host.
#[derive(Debug)]
pub enum HostScan {
    Linux(LinuxScan),
    Mac(MacScan),
    Unsupported,
}

/// The mathematical value of a [`HostScan`].
pub enum HostScanView {
    Linux(LinuxScanView),
    Mac(MacScanView),
    Unsupported,
}

impl View for HostScan {
    type V = HostScanView;

    open spec fn view(&self) -> HostScanView {
        match self {
            HostScan::Linux(scan) => HostScanView::Linux(scan@),
            HostScan::Mac(scan) => HostScanView::Mac(scan@),
            HostScan::Unsupported => HostScanView::Unsupported,
        }
    }
}

/// What the default discovery gives: on a supported host what its backend
/// gives with everything in use, on another host no candidates.
pub open spec fn default_outcome(scan: HostScanView) -> Result<
    Seq<CandidateView>,
    DiscoveryErrorView,
> {
    match scan {
        HostScanView::Linux(s) => (LinuxDiscovery { include_serial: true, use_udev: true }).outcome(
            s,
        ),
        HostScanView::Mac(s) => (MacDiscovery { include_serial: true, include_usb: true }).outcome(
            s,
        ),
        HostScanView::Unsupported => Ok(Seq::empty()),
    }
}

/// Whatever was listed, every candidate that the default discovery gives
/// has a confidence of at most 100.
pub proof fn lemma_default_outcome_in_range(scan: HostScanView)
    ensures
        default_outcome(scan) matches Ok(cands) ==> all_bounded(cands),
{
    match scan {
        HostScanView::Linux(s) => {
            lemma_linux_outcome_in_range(LinuxDiscovery { include_serial: true, use_udev: true }, s);
        },
        HostScanView::Mac(s) => {
            lemma_mac_outcome_in_range(MacDiscovery { include_serial: true, include_usb: true }, s);
        },
        HostScanView::Unsupported => {},
    }
}

/// Whatever was listed and whatever is in use, every candidate that the
/// Linux backend gives has a confidence of at most 100.
pub proof fn lemma_linux_outcome_in_range(backend: LinuxDiscovery, scan: LinuxScanView)
    ensures
        backend.outcome(scan) matches Ok(cands) ==> all_bounded(cands),
{
    let nodes = found_paths(listed(scan.usb_lp_nodes));
    lemma_scanned_in_range(nodes, tty_usb_pattern_text(), Seq::empty(), Seq::empty());
    lemma_scanned_in_range(
        found_paths(listed(scan.tty_usb_nodes)),
        tty_usb_pattern_text(),
        Seq::empty(),
        Seq::empty(),
    );
    lemma_scanned_in_range(
        found_paths(listed(scan.tty_acm_nodes)),
        tty_acm_pattern_text(),
        Seq::empty(),
        Seq::empty(),
    );
    let raw = backend.raw(scan);
    assert(all_bounded(raw));
    if backend.use_udev {
        lemma_enriched_in_range(raw, indexed(listed(scan.devices)));
    }
    lemma_fused_bounded(backend.enriched(scan));
    lemma_ranked_bounded(fused(backend.enriched(scan)));
}

/// Whatever was listed and whatever is in use, every candidate that the
/// macOS backend gives has a confidence of at most 100.
pub proof fn lemma_mac_outcome_in_range(backend: MacDiscovery, scan: MacScanView)
    ensures
        backend.outcome(scan) matches Ok(cands) ==> all_bounded(cands),
{
    lemma_scanned_in_range(
        Seq::empty(),
        Seq::empty(),
        listed(scan.serial_ports),
        listed(scan.usb_devices),
    );
    let raw = backend.raw(scan);
    assert(all_bounded(raw));
    lemma_fused_bounded(raw);
    lemma_ranked_bounded(fused(raw));
}

/// What the user is told of a failed discovery.
pub open spec fn failure_report() -> Seq<char> {
    "could not enumerate printers on this host"@
}

/// What the user is told of a discovery without candidates.
pub open spec fn empty_report() -> Seq<char> {
    "no printers found"@
}

impl DiscoveryError {
    /// The failure in words: what the user is told, then the message that the
    /// platform layer gave.
    pub fn describe(&self) -> (r: String)
        ensures
            r@ == failure_report() + ": "@ + self.message@,
    {
        let mut r = String::from_str("could not enumerate printers on this host");
        r.append(": ");
        r.append(self.message.as_str());
        r
    }
}

/// What the user is told in place of a list of candidates: that discovery
/// failed, or that it found nothing. None where there are candidates to
/// list.
pub fn report(outcome: &Result<Vec<Candidate>, DiscoveryError>) -> (r: Option<&'static str>)
    ensures
        r.deep_view() == match outcome {
            Err(_) => Some(failure_report()),
            Ok(cands) => if cands.len() == 0 {
                Some(empty_report())
            } else {
                None
            },
        },
{
    match outcome {
        Err(_) => Some("could not enumerate printers on this host"),
        Ok(cands) => if cands.len() == 0 {
            Some("no printers found")
        } else {
            None
        },
    }
}

/// The one operation that the printing side sees: list the printer
/// candidates of this host.
pub trait DiscoveryProvider {
    /// Discovers with the backend of the host that the scan comes from.
    fn discover_default(&self, scan: HostScan) -> (r: Result<Vec<Candidate>, DiscoveryError>)
        ensures
            outcome_view(r) == default_outcome(scan@),
            r matches Ok(cands) ==> all_bounded(cands.deep_view()) && non_increasing(
                cands.deep_view(),
            ) && distinct_keys(cands.deep_view()),
    ;
}

/// The provider that picks the backend by the host.
#[derive(Debug, Clone, Copy, Default)]
pub struct DefaultDiscovery;

impl DiscoveryProvider for DefaultDiscovery {
    fn discover_default(&self, scan: HostScan) -> (r: Result<Vec<Candidate>, DiscoveryError>) {
        match scan {
            HostScan::Linux(s) => LinuxDiscovery::new().discover(s),
            HostScan::Mac(s) => MacDiscovery::new().discover(s),
            HostScan::Unsupported => {
                let none: Vec<Candidate> = Vec::new();
                assert(none.deep_view() =~= Seq::<CandidateView>::empty());
                Ok(none)
            },
        }
    }
}

} // verus!
