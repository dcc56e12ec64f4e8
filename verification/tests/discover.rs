use printer_discovery::discover::{
    report, DefaultDiscovery, DiscoveryError, DiscoveryProvider, HostScan, LinuxDiscovery, LinuxScan, MacDiscovery,
    MacScan, Scanner,
};
use printer_discovery::enrich::{DeviceRecord, Property};
use printer_discovery::scan::{DescriptorRead, NodeEntry, SerialPortRecord, UsbDeviceRecord};

fn strings(items: &[&str]) -> Vec<NodeEntry> {
    items.iter().map(|s| NodeEntry::Found(String::from(*s))).collect()
}

fn linux_scan() -> LinuxScan {
    LinuxScan {
        usb_lp_nodes: Ok(strings(&["/dev/usb/lp0"])),
        tty_usb_nodes: Ok(strings(&["/dev/ttyUSB0"])),
        tty_acm_nodes: Ok(strings(&["/dev/ttyACM0"])),
        devices: Ok(vec![DeviceRecord {
            devnode: Some(String::from("/dev/ttyACM0")),
            properties: vec![
                Property { name: String::from("ID_MODEL"), value: String::from("TSP143") },
                Property { name: String::from("ID_VENDOR"), value: String::from("Star") },
                Property {
                    name: String::from("ID_USB_INTERFACES"),
                    value: String::from(":070102:"),
                },
            ],
        }]),
    }
}

fn mac_scan() -> MacScan {
    MacScan {
        serial_ports: Ok(vec![SerialPortRecord {
            port_name: String::from("/dev/cu.usbmodem1"),
            usb: None,
        }]),
        usb_devices: Ok(vec![UsbDeviceRecord {
            vendor_id: 0x04b8,
            product_id: 0x0e15,
            interface_classes: Some(vec![7]),
            manufacturer: Some(DescriptorRead::Value(String::from("EPSON"))),
            product: Some(DescriptorRead::Value(String::from("TM-T20II"))),
            serial: None,
        }]),
    }
}

#[test]
fn new_backends_use_everything() {
    let linux = LinuxDiscovery::new();
    assert!(linux.include_serial && linux.use_udev);
    let mac = MacDiscovery::new();
    assert!(mac.include_serial && mac.include_usb);
}

#[test]
fn default_backends_use_the_least() {
    let linux = LinuxDiscovery::default();
    assert!(!linux.include_serial && !linux.use_udev);
    let mac = MacDiscovery::default();
    assert!(!mac.include_serial && !mac.include_usb);
}

#[test]
fn linux_discovery_scans_enriches_fuses_and_ranks() {
    let r = LinuxDiscovery::new().discover(linux_scan()).unwrap();
    assert_eq!(r.len(), 3);
    assert_eq!(r[0].transport_path(), Some("/dev/ttyACM0"));
    assert_eq!(r[0].confidence(), 90);
    assert_eq!(r[0].make_model(), &Some(String::from("Star TSP143")));
    assert_eq!(r[0].notes().len(), 4);
    assert_eq!(r[1].transport_path(), Some("/dev/usb/lp0"));
    assert_eq!(r[1].confidence(), 80);
    assert_eq!(r[2].transport_path(), Some("/dev/ttyUSB0"));
    assert_eq!(r[2].confidence(), 40);
}

#[test]
fn linux_discovery_without_serial_and_udev() {
    let r = LinuxDiscovery::default().discover(linux_scan()).unwrap();
    assert_eq!(r.len(), 1);
    assert_eq!(r[0].transport_path(), Some("/dev/usb/lp0"));
    let only_serial = LinuxDiscovery { include_serial: true, use_udev: false };
    let r = only_serial.discover(linux_scan()).unwrap();
    assert_eq!(r.len(), 3);
    assert_eq!(r[0].transport_path(), Some("/dev/usb/lp0"));
    assert_eq!(r[1].transport_path(), Some("/dev/ttyUSB0"));
    assert_eq!(r[2].transport_path(), Some("/dev/ttyACM0"));
    assert_eq!(r[2].confidence(), 40);
    assert_eq!(r[2].make_model(), &None);
}

#[test]
fn linux_discovery_merges_a_node_found_twice() {
    let mut scan = linux_scan();
    scan.usb_lp_nodes = Ok(strings(&["/dev/usb/lp0", "/dev/usb/lp0"]));
    scan.tty_usb_nodes = Ok(strings(&["/dev/usb/lp0"]));
    scan.tty_acm_nodes = Ok(Vec::new());
    let r = LinuxDiscovery::new().discover(scan).unwrap();
    assert_eq!(r.len(), 1);
    assert_eq!(r[0].confidence(), 80);
    assert_eq!(
        r[0].notes(),
        &vec![
            String::from("found in USB printer-class device namespace."),
            String::from("found in USB printer-class device namespace."),
            String::from("Found serial device node (/dev/ttyUSB*)"),
        ]
    );
}

#[test]
fn failed_class_node_listing_fails_discovery() {
    let mut scan = linux_scan();
    scan.usb_lp_nodes = Err(String::from("lp failed"));
    scan.tty_usb_nodes = Err(String::from("tty failed"));
    scan.devices = Err(String::from("udev failed"));
    let e = LinuxDiscovery::new().discover(scan).unwrap_err();
    assert_eq!(e.scanner, Scanner::UsbClassNodes);
    assert_eq!(e.message, "lp failed");
}

#[test]
fn failed_serial_node_listing_fails_discovery() {
    let mut scan = linux_scan();
    scan.tty_usb_nodes = Err(String::from("ttyUSB failed"));
    scan.tty_acm_nodes = Err(String::from("ttyACM failed"));
    scan.devices = Err(String::from("udev failed"));
    let e = LinuxDiscovery::new().discover(scan).unwrap_err();
    assert_eq!(e.scanner, Scanner::SerialNodes);
    assert_eq!(e.message, "ttyUSB failed");
    let mut scan = linux_scan();
    scan.tty_acm_nodes = Err(String::from("ttyACM failed"));
    let e = LinuxDiscovery::new().discover(scan).unwrap_err();
    assert_eq!(e.scanner, Scanner::SerialNodes);
    assert_eq!(e.message, "ttyACM failed");
}

#[test]
fn failed_property_service_fails_discovery() {
    let mut scan = linux_scan();
    scan.devices = Err(String::from("udev failed"));
    let e = LinuxDiscovery::new().discover(scan).unwrap_err();
    assert_eq!(e.scanner, Scanner::PropertyService);
    assert_eq!(e.message, "udev failed");
}

#[test]
fn failure_of_a_scanner_that_is_not_in_use_is_ignored() {
    let mut scan = linux_scan();
    scan.tty_usb_nodes = Err(String::from("ttyUSB failed"));
    scan.tty_acm_nodes = Err(String::from("ttyACM failed"));
    scan.devices = Err(String::from("udev failed"));
    let r = LinuxDiscovery::default().discover(scan).unwrap();
    assert_eq!(r.len(), 1);
    let mut scan = mac_scan();
    scan.serial_ports = Err(String::from("ports failed"));
    scan.usb_devices = Err(String::from("bus failed"));
    let r = MacDiscovery::default().discover(scan).unwrap();
    assert!(r.is_empty());
    let mut scan = mac_scan();
    scan.serial_ports = Err(String::from("ports failed"));
    let only_usb = MacDiscovery { include_serial: false, include_usb: true };
    assert_eq!(only_usb.discover(scan).unwrap().len(), 1);
}

#[test]
fn mac_discovery_scans_fuses_and_ranks() {
    let r = MacDiscovery::new().discover(mac_scan()).unwrap();
    assert_eq!(r.len(), 2);
    assert_eq!(r[0].transport_path(), None);
    assert_eq!(r[0].confidence(), 85);
    assert_eq!(r[0].make_model(), &Some(String::from("EPSON TM-T20II")));
    assert_eq!(r[1].transport_path(), Some("/dev/cu.usbmodem1"));
    assert_eq!(r[1].confidence(), 35);
}

#[test]
fn failed_port_listing_fails_discovery() {
    let mut scan = mac_scan();
    scan.serial_ports = Err(String::from("ports failed"));
    scan.usb_devices = Err(String::from("bus failed"));
    let e = MacDiscovery::new().discover(scan).unwrap_err();
    assert_eq!(e.scanner, Scanner::SerialPorts);
    assert_eq!(e.message, "ports failed");
}

#[test]
fn failed_bus_listing_fails_discovery() {
    let mut scan = mac_scan();
    scan.usb_devices = Err(String::from("bus failed"));
    let e = MacDiscovery::new().discover(scan).unwrap_err();
    assert_eq!(e.scanner, Scanner::UsbBus);
    assert_eq!(e.message, "bus failed");
}

#[test]
fn unsupported_host_has_no_candidates_and_no_failure() {
    let r = DefaultDiscovery.discover_default(HostScan::Unsupported);
    assert!(matches!(r, Ok(ref cands) if cands.is_empty()));
}

#[test]
fn default_discovery_uses_the_backend_of_the_host() {
    let r = DefaultDiscovery.discover_default(HostScan::Linux(linux_scan())).unwrap();
    assert_eq!(r.len(), 3);
    assert_eq!(r[0].confidence(), 90);
    let r = DefaultDiscovery.discover_default(HostScan::Mac(mac_scan())).unwrap();
    assert_eq!(r.len(), 2);
    assert_eq!(r[0].confidence(), 85);
}

#[test]
fn default_discovery_does_not_mask_failures() {
    let mut scan = linux_scan();
    scan.devices = Err(String::from("udev failed"));
    let e = DefaultDiscovery.discover_default(HostScan::Linux(scan)).unwrap_err();
    assert_eq!(e.scanner, Scanner::PropertyService);
    let mut scan = mac_scan();
    scan.usb_devices = Err(String::from("bus failed"));
    let e = DefaultDiscovery.discover_default(HostScan::Mac(scan)).unwrap_err();
    assert_eq!(e.scanner, Scanner::UsbBus);
    assert_eq!(e.message, "bus failed");
}

#[test]
fn a_failure_is_reported_as_such() {
    let e = DiscoveryError { scanner: Scanner::UsbBus, message: String::from("no access") };
    assert_eq!(e.describe(), "could not enumerate printers on this host: no access");
    assert_eq!(report(&Err(e)), Some("could not enumerate printers on this host"));
}

#[test]
fn an_empty_result_is_reported_apart_from_a_failure() {
    assert_eq!(report(&Ok(Vec::new())), Some("no printers found"));
    let found = MacDiscovery::new().discover(mac_scan());
    assert_eq!(report(&found), None);
}
