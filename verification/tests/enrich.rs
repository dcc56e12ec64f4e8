use printer_discovery::enrich::{
    build_udev_devnode_map, enrich_candidate, enrich_with_udev, is_useful, lookup, owned, prefer,
    DeviceRecord, Property, PropertyIndex,
};
use printer_discovery::model::{Candidate, Transport};

fn props(pairs: &[(&str, &str)]) -> Vec<Property> {
    pairs
        .iter()
        .map(|(n, v)| Property { name: String::from(*n), value: String::from(*v) })
        .collect()
}

fn device(node: Option<&str>, pairs: &[(&str, &str)]) -> DeviceRecord {
    DeviceRecord { devnode: node.map(String::from), properties: props(pairs) }
}

fn lp(path: &str) -> Candidate {
    Candidate::new(Transport::UsbLp { path: String::from(path) }, 80, String::from("lp"))
}

fn tty(path: &str) -> Candidate {
    Candidate::new(Transport::Serial { path: String::from(path) }, 40, String::from("tty"))
}

fn text(s: &str) -> Option<String> {
    Some(String::from(s))
}

#[test]
fn lookup_gives_the_value_of_a_name() {
    let p = props(&[("ID_VENDOR", "Epson"), ("ID_MODEL", "TM-T20")]);
    assert_eq!(lookup(&p, "ID_VENDOR"), Some(&String::from("Epson")));
    assert_eq!(lookup(&p, "ID_MODEL"), Some(&String::from("TM-T20")));
    assert_eq!(lookup(&p, "ID_SERIAL"), None);
    assert_eq!(lookup(&p, "ID_VENDOR_ID"), None);
    assert_eq!(lookup(&Vec::new(), "ID_VENDOR"), None);
}

#[test]
fn lookup_gives_the_value_listed_last() {
    let p = props(&[("ID_MODEL", "old"), ("ID_VENDOR", "v"), ("ID_MODEL", "new")]);
    assert_eq!(lookup(&p, "ID_MODEL"), Some(&String::from("new")));
}

#[test]
fn prefer_and_owned() {
    let a = String::from("a");
    let b = String::from("b");
    assert_eq!(prefer(Some(&a), Some(&b)), Some(&a));
    assert_eq!(prefer(None, Some(&b)), Some(&b));
    assert_eq!(prefer(Some(&a), None), Some(&a));
    assert_eq!(prefer(None, None), None);
    assert_eq!(owned(Some(&a)), text("a"));
    assert_eq!(owned(None), None);
}

#[test]
fn useful_records_name_a_vendor_a_model_or_interfaces() {
    assert!(is_useful(&props(&[("ID_MODEL", "m")])));
    assert!(is_useful(&props(&[("ID_MODEL_FROM_DATABASE", "m")])));
    assert!(is_useful(&props(&[("ID_VENDOR", "v")])));
    assert!(is_useful(&props(&[("ID_VENDOR_FROM_DATABASE", "v")])));
    assert!(is_useful(&props(&[("ID_USB_INTERFACES", ":070102:")])));
    assert!(!is_useful(&props(&[])));
    assert!(!is_useful(&props(&[("ID_SERIAL", "s"), ("ID_VENDOR_ID", "04b8"), ("DEVNAME", "x")])));
}

#[test]
fn index_holds_useful_records_with_a_device_node() {
    let index = build_udev_devnode_map(vec![
        device(Some("/dev/usb/lp0"), &[("ID_MODEL", "TM-T20")]),
        device(None, &[("ID_MODEL", "no node")]),
        device(Some("/dev/ttyUSB0"), &[("ID_SERIAL", "not useful")]),
        device(Some("/dev/ttyUSB1"), &[("ID_VENDOR", "Star")]),
    ]);
    assert_eq!(index.get("/dev/usb/lp0").map(|p| p.len()), Some(1));
    assert_eq!(lookup(index.get("/dev/usb/lp0").unwrap(), "ID_MODEL"), Some(&String::from("TM-T20")));
    assert!(index.get("/dev/ttyUSB0").is_none());
    assert!(index.get("/dev/ttyUSB1").is_some());
    assert!(index.get("/dev/usb/lp1").is_none());
    assert!(index.get("").is_none());
}

#[test]
fn index_keeps_the_later_record_of_a_node() {
    let index = build_udev_devnode_map(vec![
        device(Some("/dev/usb/lp0"), &[("ID_MODEL", "first"), ("ID_SERIAL", "s1")]),
        device(Some("/dev/usb/lp1"), &[("ID_MODEL", "other")]),
        device(Some("/dev/usb/lp0"), &[("ID_MODEL", "second")]),
        device(Some("/dev/usb/lp0"), &[("ID_SERIAL", "not useful, so no replacement")]),
    ]);
    let record = index.get("/dev/usb/lp0").unwrap();
    assert_eq!(lookup(record, "ID_MODEL"), Some(&String::from("second")));
    assert_eq!(lookup(record, "ID_SERIAL"), None);
    assert_eq!(lookup(index.get("/dev/usb/lp1").unwrap(), "ID_MODEL"), Some(&String::from("other")));
}

#[test]
fn empty_index_and_with_record() {
    let index = PropertyIndex::new();
    assert!(index.get("/dev/usb/lp0").is_none());
    let index = index.with_record(String::from("/dev/usb/lp0"), props(&[("A", "1")]));
    let index = index.with_record(String::from("/dev/usb/lp1"), props(&[("B", "2")]));
    let index = index.with_record(String::from("/dev/usb/lp0"), props(&[("C", "3")]));
    assert_eq!(lookup(index.get("/dev/usb/lp0").unwrap(), "C"), Some(&String::from("3")));
    assert_eq!(lookup(index.get("/dev/usb/lp0").unwrap(), "A"), None);
    assert_eq!(lookup(index.get("/dev/usb/lp1").unwrap(), "B"), Some(&String::from("2")));
}

#[test]
fn enrichment_prefers_the_database_names() {
    let mut c = lp("/dev/usb/lp0");
    enrich_candidate(
        &mut c,
        &props(&[
            ("ID_VENDOR", "Seiko_Epson_Corp."),
            ("ID_VENDOR_FROM_DATABASE", "Seiko Epson Corp."),
            ("ID_MODEL", "TM-T20II"),
            ("ID_MODEL_FROM_DATABASE", "Receipt Printer M267D"),
        ]),
    );
    assert_eq!(c.make_model(), &text("Seiko Epson Corp. Receipt Printer M267D"));
}

#[test]
fn enrichment_names_from_vendor_or_model_alone() {
    let mut a = lp("/dev/usb/lp0");
    enrich_candidate(&mut a, &props(&[("ID_MODEL", "TM-T20")]));
    assert_eq!(a.make_model(), &text("TM-T20"));
    let mut b = lp("/dev/usb/lp0");
    enrich_candidate(&mut b, &props(&[("ID_VENDOR", " Acme ")]));
    assert_eq!(b.make_model(), &text("Acme"));
    let mut c = lp("/dev/usb/lp0");
    enrich_candidate(&mut c, &props(&[("ID_VENDOR", "  "), ("ID_MODEL", "")]));
    assert_eq!(c.make_model(), &None);
    let mut d = lp("/dev/usb/lp0");
    enrich_candidate(&mut d, &props(&[("ID_USB_INTERFACES", ":ff0000:")]));
    assert_eq!(d.make_model(), &None);
    assert_eq!(d.confidence(), 80);
    assert_eq!(d.notes().len(), 1);
}

#[test]
fn enrichment_prefers_the_short_serial() {
    let mut a = lp("/dev/usb/lp0");
    enrich_candidate(
        &mut a,
        &props(&[("ID_SERIAL", "Epson_TM-T20_ABC123"), ("ID_SERIAL_SHORT", "ABC123")]),
    );
    assert_eq!(a.serial(), &text("ABC123"));
    let mut b = lp("/dev/usb/lp0");
    enrich_candidate(&mut b, &props(&[("ID_SERIAL", "Epson_TM-T20_ABC123")]));
    assert_eq!(b.serial(), &text("Epson_TM-T20_ABC123"));
}

#[test]
fn enrichment_copies_the_identifiers_verbatim() {
    let mut c = lp("/dev/usb/lp0");
    enrich_candidate(&mut c, &props(&[("ID_VENDOR_ID", "04B8"), ("ID_MODEL_ID", "0e15")]));
    assert_eq!(c.vid(), &text("04B8"));
    assert_eq!(c.pid(), &text("0e15"));
}

#[test]
fn enrichment_only_fills_gaps() {
    let mut c = lp("/dev/usb/lp0");
    c.fill_make_model(text("Scanner Name"));
    c.fill_serial(text("SCAN"));
    c.fill_vid(text("1111"));
    c.fill_pid(text("2222"));
    enrich_candidate(
        &mut c,
        &props(&[
            ("ID_VENDOR", "Epson"),
            ("ID_MODEL", "TM-T20"),
            ("ID_SERIAL_SHORT", "ABC"),
            ("ID_VENDOR_ID", "04b8"),
            ("ID_MODEL_ID", "0e15"),
        ]),
    );
    assert_eq!(c.make_model(), &text("Scanner Name"));
    assert_eq!(c.serial(), &text("SCAN"));
    assert_eq!(c.vid(), &text("1111"));
    assert_eq!(c.pid(), &text("2222"));
    assert_eq!(c.confidence(), 80);
    assert_eq!(c.notes().len(), 1);
}

#[test]
fn printer_class_in_the_interface_list_raises_to_ninety() {
    for list in [":070102:", "0701", ":0700:", "07", ":ff0000:070102:"] {
        let mut c = tty("/dev/ttyUSB0");
        enrich_candidate(&mut c, &props(&[("ID_USB_INTERFACES", list)]));
        assert_eq!(c.confidence(), 90, "list {:?}", list);
        assert_eq!(
            c.notes(),
            &vec![
                String::from("tty"),
                String::from("udev: ID_USB_INTERFACES indicates USB printer class (07)")
            ]
        );
    }
}

#[test]
fn other_interface_lists_raise_nothing() {
    for list in ["", ":ff0000:", ":0e0100:0e0200:", ":0a0000:", "7"] {
        let mut c = tty("/dev/ttyUSB0");
        enrich_candidate(&mut c, &props(&[("ID_USB_INTERFACES", list)]));
        assert_eq!(c.confidence(), 40, "list {:?}", list);
        assert_eq!(c.notes().len(), 1);
    }
}

#[test]
fn named_serial_device_is_raised_to_sixty() {
    let mut c = tty("/dev/ttyUSB0");
    enrich_candidate(&mut c, &props(&[("ID_VENDOR", "FTDI"), ("ID_MODEL", "FT232R")]));
    assert_eq!(c.make_model(), &text("FTDI FT232R"));
    assert_eq!(c.confidence(), 60);
    assert_eq!(
        c.notes(),
        &vec![String::from("tty"), String::from("udev: USB-backed serial device with a display name")]
    );
}

#[test]
fn all_applicable_floors_are_applied_in_order() {
    let mut c = tty("/dev/ttyACM0");
    enrich_candidate(
        &mut c,
        &props(&[
            ("ID_VENDOR", "Star"),
            ("ID_MODEL", "TSP143"),
            ("ID_USB_INTERFACES", ":070102:"),
        ]),
    );
    assert_eq!(c.confidence(), 90);
    assert_eq!(
        c.notes(),
        &vec![
            String::from("tty"),
            String::from("udev: USB-backed serial device with a display name"),
            String::from("udev: ID_USB_INTERFACES indicates USB printer class (07)"),
            String::from("make/model contains keyword 'star'"),
        ]
    );
}

#[test]
fn keyword_raises_a_serial_device_to_seventy() {
    let mut c = tty("/dev/ttyUSB0");
    enrich_candidate(&mut c, &props(&[("ID_MODEL", "POS-58 THERMAL")]));
    assert_eq!(c.confidence(), 70);
    assert_eq!(
        c.notes(),
        &vec![
            String::from("tty"),
            String::from("udev: USB-backed serial device with a display name"),
            String::from("make/model contains keyword 'pos'"),
        ]
    );
}

#[test]
fn keyword_note_of_a_named_serial_node_comes_last() {
    let index = build_udev_devnode_map(vec![device(
        Some("/dev/ttyACM0"),
        &[("ID_VENDOR", "STAR"), ("ID_MODEL", "TSP100")],
    )]);
    let node = Candidate::new(
        Transport::Serial { path: String::from("/dev/ttyACM0") },
        40,
        String::from("Found serial device node (/dev/ttyACM*)"),
    );
    let r = enrich_with_udev(vec![node], &index);
    assert_eq!(r.len(), 1);
    assert_eq!(r[0].make_model(), &text("STAR TSP100"));
    assert_eq!(r[0].confidence(), 70);
    assert_eq!(
        r[0].notes(),
        &vec![
            String::from("Found serial device node (/dev/ttyACM*)"),
            String::from("udev: USB-backed serial device with a display name"),
            String::from("make/model contains keyword 'star'"),
        ]
    );
}

#[test]
fn enrichment_is_monotonic_on_examples() {
    let records = [
        props(&[]),
        props(&[("ID_MODEL", "x")]),
        props(&[("ID_MODEL", "Epson")]),
        props(&[("ID_USB_INTERFACES", ":070102:")]),
        props(&[("ID_USB_INTERFACES", ":070102:"), ("ID_VENDOR", "Citizen")]),
    ];
    for start in [0u8, 35, 40, 60, 61, 70, 80, 90, 95, 100] {
        for record in records.iter() {
            for serial in [false, true] {
                let transport = if serial {
                    Transport::Serial { path: String::from("/dev/ttyUSB0") }
                } else {
                    Transport::UsbLp { path: String::from("/dev/usb/lp0") }
                };
                let mut c = Candidate::new(transport, start, String::from("n"));
                enrich_candidate(&mut c, record);
                assert!(c.confidence() >= start);
                assert!(c.confidence() <= 100);
                assert_eq!(c.notes()[0], "n");
            }
        }
    }
}

#[test]
fn enrich_list_uses_the_record_of_each_path() {
    let index = build_udev_devnode_map(vec![
        device(Some("/dev/usb/lp0"), &[("ID_VENDOR", "Epson"), ("ID_MODEL", "TM-T20")]),
        device(Some("/dev/ttyUSB0"), &[("ID_MODEL", "FT232R")]),
    ]);
    let bus = Candidate::new(
        Transport::UsbDevice { vid: 1, pid: 2, serial: None },
        80,
        String::from("bus"),
    );
    let r = enrich_with_udev(
        vec![lp("/dev/usb/lp0"), lp("/dev/usb/lp1"), tty("/dev/ttyUSB0"), bus],
        &index,
    );
    assert_eq!(r.len(), 4);
    assert_eq!(r[0].make_model(), &text("Epson TM-T20"));
    assert_eq!(r[0].confidence(), 80);
    assert_eq!(r[0].notes().len(), 2);
    assert_eq!(r[1].make_model(), &None);
    assert_eq!(r[1].confidence(), 80);
    assert_eq!(r[1].notes().len(), 1);
    assert_eq!(r[2].make_model(), &text("FT232R"));
    assert_eq!(r[2].confidence(), 60);
    assert_eq!(r[3].make_model(), &None);
    assert_eq!(r[3].confidence(), 80);
    assert_eq!(r[3].notes(), &vec![String::from("bus")]);
}
