use printer_discovery::fusion::{fuse, fuse_and_rank};
use printer_discovery::model::{Candidate, Transport};
use printer_discovery::ranking::rank;

fn node(path: &str, confidence: u8, note: &str) -> Candidate {
    Candidate::new(Transport::UsbLp { path: String::from(path) }, confidence, String::from(note))
}

fn tty(path: &str, confidence: u8, note: &str) -> Candidate {
    Candidate::new(Transport::Serial { path: String::from(path) }, confidence, String::from(note))
}

fn bus(vid: u16, pid: u16, serial: Option<&str>, confidence: u8, note: &str) -> Candidate {
    Candidate::new(
        Transport::UsbDevice { vid, pid, serial: serial.map(String::from) },
        confidence,
        String::from(note),
    )
}

fn first_notes(cands: &[Candidate]) -> Vec<String> {
    cands.iter().map(|c| c.notes()[0].clone()).collect()
}

fn confidences(cands: &[Candidate]) -> Vec<u8> {
    cands.iter().map(|c| c.confidence()).collect()
}

#[test]
fn rank_of_nothing_is_nothing() {
    assert!(rank(Vec::new()).is_empty());
    assert!(fuse(Vec::new()).is_empty());
    assert!(fuse_and_rank(Vec::new()).is_empty());
}

#[test]
fn rank_orders_by_confidence_highest_first() {
    let r = rank(vec![node("/a", 40, "a"), node("/b", 90, "b"), node("/c", 80, "c")]);
    assert_eq!(confidences(&r), vec![90, 80, 40]);
    assert_eq!(first_notes(&r), vec!["b", "c", "a"]);
}

#[test]
fn rank_is_stable() {
    let r = rank(vec![
        node("/a", 40, "a"),
        node("/b", 80, "b"),
        node("/c", 40, "c"),
        node("/d", 80, "d"),
        node("/e", 80, "e"),
        node("/f", 100, "f"),
        node("/g", 0, "g"),
        node("/h", 40, "h"),
    ]);
    assert_eq!(confidences(&r), vec![100, 80, 80, 80, 40, 40, 40, 0]);
    assert_eq!(first_notes(&r), vec!["f", "b", "d", "e", "a", "c", "h", "g"]);
}

#[test]
fn rank_keeps_a_sorted_list() {
    let r = rank(vec![node("/a", 90, "a"), node("/b", 90, "b"), node("/c", 10, "c")]);
    assert_eq!(first_notes(&r), vec!["a", "b", "c"]);
}

#[test]
fn rank_agrees_with_a_stable_sort() {
    let mut seed: u32 = 12345;
    let mut input: Vec<(u8, usize)> = Vec::new();
    for i in 0..200 {
        seed = seed.wrapping_mul(1664525).wrapping_add(1013904223);
        input.push((((seed >> 16) % 101) as u8, i));
    }
    let cands: Vec<Candidate> =
        input.iter().map(|(c, i)| node(&format!("/dev/{}", i), *c, &format!("{}", i))).collect();
    let mut expected = input.clone();
    expected.sort_by(|a, b| b.0.cmp(&a.0));
    let r = rank(cands);
    assert_eq!(r.len(), expected.len());
    for (got, want) in r.iter().zip(expected.iter()) {
        assert_eq!(got.confidence(), want.0);
        assert_eq!(got.notes()[0], format!("{}", want.1));
    }
}

#[test]
fn fuse_merges_two_candidates_of_one_key() {
    let mut a = node("/dev/usb/lp0", 80, "a1");
    a.raise_confidence(10, String::from("a2"));
    let b = node("/dev/usb/lp0", 90, "b1");
    let r = fuse(vec![a, b]);
    assert_eq!(r.len(), 1);
    assert_eq!(r[0].confidence(), 90);
    assert_eq!(r[0].notes(), &vec![String::from("a1"), String::from("a2"), String::from("b1")]);
}

#[test]
fn fuse_takes_the_first_value_that_is_present() {
    let a = node("/dev/usb/lp0", 80, "a");
    let mut b = tty("/dev/usb/lp0", 40, "b");
    b.fill_make_model(Some(String::from("from b")));
    b.fill_vid(Some(String::from("0b0b")));
    let mut c = node("/dev/usb/lp0", 60, "c");
    c.fill_make_model(Some(String::from("from c")));
    c.fill_serial(Some(String::from("SC")));
    c.fill_vid(Some(String::from("0c0c")));
    c.fill_pid(Some(String::from("0c0d")));
    let r = fuse(vec![a, b, c]);
    assert_eq!(r.len(), 1);
    assert!(matches!(r[0].transport(), Transport::UsbLp { .. }));
    assert_eq!(r[0].make_model(), &Some(String::from("from b")));
    assert_eq!(r[0].serial(), &Some(String::from("SC")));
    assert_eq!(r[0].vid(), &Some(String::from("0b0b")));
    assert_eq!(r[0].pid(), &Some(String::from("0c0d")));
    assert_eq!(r[0].confidence(), 80);
    assert_eq!(r[0].notes(), &vec![String::from("a"), String::from("b"), String::from("c")]);
}

#[test]
fn fuse_keeps_the_order_of_first_occurrence() {
    let r = fuse(vec![
        node("/x", 10, "x1"),
        node("/y", 20, "y1"),
        node("/x", 30, "x2"),
        node("/z", 40, "z1"),
        node("/y", 5, "y2"),
        node("/x", 1, "x3"),
    ]);
    assert_eq!(r.len(), 3);
    assert_eq!(r[0].transport_path(), Some("/x"));
    assert_eq!(r[1].transport_path(), Some("/y"));
    assert_eq!(r[2].transport_path(), Some("/z"));
    assert_eq!(confidences(&r), vec![30, 20, 40]);
    assert_eq!(r[0].notes(), &vec![String::from("x1"), String::from("x2"), String::from("x3")]);
    assert_eq!(r[1].notes(), &vec![String::from("y1"), String::from("y2")]);
    assert_eq!(r[2].notes(), &vec![String::from("z1")]);
}

#[test]
fn fuse_does_not_deduplicate_note_text() {
    let r = fuse(vec![node("/x", 10, "same"), node("/x", 10, "same")]);
    assert_eq!(r.len(), 1);
    assert_eq!(r[0].notes(), &vec![String::from("same"), String::from("same")]);
}

#[test]
fn fuse_leaves_distinct_keys_alone() {
    let r = fuse(vec![
        node("/x", 10, "a"),
        bus(1, 2, None, 20, "b"),
        bus(1, 2, Some("s"), 30, "c"),
        bus(1, 3, None, 40, "d"),
    ]);
    assert_eq!(r.len(), 4);
    assert_eq!(first_notes(&r), vec!["a", "b", "c", "d"]);
    assert_eq!(confidences(&r), vec![10, 20, 30, 40]);
}

#[test]
fn fuse_merges_bus_devices_with_equal_identifiers() {
    let r = fuse(vec![
        bus(1, 2, Some("s"), 80, "a"),
        bus(1, 2, Some("s"), 85, "b"),
        bus(1, 2, None, 80, "c"),
        bus(1, 2, None, 70, "d"),
    ]);
    assert_eq!(r.len(), 2);
    assert_eq!(confidences(&r), vec![85, 80]);
    assert_eq!(r[0].notes(), &vec![String::from("a"), String::from("b")]);
    assert_eq!(r[1].notes(), &vec![String::from("c"), String::from("d")]);
}

#[test]
fn shared_key_gives_one_candidate_with_maximum_and_all_notes() {
    let r = fuse_and_rank(vec![
        tty("/dev/ttyUSB0", 40, "serial"),
        node("/dev/usb/lp0", 80, "first"),
        node("/dev/usb/lp1", 95, "other"),
        node("/dev/usb/lp0", 90, "second"),
    ]);
    assert_eq!(r.len(), 3);
    let same: Vec<&Candidate> =
        r.iter().filter(|c| c.transport_path() == Some("/dev/usb/lp0")).collect();
    assert_eq!(same.len(), 1);
    assert_eq!(same[0].confidence(), 90);
    assert_eq!(same[0].notes(), &vec![String::from("first"), String::from("second")]);
    assert_eq!(confidences(&r), vec![95, 90, 40]);
}

#[test]
fn fuse_and_rank_breaks_ties_by_first_occurrence() {
    let r = fuse_and_rank(vec![
        node("/a", 50, "a"),
        node("/b", 80, "b"),
        node("/c", 20, "c"),
        node("/a", 80, "a2"),
        node("/d", 80, "d"),
    ]);
    assert_eq!(confidences(&r), vec![80, 80, 80, 20]);
    assert_eq!(first_notes(&r), vec!["a", "b", "d", "c"]);
}

#[test]
fn returned_confidences_are_in_range() {
    let r = fuse_and_rank(vec![
        node("/a", 100, "a"),
        node("/a", 0, "a2"),
        node("/b", 0, "b"),
        bus(1, 1, None, 100, "c"),
    ]);
    assert_eq!(r.len(), 3);
    for c in r.iter() {
        assert!(c.confidence() <= 100);
    }
    assert_eq!(confidences(&r), vec![100, 100, 0]);
}
