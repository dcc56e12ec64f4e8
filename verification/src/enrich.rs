//! Enrichment: what the platform's property service knows of a device node
//! fills the gaps of a candidate and raises its confidence.
use crate::heuristics::{
    apply_keyword_floor, apply_named_serial_floor, named_serial_node_note, printer_class_note,
    with_keyword_floor, with_named_serial_floor, PRINTER_CLASS_FLOOR,
};
use crate::model::{all_bounded, first_present, Candidate, CandidateView};
use crate::text::{chars_of, contains, has_infix, join_names, joined_name, same_chars};
use vstd::prelude::*;
use vstd::string::*;

verus! {

/// One property of a device: a name and its value.
#[derive(Debug, Clone)]
pub struct Property {
    pub name: String,
    pub value: String,
}

/// The mathematical value of a [`Property`].
pub struct PropertyView {
    pub name: Seq<char>,
    pub value: Seq<char>,
}

impl View for Property {
    type V = PropertyView;

    open spec fn view(&self) -> PropertyView {
        PropertyView { name: self.name@, value: self.value@ }
    }
}

impl DeepView for Property {
    type V = PropertyView;

    open spec fn deep_view(&self) -> PropertyView {
        self@
    }
}

/// What the property service reports of one device: its device node, where
/// it has one, and its properties in the order in which they were listed.
#[derive(Debug, Clone)]
pub struct DeviceRecord {
    pub devnode: Option<String>,
    pub properties: Vec<Property>,
}

/// The mathematical value of a [`DeviceRecord`].
pub struct DeviceRecordView {
    pub devnode: Option<Seq<char>>,
    pub properties: Seq<PropertyView>,
}

impl View for DeviceRecord {
    type V = DeviceRecordView;

    open spec fn view(&self) -> DeviceRecordView {
        DeviceRecordView {
            devnode: self.devnode.deep_view(),
            properties: self.properties.deep_view(),
        }
    }
}

impl DeepView for DeviceRecord {
    type V = DeviceRecordView;

    open spec fn deep_view(&self) -> DeviceRecordView {
        self@
    }
}

/// The vendor's name from the hardware database.
pub open spec fn vendor_from_database() -> Seq<char> {
    "ID_VENDOR_FROM_DATABASE"@
}

/// The vendor's name as the device gives it.
pub open spec fn vendor_raw() -> Seq<char> {
    "ID_VENDOR"@
}

/// The model's name from the hardware database.
pub open spec fn model_from_database() -> Seq<char> {
    "ID_MODEL_FROM_DATABASE"@
}

/// The model's name as the device gives it.
pub open spec fn model_raw() -> Seq<char> {
    "ID_MODEL"@
}

/// The short form of the serial number.
pub open spec fn serial_short() -> Seq<char> {
    "ID_SERIAL_SHORT"@
}

/// The full serial string.
pub open spec fn serial_full() -> Seq<char> {
    "ID_SERIAL"@
}

/// The vendor identifier in hexadecimal.
pub open spec fn vendor_id() -> Seq<char> {
    "ID_VENDOR_ID"@
}

/// The product identifier in hexadecimal.
pub open spec fn model_id() -> Seq<char> {
    "ID_MODEL_ID"@
}

/// The list of the interfaces that the device declares.
pub open spec fn usb_interfaces() -> Seq<char> {
    "ID_USB_INTERFACES"@
}

/// The class byte of a printer interface, as the interface list writes it.
pub open spec fn printer_class_pattern() -> Seq<char> {
    "07"@
}

/// The value of the property `name`: where the name is listed more than
/// once, the value that was listed last.
pub open spec fn property(props: Seq<PropertyView>, name: Seq<char>) -> Option<Seq<char>>
    decreases props.len(),
{
    if props.len() == 0 {
        None
    } else if props.last().name == name {
        Some(props.last().value)
    } else {
        property(props.drop_last(), name)
    }
}

/// Whether a record says anything of use: a vendor, a model, or an interface
/// list.
pub open spec fn useful(props: Seq<PropertyView>) -> bool {
    ||| property(props, model_raw()) is Some
    ||| property(props, model_from_database()) is Some
    ||| property(props, vendor_raw()) is Some
    ||| property(props, vendor_from_database()) is Some
    ||| property(props, usb_interfaces()) is Some
}

/// The display name that a record gives: vendor and model, each from the
/// hardware database where it is there and else as the device gives it,
/// joined and trimmed. None where nothing is left.
pub open spec fn resolved_name(props: Seq<PropertyView>) -> Option<Seq<char>> {
    let vendor = first_present(property(props, vendor_from_database()), property(props, vendor_raw()));
    let model = first_present(property(props, model_from_database()), property(props, model_raw()));
    let name = joined_name(vendor, model);
    if name.len() > 0 {
        Some(name)
    } else {
        None
    }
}

/// The serial number that a record gives: the short form where it is there,
/// else the full string.
pub open spec fn resolved_serial(props: Seq<PropertyView>) -> Option<Seq<char>> {
    first_present(property(props, serial_short()), property(props, serial_full()))
}

/// Whether the interface list of a record holds the printer class.
pub open spec fn declares_printer_class(props: Seq<PropertyView>) -> bool {
    match property(props, usb_interfaces()) {
        Some(list) => has_infix(list, printer_class_pattern()),
        None => false,
    }
}

/// The candidate with its gaps filled from a record. A field that is present
/// stays as it is.
pub open spec fn filled(c: CandidateView, props: Seq<PropertyView>) -> CandidateView {
    c.with_make_model(resolved_name(props)).with_serial(resolved_serial(props)).with_vid(
        property(props, vendor_id()),
    ).with_pid(property(props, model_id()))
}

/// The candidate with the floor of the printer class, where the record
/// declares it.
pub open spec fn with_printer_class_floor(
    c: CandidateView,
    props: Seq<PropertyView>,
) -> CandidateView {
    if declares_printer_class(props) {
        c.raised(PRINTER_CLASS_FLOOR, printer_class_note())
    } else {
        c
    }
}

/// The candidate enriched from its record: gaps filled, then each floor that
/// applies, in the order named serial device, printer class, brand keyword.
pub open spec fn enriched_with(c: CandidateView, props: Seq<PropertyView>) -> CandidateView {
    with_keyword_floor(
        with_printer_class_floor(
            with_named_serial_floor(filled(c, props), named_serial_node_note()),
            props,
        ),
    )
}

/// The index of the records by device node: the useful records that have a
/// device node, a later record replacing an earlier one of the same node.
pub open spec fn indexed(devices: Seq<DeviceRecordView>) -> Map<Seq<char>, Seq<PropertyView>>
    decreases devices.len(),
{
    if devices.len() == 0 {
        Map::empty()
    } else {
        let before = indexed(devices.drop_last());
        match devices.last().devnode {
            Some(node) => if useful(devices.last().properties) {
                before.insert(node, devices.last().properties)
            } else {
                before
            },
            None => before,
        }
    }
}

/// The candidate enriched from the index: from the record of its device
/// node. A candidate without a device node, or without a record, stays as it
/// is.
pub open spec fn enriched_one(
    c: CandidateView,
    index: Map<Seq<char>, Seq<PropertyView>>,
) -> CandidateView {
    match c.transport.path() {
        Some(path) => if index.contains_key(path) {
            enriched_with(c, index[path])
        } else {
            c
        },
        None => c,
    }
}

/// The candidates enriched from the index, each in its place.
pub open spec fn enriched(
    s: Seq<CandidateView>,
    index: Map<Seq<char>, Seq<PropertyView>>,
) -> Seq<CandidateView> {
    Seq::new(s.len(), |i: int| enriched_one(s[i], index))
}

/// The subsystems of the property service whose devices are listed.
pub open spec fn subsystems() -> Seq<Seq<char>> {
    seq!["usb"@, "tty"@, "usbmisc"@, "printer"@, "lp"@]
}

/// The subsystems of the property service whose devices are listed.
pub fn udev_subsystems() -> (r: Vec<&'static str>)
    ensures
        r.deep_view() == subsystems(),
{
    let mut r: Vec<&'static str> = Vec::new();
    r.push("usb");
    r.push("tty");
    r.push("usbmisc");
    r.push("printer");
    r.push("lp");
    assert(r.deep_view() =~= subsystems());
    r
}

/// The value of the property `name`: where the name is listed more than
/// once, the value that was listed last.
pub fn lookup<'a>(props: &'a Vec<Property>, name: &str) -> (r: Option<&'a String>)
    ensures
        r.deep_view() == property(props.deep_view(), name@),
{
    let mut i = props.len();
    assert(props.deep_view().take(i as int) =~= props.deep_view());
    while i > 0
        invariant
            i <= props.len(),
            property(props.deep_view(), name@) == property(props.deep_view().take(i as int), name@),
        decreases i,
    {
        let ghost part = props.deep_view().take(i as int);
        assert(part.last() == props@[i - 1]@);
        assert(part.drop_last() =~= props.deep_view().take(i - 1));
        if same_chars(props[i - 1].name.as_str(), name) {
            return Some(&props[i - 1].value);
        }
        i -= 1;
    }
    None
}


/// The first of two optional strings that is present.
pub fn prefer<'a>(a: Option<&'a String>, b: Option<&'a String>) -> (r: Option<&'a String>)
    ensures
        r.deep_view() == first_present(a.deep_view(), b.deep_view()),
{
    match a {
        Some(_) => a,
        None => b,
    }
}

/// A copy of an optional string that is borrowed.
pub fn owned(t: Option<&String>) -> (r: Option<String>)
    ensures
        r.deep_view() == t.deep_view(),
{
    match t {
        Some(s) => Some(s.clone()),
        None => None,
    }
}

/// Whether a record says anything of use: a vendor, a model, or an interface
/// list.
pub fn is_useful(props: &Vec<Property>) -> (r: bool)
    ensures
        r == useful(props.deep_view()),
{
    lookup(props, "ID_MODEL").is_some() || lookup(props, "ID_MODEL_FROM_DATABASE").is_some()
        || lookup(props, "ID_VENDOR").is_some() || lookup(props, "ID_VENDOR_FROM_DATABASE").is_some()
        || lookup(props, "ID_USB_INTERFACES").is_some()
}

/// Enriches a candidate from the record of its device node: fills the gaps,
/// then applies each floor that the record supports: that of a named serial
/// device first, then that of the printer class, then that of a brand
/// keyword, so that the notes stand in this order.
pub fn enrich_candidate(c: &mut Candidate, props: &Vec<Property>)
    ensures
        final(c)@ == enriched_with(old(c)@, props.deep_view()),
{
    let vendor = prefer(lookup(props, "ID_VENDOR_FROM_DATABASE"), lookup(props, "ID_VENDOR"));
    let model = prefer(lookup(props, "ID_MODEL_FROM_DATABASE"), lookup(props, "ID_MODEL"));
    let name = join_names(vendor, model);
    if !name.as_str().is_empty() {
        c.fill_make_model(Some(name));
    }
    c.fill_serial(owned(prefer(lookup(props, "ID_SERIAL_SHORT"), lookup(props, "ID_SERIAL"))));
    c.fill_vid(owned(lookup(props, "ID_VENDOR_ID")));
    c.fill_pid(owned(lookup(props, "ID_MODEL_ID")));
    assert(c@ == filled(old(c)@, props.deep_view()));
    apply_named_serial_floor(
        c,
        String::from_str("udev: USB-backed serial device with a display name"),
    );
    let declared = match lookup(props, "ID_USB_INTERFACES") {
        Some(list) => contains(&chars_of(list.as_str()), &chars_of("07")),
        None => false,
    };
    if declared {
        c.raise_confidence(
            PRINTER_CLASS_FLOOR,
            String::from_str("udev: ID_USB_INTERFACES indicates USB printer class (07)"),
        );
    }
    apply_keyword_floor(c);
}

/// The map from nodes to records, a later pair replacing an earlier one of
/// the same node.
pub open spec fn paired(
    nodes: Seq<Seq<char>>,
    records: Seq<Seq<PropertyView>>,
) -> Map<Seq<char>, Seq<PropertyView>>
    decreases nodes.len(),
{
    if nodes.len() == 0 || records.len() == 0 {
        Map::empty()
    } else {
        paired(nodes.drop_last(), records.drop_last()).insert(nodes.last(), records.last())
    }
}

/// Whether no node is listed twice.
pub open spec fn distinct_nodes(nodes: Seq<Seq<char>>) -> bool {
    forall|i: int, j: int| 0 <= i < j < nodes.len() ==> nodes[i] != nodes[j]
}

proof fn lemma_paired_keys(nodes: Seq<Seq<char>>, records: Seq<Seq<PropertyView>>, k: Seq<char>)
    requires
        nodes.len() == records.len(),
    ensures
        paired(nodes, records).contains_key(k) <==> exists|i: int|
            0 <= i < nodes.len() && #[trigger] nodes[i] == k,
    decreases nodes.len(),
{
    if nodes.len() > 0 {
        let n = nodes.drop_last();
        lemma_paired_keys(n, records.drop_last(), k);
        if exists|i: int| 0 <= i < n.len() && #[trigger] n[i] == k {
            let i = choose|i: int| 0 <= i < n.len() && #[trigger] n[i] == k;
            assert(nodes[i] == k);
        }
        if exists|i: int| 0 <= i < nodes.len() && #[trigger] nodes[i] == k {
            let i = choose|i: int| 0 <= i < nodes.len() && #[trigger] nodes[i] == k;
            if i < n.len() {
                assert(n[i] == k);
            }
        }
    }
}

proof fn lemma_paired_value(nodes: Seq<Seq<char>>, records: Seq<Seq<PropertyView>>, j: int)
    requires
        nodes.len() == records.len(),
        distinct_nodes(nodes),
        0 <= j < nodes.len(),
    ensures
        paired(nodes, records).contains_key(nodes[j]),
        paired(nodes, records)[nodes[j]] == records[j],
    decreases nodes.len(),
{
    if j < nodes.len() - 1 {
        let n = nodes.drop_last();
        assert(n[j] == nodes[j]);
        assert forall|a: int, b: int| 0 <= a < b < n.len() implies n[a] != n[b] by {
            assert(n[a] == nodes[a] && n[b] == nodes[b]);
        }
        lemma_paired_value(n, records.drop_last(), j);
    }
}

proof fn lemma_paired_update(
    nodes: Seq<Seq<char>>,
    records: Seq<Seq<PropertyView>>,
    j: int,
    r: Seq<PropertyView>,
)
    requires
        nodes.len() == records.len(),
        distinct_nodes(nodes),
        0 <= j < nodes.len(),
    ensures
        paired(nodes, records.update(j, r)) == paired(nodes, records).insert(nodes[j], r),
    decreases nodes.len(),
{
    let n = nodes.drop_last();
    let rs = records.drop_last();
    if j == nodes.len() - 1 {
        assert(records.update(j, r).drop_last() =~= rs);
        assert(paired(n, rs).insert(nodes[j], r) =~= paired(n, rs).insert(
            nodes[j],
            records.last(),
        ).insert(nodes[j], r));
    } else {
        assert(n[j] == nodes[j]);
        assert forall|a: int, b: int| 0 <= a < b < n.len() implies n[a] != n[b] by {
            assert(n[a] == nodes[a] && n[b] == nodes[b]);
        }
        lemma_paired_update(n, rs, j, r);
        assert(records.update(j, r).drop_last() =~= rs.update(j, r));
        assert(nodes[j] != nodes.last());
        assert(paired(n, rs).insert(nodes[j], r).insert(nodes.last(), records.last()) =~= paired(
            n,
            rs,
        ).insert(nodes.last(), records.last()).insert(nodes[j], r));
    }
}

/// The records of the property service by device node. No node has two
/// records.
#[derive(Debug)]
pub struct PropertyIndex {
    nodes: Vec<String>,
    records: Vec<Vec<Property>>,
}

impl View for PropertyIndex {
    type V = Map<Seq<char>, Seq<PropertyView>>;

    closed spec fn view(&self) -> Map<Seq<char>, Seq<PropertyView>> {
        paired(self.nodes.deep_view(), self.records.deep_view())
    }
}

impl PropertyIndex {
    #[verifier::type_invariant]
    spec fn well_formed(&self) -> bool {
        &&& self.nodes.len() == self.records.len()
        &&& distinct_nodes(self.nodes.deep_view())
    }

    /// An index without records.
    pub fn new() -> (r: PropertyIndex)
        ensures
            r@ == Map::<Seq<char>, Seq<PropertyView>>::empty(),
    {
        PropertyIndex { nodes: Vec::new(), records: Vec::new() }
    }

    /// The position of a node among the nodes of the index.
    fn position(&self, node: &str) -> (r: Option<usize>)
        ensures
            match r {
                Some(j) => j < self.nodes.len() && self.nodes@[j as int]@ == node@,
                None => forall|i: int| 0 <= i < self.nodes.len() ==> (#[trigger] self.nodes@[i])@ != node@,
            },
    {
        let n = self.nodes.len();
        let mut j: usize = 0;
        while j < n
            invariant
                n == self.nodes.len(),
                j <= n,
                forall|i: int| 0 <= i < j ==> (#[trigger] self.nodes@[i])@ != node@,
            decreases n - j,
        {
            if same_chars(self.nodes[j].as_str(), node) {
                return Some(j);
            }
            j += 1;
        }
        None
    }

    /// The record of a device node, where the index has one.
    pub fn get(&self, node: &str) -> (r: Option<&Vec<Property>>)
        ensures
            match r {
                Some(props) => self@.contains_key(node@) && self@[node@] == props.deep_view(),
                None => !self@.contains_key(node@),
            },
    {
        proof {
            use_type_invariant(self);
            lemma_paired_keys(self.nodes.deep_view(), self.records.deep_view(), node@);
        }
        match self.position(node) {
            Some(j) => {
                proof {
                    lemma_paired_value(self.nodes.deep_view(), self.records.deep_view(), j as int);
                }
                Some(&self.records[j])
            },
            None => {
                assert forall|i: int| 0 <= i < self.nodes.deep_view().len() implies (
                #[trigger] self.nodes.deep_view()[i]) != node@ by {
                    assert(self.nodes.deep_view()[i] == self.nodes@[i]@);
                }
                None
            },
        }
    }

    /// The index with the record of a device node: in place of the record
    /// that the node had, where it had one.
    pub fn with_record(self, node: String, props: Vec<Property>) -> (r: PropertyIndex)
        ensures
            r@ == self@.insert(node@, props.deep_view()),
    {
        proof {
            use_type_invariant(&self);
        }
        let found = self.position(node.as_str());
        let PropertyIndex { mut nodes, mut records } = self;
        let ghost old_nodes = nodes.deep_view();
        let ghost old_records = records.deep_view();
        match found {
            Some(j) => {
                proof {
                    lemma_paired_update(old_nodes, old_records, j as int, props.deep_view());
                    assert(old_nodes[j as int] == nodes@[j as int]@);
                }
                let ghost new_props = props.deep_view();
                records.set(j, props);
                assert(records.deep_view() =~= old_records.update(j as int, new_props));
            },
            None => {
                let ghost new_props = props.deep_view();
                nodes.push(node);
                records.push(props);
                assert(nodes.deep_view() =~= old_nodes.push(node@));
                assert(records.deep_view() =~= old_records.push(new_props));
                assert(nodes.deep_view().drop_last() =~= old_nodes);
                assert(records.deep_view().drop_last() =~= old_records);
                assert forall|a: int, b: int| 0 <= a < b < nodes.deep_view().len() implies nodes.deep_view()[a]
                    != nodes.deep_view()[b] by {
                    assert(nodes.deep_view()[a] == old_nodes[a]);
                    if b < old_nodes.len() {
                        assert(nodes.deep_view()[b] == old_nodes[b]);
                    } else {
                        assert(old_nodes[a] == self.nodes@[a]@);
                    }
                }
            },
        }
        PropertyIndex { nodes, records }
    }
}

/// Indexes the records of the property service by device node. A record
/// without a device node, or without anything of use, is left out; of two
/// records of one node the later stays.
pub fn build_udev_devnode_map(devices: Vec<DeviceRecord>) -> (r: PropertyIndex)
    ensures
        r@ == indexed(devices.deep_view()),
{
    let mut index = PropertyIndex::new();
    let ghost all = devices.deep_view();
    assert(all.take(0) =~= Seq::<DeviceRecordView>::empty());
    for device in it: devices
        invariant
            it.seq().len() == all.len(),
            forall|k: int| 0 <= k < all.len() ==> (#[trigger] it.seq()[k])@ == all[k],
            index@ == indexed(all.take(it.index() as int)),
    {
        proof {
            let next = all.take(it.index() + 1);
            assert(next.drop_last() =~= all.take(it.index() as int));
            assert(next.last() == device@);
        }
        let DeviceRecord { devnode, properties } = device;
        match devnode {
            Some(node) => {
                if is_useful(&properties) {
                    index = index.with_record(node, properties);
                }
            },
            None => {},
        }
    }
    assert(all.take(all.len() as int) =~= all);
    index
}

/// Enriches each candidate that has a device node from the record of that
/// node. A candidate without a device node, or without a record, stays as it
/// is.
pub fn enrich_with_udev(cands: Vec<Candidate>, index: &PropertyIndex) -> (r: Vec<Candidate>)
    ensures
        r.deep_view() == enriched(cands.deep_view(), index@),
        r.len() == cands.len(),
        forall|i: int|
            0 <= i < r.len() ==> (#[trigger] r.deep_view()[i]).confidence
                >= cands.deep_view()[i].confidence,
        all_bounded(r.deep_view()),
{
    let mut out: Vec<Candidate> = Vec::new();
    let ghost all = cands.deep_view();
    for c in it: cands
        invariant
            it.seq().len() == all.len(),
            forall|k: int| 0 <= k < all.len() ==> (#[trigger] it.seq()[k])@ == all[k],
            out.len() == it.index(),
            forall|k: int|
                0 <= k < out.len() ==> (#[trigger] out@[k])@ == enriched_one(all[k], index@),
            forall|k: int|
                0 <= k < out.len() ==> (#[trigger] out@[k])@.confidence
                    <= crate::model::MAX_CONFIDENCE,
    {
        let mut c = c;
        let record = match c.transport_path() {
            Some(path) => index.get(path),
            None => None,
        };
        if let Some(props) = record {
            enrich_candidate(&mut c, props);
        }
        proof {
            use_type_invariant(&c);
            crate::model::lemma_in_range(c);
        }
        out.push(c);
    }
    assert(out.deep_view() =~= enriched(all, index@));
    proof {
        assert forall|i: int| 0 <= i < out.len() implies (#[trigger] out.deep_view()[i]).confidence
            >= all[i].confidence by {
            lemma_enrichment_is_monotonic(all[i], index@);
        }
    }
    out
}

/// Enrichment from a record never lowers a confidence, keeps the transport,
/// keeps each optional field that is present, and keeps the notes in front
/// of those that it adds.
pub proof fn lemma_enriched_with_keeps(c: CandidateView, props: Seq<PropertyView>)
    ensures
        enriched_with(c, props).confidence >= c.confidence,
        enriched_with(c, props).transport == c.transport,
        c.make_model is Some ==> enriched_with(c, props).make_model == c.make_model,
        c.serial is Some ==> enriched_with(c, props).serial == c.serial,
        c.vid is Some ==> enriched_with(c, props).vid == c.vid,
        c.pid is Some ==> enriched_with(c, props).pid == c.pid,
        c.notes.is_prefix_of(enriched_with(c, props).notes),
        c.confidence <= crate::model::MAX_CONFIDENCE ==> enriched_with(c, props).confidence
            <= crate::model::MAX_CONFIDENCE,
{
    let a = filled(c, props);
    let b = with_named_serial_floor(a, named_serial_node_note());
    let d = with_printer_class_floor(b, props);
    let e = with_keyword_floor(d);
    assert(a.notes =~= c.notes);
    assert(a.notes.is_prefix_of(b.notes));
    assert(b.notes.is_prefix_of(d.notes));
    assert(d.notes.is_prefix_of(e.notes));
}

/// Enrichment is monotonic: the confidence of a candidate after it is at
/// least the confidence before.
pub proof fn lemma_enrichment_is_monotonic(
    c: CandidateView,
    index: Map<Seq<char>, Seq<PropertyView>>,
)
    ensures
        enriched_one(c, index).confidence >= c.confidence,
        enriched_one(c, index).transport == c.transport,
        c.notes.is_prefix_of(enriched_one(c, index).notes),
        c.make_model is Some ==> enriched_one(c, index).make_model == c.make_model,
        c.serial is Some ==> enriched_one(c, index).serial == c.serial,
        c.vid is Some ==> enriched_one(c, index).vid == c.vid,
        c.pid is Some ==> enriched_one(c, index).pid == c.pid,
        c.transport.path() is None ==> enriched_one(c, index) == c,
        c.transport.path() is Some && !index.contains_key(c.transport.path()->0) ==> enriched_one(
            c,
            index,
        ) == c,
{
    match c.transport.path() {
        Some(path) => {
            if index.contains_key(path) {
                lemma_enriched_with_keeps(c, index[path]);
            }
        },
        None => {},
    }
}

/// Enrichment keeps confidences in range.
pub proof fn lemma_enriched_in_range(
    s: Seq<CandidateView>,
    index: Map<Seq<char>, Seq<PropertyView>>,
)
    requires
        all_bounded(s),
    ensures
        all_bounded(enriched(s, index)),
{
    assert forall|i: int| 0 <= i < s.len() implies (#[trigger] enriched(s, index)[i]).confidence
        <= crate::model::MAX_CONFIDENCE by {
        match s[i].transport.path() {
            Some(path) => {
                if index.contains_key(path) {
                    lemma_enriched_with_keeps(s[i], index[path]);
                }
            },
            None => {},
        }
    }
}

} // verus!
