//! The shared data shape of discovery: where an endpoint is reached, and what
//! is known of the printer behind it.
use vstd::prelude::*;
use vstd::string::*;

verus! {

/// The highest confidence a candidate can carry.
pub const MAX_CONFIDENCE: u8 = 100;

/// How an endpoint is reached: a device node of the printer class, a device
/// node of a serial adapter, or a device on the bus named by its identifiers.
#[derive(Debug)]
pub enum Transport {
    UsbLp { path: String },
    Serial { path: String },
    UsbDevice { vid: u16, pid: u16, serial: Option<String> },
}

/// The mathematical value of a [`Transport`].
pub enum TransportView {
    UsbLp { path: Seq<char> },
    Serial { path: Seq<char> },
    UsbDevice { vid: u16, pid: u16, serial: Option<Seq<char>> },
}

/// The value by which two discoveries of one endpoint are recognised: the
/// device node's path, or the identifiers of a device on the bus.
#[derive(Debug, Clone)]
pub enum DedupKey {
    Node { path: String },
    Device { vid: u16, pid: u16, serial: Option<String> },
}

/// The mathematical value of a [`DedupKey`].
pub enum DedupKeyView {
    Node { path: Seq<char> },
    Device { vid: u16, pid: u16, serial: Option<Seq<char>> },
}

impl TransportView {
    /// The device node's path, where the endpoint is a device node.
    pub open spec fn path(self) -> Option<Seq<char>> {
        match self {
            TransportView::UsbLp { path } => Some(path),
            TransportView::Serial { path } => Some(path),
            TransportView::UsbDevice { .. } => None,
        }
    }

    /// The key under which the endpoint is merged with other discoveries.
    pub open spec fn key(self) -> DedupKeyView {
        match self {
            TransportView::UsbLp { path } => DedupKeyView::Node { path },
            TransportView::Serial { path } => DedupKeyView::Node { path },
            TransportView::UsbDevice { vid, pid, serial } => DedupKeyView::Device {
                vid,
                pid,
                serial,
            },
        }
    }
}

impl View for Transport {
    type V = TransportView;

    open spec fn view(&self) -> TransportView {
        match self {
            Transport::UsbLp { path } => TransportView::UsbLp { path: path@ },
            Transport::Serial { path } => TransportView::Serial { path: path@ },
            Transport::UsbDevice { vid, pid, serial } => TransportView::UsbDevice {
                vid: *vid,
                pid: *pid,
                serial: serial.deep_view(),
            },
        }
    }
}

impl DeepView for Transport {
    type V = TransportView;

    open spec fn deep_view(&self) -> TransportView {
        self@
    }
}

impl View for DedupKey {
    type V = DedupKeyView;

    open spec fn view(&self) -> DedupKeyView {
        match self {
            DedupKey::Node { path } => DedupKeyView::Node { path: path@ },
            DedupKey::Device { vid, pid, serial } => DedupKeyView::Device {
                vid: *vid,
                pid: *pid,
                serial: serial.deep_view(),
            },
        }
    }
}

impl PartialEq for DedupKey {
    /// Whether two keys name the same endpoint.
    fn eq(&self, other: &DedupKey) -> (r: bool) {
        match (self, other) {
            (DedupKey::Node { path }, DedupKey::Node { path: path2 }) => *path == *path2,
            (
                DedupKey::Device { vid, pid, serial },
                DedupKey::Device { vid: vid2, pid: pid2, serial: serial2 },
            ) => *vid == *vid2 && *pid == *pid2 && same_text(serial, serial2),
            _ => false,
        }
    }
}

impl vstd::std_specs::cmp::PartialEqSpecImpl for DedupKey {
    open spec fn obeys_eq_spec() -> bool {
        true
    }

    open spec fn eq_spec(&self, other: &DedupKey) -> bool {
        self@ == other@
    }
}

impl Eq for DedupKey {

}

/// A copy of an optional string.
pub fn copy_text(t: &Option<String>) -> (r: Option<String>)
    ensures
        r.deep_view() == t.deep_view(),
{
    match t {
        Some(s) => Some(s.clone()),
        None => None,
    }
}

/// A copy of a list of strings.
pub fn copy_texts(v: &Vec<String>) -> (r: Vec<String>)
    ensures
        r.deep_view() == v.deep_view(),
{
    let mut r: Vec<String> = Vec::new();
    let n = v.len();
    let mut i: usize = 0;
    while i < n
        invariant
            n == v.len(),
            i <= n,
            r.len() == i,
            forall|k: int| 0 <= k < i ==> r@[k]@ == v@[k]@,
        decreases n - i,
    {
        r.push(v[i].clone());
        i += 1;
    }
    assert(r.deep_view() =~= v.deep_view());
    r
}

/// Whether two optional strings hold the same text, or are both absent.
pub fn same_text(a: &Option<String>, b: &Option<String>) -> (r: bool)
    ensures
        r == (a.deep_view() == b.deep_view()),
{
    match (a, b) {
        (Some(x), Some(y)) => *x == *y,
        (None, None) => true,
        _ => false,
    }
}

impl Clone for Transport {
    fn clone(&self) -> (r: Transport)
        ensures
            r@ == self@,
    {
        match self {
            Transport::UsbLp { path } => Transport::UsbLp { path: path.clone() },
            Transport::Serial { path } => Transport::Serial { path: path.clone() },
            Transport::UsbDevice { vid, pid, serial } => Transport::UsbDevice {
                vid: *vid,
                pid: *pid,
                serial: copy_text(serial),
            },
        }
    }
}

impl Transport {
    /// The device node's path, where the endpoint is a device node.
    pub fn path(&self) -> (r: Option<&str>)
        ensures
            r.deep_view() == self@.path(),
    {
        match self {
            Transport::UsbLp { path } => Some(path.as_str()),
            Transport::Serial { path } => Some(path.as_str()),
            Transport::UsbDevice { .. } => None,
        }
    }

    /// The key under which the endpoint is merged with other discoveries.
    pub fn dedup_key(&self) -> (r: DedupKey)
        ensures
            r@ == self@.key(),
    {
        match self {
            Transport::UsbLp { path } => DedupKey::Node { path: path.clone() },
            Transport::Serial { path } => DedupKey::Node { path: path.clone() },
            Transport::UsbDevice { vid, pid, serial } => DedupKey::Device {
                vid: *vid,
                pid: *pid,
                serial: copy_text(serial),
            },
        }
    }

    /// Whether two transports lead to the same endpoint: whether their keys
    /// are equal.
    pub fn same_endpoint(&self, other: &Transport) -> (r: bool)
        ensures
            r == (self@.key() == other@.key()),
    {
        match self.path() {
            Some(p) => match other.path() {
                Some(q) => {
                    crate::text::same_chars(p, q)
                },
                None => false,
            },
            None => match (self, other) {
                (
                    Transport::UsbDevice { vid, pid, serial },
                    Transport::UsbDevice { vid: vid2, pid: pid2, serial: serial2 },
                ) => *vid == *vid2 && *pid == *pid2 && same_text(serial, serial2),
                _ => false,
            },
        }
    }
}

/// What speaks for a candidate: a confidence and the notes that explain it.
#[derive(Debug, Clone)]
pub struct Evidence {
    pub confidence: u8,
    pub notes: Vec<String>,
}

/// The mathematical value of an [`Evidence`].
pub struct EvidenceView {
    pub confidence: u8,
    pub notes: Seq<Seq<char>>,
}

/// The larger of two confidences.
pub open spec fn max_confidence(a: u8, b: u8) -> u8 {
    if a >= b {
        a
    } else {
        b
    }
}

/// The first of two optional texts that is present.
pub open spec fn first_present(a: Option<Seq<char>>, b: Option<Seq<char>>) -> Option<Seq<char>> {
    if a is Some {
        a
    } else {
        b
    }
}

impl EvidenceView {
    /// Two pieces of evidence taken together: the larger confidence, and the
    /// notes of the first followed by those of the second.
    pub open spec fn combine(self, other: EvidenceView) -> EvidenceView {
        EvidenceView {
            confidence: max_confidence(self.confidence, other.confidence),
            notes: self.notes + other.notes,
        }
    }
}

impl View for Evidence {
    type V = EvidenceView;

    open spec fn view(&self) -> EvidenceView {
        EvidenceView { confidence: self.confidence, notes: self.notes.deep_view() }
    }
}

impl Evidence {
    /// Two pieces of evidence taken together: the larger confidence, and the
    /// notes of the first followed by those of the second.
    pub fn combine(self, other: Evidence) -> (r: Evidence)
        ensures
            r@ == self@.combine(other@),
    {
        let confidence = if self.confidence >= other.confidence {
            self.confidence
        } else {
            other.confidence
        };
        let mut notes = self.notes;
        let mut rest = other.notes;
        let ghost first = notes.deep_view();
        let ghost second = rest.deep_view();
        notes.append(&mut rest);
        assert(notes.deep_view() =~= first + second);
        Evidence { confidence, notes }
    }
}

/// Combining evidence is associative.
pub proof fn lemma_combine_associative(a: EvidenceView, b: EvidenceView, c: EvidenceView)
    ensures
        a.combine(b).combine(c) == a.combine(b.combine(c)),
{
    assert((a.notes + b.notes) + c.notes =~= a.notes + (b.notes + c.notes));
}

/// Combining evidence with itself keeps the confidence and doubles the
/// notes; evidence without notes is left as it is.
pub proof fn lemma_combine_idempotent(a: EvidenceView)
    ensures
        a.combine(a).confidence == a.confidence,
        a.combine(a).notes == a.notes + a.notes,
        a.notes.len() == 0 ==> a.combine(a) == a,
{
    if a.notes.len() == 0 {
        assert(a.notes + a.notes =~= a.notes);
    }
}

/// A combined confidence is the larger of the two, so never below either.
pub proof fn lemma_combine_never_lowers(a: EvidenceView, b: EvidenceView)
    ensures
        a.combine(b).confidence >= a.confidence,
        a.combine(b).confidence >= b.confidence,
        a.combine(b).confidence == a.confidence || a.combine(b).confidence == b.confidence,
{
}

/// A printer candidate: an endpoint, what is known of the device behind it,
/// and the evidence that it is a printer.
///
/// The confidence never exceeds [`MAX_CONFIDENCE`] and is only ever raised;
/// notes are only ever appended; the transport and a field that is present
/// are never replaced.
#[derive(Debug)]
pub struct Candidate {
    transport: Transport,
    make_model: Option<String>,
    serial: Option<String>,
    vid: Option<String>,
    pid: Option<String>,
    confidence: u8,
    notes: Vec<String>,
}

/// The mathematical value of a [`Candidate`].
pub struct CandidateView {
    pub transport: TransportView,
    pub make_model: Option<Seq<char>>,
    pub serial: Option<Seq<char>>,
    pub vid: Option<Seq<char>>,
    pub pid: Option<Seq<char>>,
    pub confidence: u8,
    pub notes: Seq<Seq<char>>,
}

impl CandidateView {
    /// The key under which the candidate is merged with others.
    pub open spec fn key(self) -> DedupKeyView {
        self.transport.key()
    }

    /// The confidence and the notes of the candidate.
    pub open spec fn evidence(self) -> EvidenceView {
        EvidenceView { confidence: self.confidence, notes: self.notes }
    }

    /// A candidate as a scanner creates it: one note, no optional field.
    pub open spec fn fresh(transport: TransportView, confidence: u8, note: Seq<char>) -> CandidateView {
        CandidateView {
            transport,
            make_model: None,
            serial: None,
            vid: None,
            pid: None,
            confidence,
            notes: seq![note],
        }
    }

    /// The candidate with other evidence combined into its own.
    pub open spec fn with_evidence(self, e: EvidenceView) -> CandidateView {
        CandidateView {
            confidence: self.evidence().combine(e).confidence,
            notes: self.evidence().combine(e).notes,
            ..self
        }
    }

    /// The candidate with its confidence raised to at least `floor`, and the
    /// note that says why appended.
    pub open spec fn raised(self, floor: u8, note: Seq<char>) -> CandidateView {
        self.with_evidence(EvidenceView { confidence: floor, notes: seq![note] })
    }

    /// The candidate with a display name, unless it has one.
    pub open spec fn with_make_model(self, name: Option<Seq<char>>) -> CandidateView {
        CandidateView { make_model: first_present(self.make_model, name), ..self }
    }

    /// The candidate with a serial number, unless it has one.
    pub open spec fn with_serial(self, serial: Option<Seq<char>>) -> CandidateView {
        CandidateView { serial: first_present(self.serial, serial), ..self }
    }

    /// The candidate with a vendor identifier, unless it has one.
    pub open spec fn with_vid(self, vid: Option<Seq<char>>) -> CandidateView {
        CandidateView { vid: first_present(self.vid, vid), ..self }
    }

    /// The candidate with a product identifier, unless it has one.
    pub open spec fn with_pid(self, pid: Option<Seq<char>>) -> CandidateView {
        CandidateView { pid: first_present(self.pid, pid), ..self }
    }

    /// Two discoveries of one endpoint as one candidate: the transport of the
    /// first, each optional field from the first that has it, the evidence
    /// of both combined.
    pub open spec fn merged(self, other: CandidateView) -> CandidateView {
        self.with_make_model(other.make_model).with_serial(other.serial).with_vid(
            other.vid,
        ).with_pid(other.pid).with_evidence(other.evidence())
    }
}

impl View for Candidate {
    type V = CandidateView;

    closed spec fn view(&self) -> CandidateView {
        CandidateView {
            transport: self.transport@,
            make_model: self.make_model.deep_view(),
            serial: self.serial.deep_view(),
            vid: self.vid.deep_view(),
            pid: self.pid.deep_view(),
            confidence: self.confidence,
            notes: self.notes.deep_view(),
        }
    }
}

impl DeepView for Candidate {
    type V = CandidateView;

    open spec fn deep_view(&self) -> CandidateView {
        self@
    }
}

impl Clone for Candidate {
    fn clone(&self) -> (r: Candidate)
        ensures
            r@ == self@,
    {
        proof {
            use_type_invariant(self);
        }
        Candidate {
            transport: self.transport.clone(),
            make_model: copy_text(&self.make_model),
            serial: copy_text(&self.serial),
            vid: copy_text(&self.vid),
            pid: copy_text(&self.pid),
            confidence: self.confidence,
            notes: copy_texts(&self.notes),
        }
    }
}

impl Candidate {
    /// The invariant of a candidate: its confidence is at most
    /// [`MAX_CONFIDENCE`].
    #[verifier::type_invariant]
    pub closed spec fn in_range(&self) -> bool {
        self.confidence <= MAX_CONFIDENCE
    }

    /// A candidate as a scanner creates it: one note, no optional field.
    pub fn new(transport: Transport, confidence: u8, note: String) -> (r: Candidate)
        requires
            confidence <= MAX_CONFIDENCE,
        ensures
            r@ == CandidateView::fresh(transport@, confidence, note@),
    {
        let mut notes: Vec<String> = Vec::new();
        notes.push(note);
        assert(notes.deep_view() =~= seq![note@]);
        Candidate {
            transport,
            make_model: None,
            serial: None,
            vid: None,
            pid: None,
            confidence,
            notes,
        }
    }

    /// A candidate with the given fields, where the confidence is at most
    /// [`MAX_CONFIDENCE`]; none where it is above.
    pub fn from_parts(
        transport: Transport,
        make_model: Option<String>,
        serial: Option<String>,
        vid: Option<String>,
        pid: Option<String>,
        confidence: u8,
        notes: Vec<String>,
    ) -> (r: Option<Candidate>)
        ensures
            r is Some <==> confidence <= MAX_CONFIDENCE,
            r matches Some(c) ==> c@ == (CandidateView {
                transport: transport@,
                make_model: make_model.deep_view(),
                serial: serial.deep_view(),
                vid: vid.deep_view(),
                pid: pid.deep_view(),
                confidence,
                notes: notes.deep_view(),
            }),
    {
        if confidence <= MAX_CONFIDENCE {
            Some(Candidate { transport, make_model, serial, vid, pid, confidence, notes })
        } else {
            None
        }
    }

    /// How the endpoint is reached.
    pub fn transport(&self) -> (r: &Transport)
        ensures
            r@ == self@.transport,
    {
        &self.transport
    }

    /// The device node's path, where the endpoint is a device node.
    pub fn transport_path(&self) -> (r: Option<&str>)
        ensures
            r.deep_view() == self@.transport.path(),
    {
        self.transport.path()
    }

    /// Whether two candidates are discoveries of one endpoint: whether
    /// their keys are equal.
    pub fn same_endpoint(&self, other: &Candidate) -> (r: bool)
        ensures
            r == (self@.key() == other@.key()),
    {
        self.transport.same_endpoint(&other.transport)
    }

    /// The key under which the candidate is merged with others.
    pub fn dedup_key(&self) -> (r: DedupKey)
        ensures
            r@ == self@.key(),
    {
        self.transport.dedup_key()
    }

    /// The display name, where one is known.
    pub fn make_model(&self) -> (r: &Option<String>)
        ensures
            r.deep_view() == self@.make_model,
    {
        &self.make_model
    }

    /// The serial number, where one is known.
    pub fn serial(&self) -> (r: &Option<String>)
        ensures
            r.deep_view() == self@.serial,
    {
        &self.serial
    }

    /// The vendor identifier in hexadecimal, where one is known.
    pub fn vid(&self) -> (r: &Option<String>)
        ensures
            r.deep_view() == self@.vid,
    {
        &self.vid
    }

    /// The product identifier in hexadecimal, where one is known.
    pub fn pid(&self) -> (r: &Option<String>)
        ensures
            r.deep_view() == self@.pid,
    {
        &self.pid
    }

    /// The confidence, from 0 to [`MAX_CONFIDENCE`].
    pub fn confidence(&self) -> (r: u8)
        ensures
            r == self@.confidence,
            r <= MAX_CONFIDENCE,
    {
        proof {
            use_type_invariant(self);
        }
        self.confidence
    }

    /// The notes, in the order in which they were added.
    pub fn notes(&self) -> (r: &Vec<String>)
        ensures
            r.deep_view() == self@.notes,
    {
        &self.notes
    }

    /// The confidence and the notes of the candidate.
    pub fn evidence(&self) -> (r: Evidence)
        ensures
            r@ == self@.evidence(),
    {
        proof {
            use_type_invariant(self);
        }
        Evidence { confidence: self.confidence, notes: copy_texts(&self.notes) }
    }

    /// Combines other evidence into the candidate's own: the confidence
    /// becomes the larger of the two, and the notes are appended.
    pub fn add_evidence(&mut self, e: Evidence)
        requires
            e.confidence <= MAX_CONFIDENCE,
        ensures
            final(self)@ == old(self)@.with_evidence(e@),
    {
        proof {
            use_type_invariant(&*self);
        }
        let Evidence { confidence, notes: mut added } = e;
        if confidence > self.confidence {
            self.confidence = confidence;
        }
        let mut notes: Vec<String> = Vec::new();
        core::mem::swap(&mut self.notes, &mut notes);
        let ghost first = notes.deep_view();
        let ghost second = added.deep_view();
        notes.append(&mut added);
        assert(notes.deep_view() =~= first + second);
        core::mem::swap(&mut self.notes, &mut notes);
    }

    /// Raises the confidence to at least `floor`, never lowering it, and
    /// appends the note that says why.
    pub fn raise_confidence(&mut self, floor: u8, note: String)
        requires
            floor <= MAX_CONFIDENCE,
        ensures
            final(self)@ == old(self)@.raised(floor, note@),
    {
        let mut notes: Vec<String> = Vec::new();
        notes.push(note);
        assert(notes.deep_view() =~= seq![note@]);
        self.add_evidence(Evidence { confidence: floor, notes });
    }

    /// Sets the display name, unless the candidate has one.
    pub fn fill_make_model(&mut self, name: Option<String>)
        ensures
            final(self)@ == old(self)@.with_make_model(name.deep_view()),
    {
        proof {
            use_type_invariant(&*self);
        }
        if self.make_model.is_none() {
            self.make_model = name;
        }
    }

    /// Sets the serial number, unless the candidate has one.
    pub fn fill_serial(&mut self, serial: Option<String>)
        ensures
            final(self)@ == old(self)@.with_serial(serial.deep_view()),
    {
        proof {
            use_type_invariant(&*self);
        }
        if self.serial.is_none() {
            self.serial = serial;
        }
    }

    /// Sets the vendor identifier, unless the candidate has one.
    pub fn fill_vid(&mut self, vid: Option<String>)
        ensures
            final(self)@ == old(self)@.with_vid(vid.deep_view()),
    {
        proof {
            use_type_invariant(&*self);
        }
        if self.vid.is_none() {
            self.vid = vid;
        }
    }

    /// Sets the product identifier, unless the candidate has one.
    pub fn fill_pid(&mut self, pid: Option<String>)
        ensures
            final(self)@ == old(self)@.with_pid(pid.deep_view()),
    {
        proof {
            use_type_invariant(&*self);
        }
        if self.pid.is_none() {
            self.pid = pid;
        }
    }

    /// Takes in another discovery of the same endpoint: keeps the transport
    /// and each optional field that is present, fills the others from
    /// `other`, and combines the evidence of both.
    pub fn absorb(&mut self, other: Candidate)
        ensures
            final(self)@ == old(self)@.merged(other@),
    {
        proof {
            use_type_invariant(&other);
        }
        let Candidate { transport: _, make_model, serial, vid, pid, confidence, notes } = other;
        self.fill_make_model(make_model);
        self.fill_serial(serial);
        self.fill_vid(vid);
        self.fill_pid(pid);
        self.add_evidence(Evidence { confidence, notes });
    }
}

/// A device node and a device on the bus never have the same key, whatever
/// device stands behind them: two such discoveries are not merged.
pub proof fn lemma_node_and_bus_keys_differ(a: TransportView, b: TransportView)
    requires
        a.path() is Some,
        b.path() is None,
    ensures
        a.key() != b.key(),
{
}

/// Two device nodes have the same key exactly if they have the same path,
/// whatever their kind.
pub proof fn lemma_node_keys(a: TransportView, b: TransportView)
    requires
        a.path() is Some,
        b.path() is Some,
    ensures
        a.key() == b.key() <==> a.path() == b.path(),
{
}

/// Whether every candidate of `s` has a confidence of at most
/// [`MAX_CONFIDENCE`]. This holds of the candidates that a program holds,
/// by the invariant of [`Candidate`]; of a list of values it is a condition.
pub open spec fn all_bounded(s: Seq<CandidateView>) -> bool {
    forall|i: int| 0 <= i < s.len() ==> (#[trigger] s[i]).confidence <= MAX_CONFIDENCE
}

/// What the invariant of a candidate says of its value: the confidence is
/// at most [`MAX_CONFIDENCE`].
pub proof fn lemma_in_range(c: Candidate)
    ensures
        c.in_range() <==> c@.confidence <= MAX_CONFIDENCE,
{
}

/// Merging keeps confidences in range: the merged confidence is that of one
/// of the two.
pub proof fn lemma_merged_bounded(a: CandidateView, b: CandidateView)
    requires
        a.confidence <= MAX_CONFIDENCE,
        b.confidence <= MAX_CONFIDENCE,
    ensures
        a.merged(b).confidence <= MAX_CONFIDENCE,
        a.merged(b).confidence == max_confidence(a.confidence, b.confidence),
{
}

/// A raised confidence is never below the confidence before, never below the
/// floor, and one of the two; the notes before stay in front.
pub proof fn lemma_raise_never_lowers(c: CandidateView, floor: u8, note: Seq<char>)
    ensures
        c.raised(floor, note).confidence >= c.confidence,
        c.raised(floor, note).confidence >= floor,
        c.raised(floor, note).confidence == max_confidence(c.confidence, floor),
        c.raised(floor, note).notes == c.notes.push(note),
        c.raised(floor, note).transport == c.transport,
        c.confidence <= MAX_CONFIDENCE && floor <= MAX_CONFIDENCE ==> c.raised(floor, note).confidence
            <= MAX_CONFIDENCE,
{
    assert(c.notes + seq![note] =~= c.notes.push(note));
}

} // verus!
