//! An editing session on one EDID: the bytes it started from, the working
//! bytes with their parse, and the list of edits made so far.
use crate::edid::{
    count_where, cta_dtd_slots, first_index, lemma_first_index_stable, delete_detailed_timing, delete_standard_timing,
    detailed_timing_locations, insert_cta_detailed_timing, insert_detailed_timing,
    insert_standard_timing, lemma_delete_detailed_keeps_base, lemma_delete_standard_keeps_base,
    lemma_insert_cta_keeps_base, lemma_insert_detailed_keeps_base, lemma_insert_standard_keeps_base,
    lemma_patch_detailed_keeps_base, lemma_patch_standard_keeps_base, parse_edid, patch_detailed_timing,
    patch_standard_timing, slot_summary, spec_base_error, spec_checksum_valid, spec_cta_dtd_slots,
    spec_delete_detailed_timing, spec_delete_standard_timing, spec_detailed_timing_locations,
    spec_insert_cta_detailed_timing, spec_insert_detailed_timing, spec_insert_standard_timing,
    spec_parse_edid, spec_patch_detailed_timing, spec_patch_standard_timing, spec_slot_summary,
    spec_standard_timings, standard_timing_locations, block_checksum_valid, CtaDtdSlot,
    DtdLocation, EdidError, EdidSlotSummary, LocatedDetailedTiming, LocatedStandardTiming,
};
use crate::models::{EdidData, EdidDataView, StandardTiming, TimingDescriptor};
use crate::text::{decimal, push_decimal, push_str};
use vstd::prelude::*;
use vstd::slice::slice_to_vec;

verus! {

#[derive(Debug, Clone, PartialEq)]
pub enum WorkspaceOperation {
    AddDtd { location: DtdLocation, timing: TimingDescriptor },
    ReplaceDtd { location: DtdLocation, timing: TimingDescriptor },
    DeleteDtd { location: DtdLocation },
    DeleteStandardTiming { slot: usize },
    AddStandardTiming { slot: usize, timing: StandardTiming },
    ReplaceStandardTiming { slot: usize, timing: StandardTiming },
    ReorderDtd { from: DtdLocation, to: DtdLocation },
    Reset,
    ImportEdid { source: String },
}

/// An edit as plain values.
pub enum OperationView {
    AddDtd { location: DtdLocation, timing: TimingDescriptor },
    ReplaceDtd { location: DtdLocation, timing: TimingDescriptor },
    DeleteDtd { location: DtdLocation },
    DeleteStandardTiming { slot: usize },
    AddStandardTiming { slot: usize, timing: StandardTiming },
    ReplaceStandardTiming { slot: usize, timing: StandardTiming },
    ReorderDtd { from: DtdLocation, to: DtdLocation },
    Reset,
    ImportEdid { source: Seq<char> },
}

impl DeepView for WorkspaceOperation {
    type V = OperationView;

    open spec fn deep_view(&self) -> OperationView {
        match self {
            WorkspaceOperation::AddDtd { location, timing } => OperationView::AddDtd {
                location: *location,
                timing: *timing,
            },
            WorkspaceOperation::ReplaceDtd { location, timing } => OperationView::ReplaceDtd {
                location: *location,
                timing: *timing,
            },
            WorkspaceOperation::DeleteDtd { location } => OperationView::DeleteDtd {
                location: *location,
            },
            WorkspaceOperation::DeleteStandardTiming { slot } => OperationView::DeleteStandardTiming {
                slot: *slot,
            },
            WorkspaceOperation::AddStandardTiming { slot, timing } => OperationView::AddStandardTiming {
                slot: *slot,
                timing: *timing,
            },
            WorkspaceOperation::ReplaceStandardTiming {
                slot,
                timing,
            } => OperationView::ReplaceStandardTiming { slot: *slot, timing: *timing },
            WorkspaceOperation::ReorderDtd { from, to } => OperationView::ReorderDtd {
                from: *from,
                to: *to,
            },
            WorkspaceOperation::Reset => OperationView::Reset,
            WorkspaceOperation::ImportEdid { source } => OperationView::ImportEdid {
                source: source@,
            },
        }
    }
}

#[derive(Debug, Clone, PartialEq, Eq)]
pub struct ValidationIssue {
    pub message: String,
}

impl DeepView for ValidationIssue {
    type V = Seq<char>;

    open spec fn deep_view(&self) -> Seq<char> {
        self.message@
    }
}

#[derive(Debug, Clone, PartialEq, Eq)]
pub enum WorkspaceError {
    Edid(EdidError),
}

#[derive(Debug)]
pub struct EdidWorkspace {
    original_raw: Vec<u8>,
    working: EdidData,
    operations: Vec<WorkspaceOperation>,
}

impl EdidWorkspace {
    /// The working EDID is always the parse of the working bytes.
    #[verifier::type_invariant]
    spec fn working_is_parsed(self) -> bool {
        spec_parse_edid(self.working.raw@) == Ok::<EdidDataView, EdidError>(
            self.working.deep_view(),
        )
    }

    /// The bytes the session started from (empty for an imported EDID).
    pub closed spec fn original(self) -> Seq<u8> {
        self.original_raw@
    }

    /// The bytes being edited.
    pub closed spec fn working_bytes(self) -> Seq<u8> {
        self.working.raw@
    }

    /// The edits made so far, oldest first.
    pub closed spec fn history(self) -> Seq<OperationView> {
        self.operations.deep_view()
    }

    /// What parsing the working bytes gives.
    pub closed spec fn working_parse(self) -> EdidDataView {
        self.working.deep_view()
    }
}

/// `new` follows `old` by one edit `op` that left the bytes `bytes`.
pub open spec fn edited(old: EdidWorkspace, new: EdidWorkspace, bytes: Seq<u8>, op: OperationView) -> bool {
    &&& new.original() == old.original()
    &&& new.working_bytes() == bytes
    &&& new.history() == old.history().push(op)
}

/// Whether two byte sequences are the same.
fn bytes_equal(a: &[u8], b: &[u8]) -> (r: bool)
    ensures
        r == (a@ == b@),
{
    if a.len() != b.len() {
        return false;
    }
    let mut i: usize = 0;
    while i < a.len()
        invariant
            a@.len() == b@.len(),
            0 <= i <= a@.len(),
            forall|k: int| 0 <= k < i ==> a@[k] == b@[k],
        decreases a@.len() - i,
    {
        if a[i] != b[i] {
            return false;
        }
        i = i + 1;
    }
    assert(a@ =~= b@);
    true
}

/// How many positions two byte sequences differ in, counting each byte that
/// only the longer one has.
pub open spec fn changed_byte_count(a: Seq<u8>, b: Seq<u8>) -> nat {
    let common = if a.len() <= b.len() {
        a.len()
    } else {
        b.len()
    };
    let extra = if a.len() <= b.len() {
        b.len() - a.len()
    } else {
        a.len() - b.len()
    };
    count_where(common, |i: int| a[i] != b[i]) + extra as nat
}

fn count_changed_bytes(a: &[u8], b: &[u8]) -> (r: usize)
    ensures
        r == changed_byte_count(a@, b@),
{
    let common = if a.len() <= b.len() {
        a.len()
    } else {
        b.len()
    };
    let ghost p = |i: int| a@[i] != b@[i];
    let mut count: usize = 0;
    let mut i: usize = 0;
    while i < common
        invariant
            common <= a@.len(),
            common <= b@.len(),
            0 <= i <= common,
            p == (|i: int| a@[i] != b@[i]),
            count == count_where(i as nat, p),
            count <= i,
        decreases common - i,
    {
        if a[i] != b[i] {
            count = count + 1;
        }
        i = i + 1;
    }
    let extra = if a.len() <= b.len() {
        b.len() - a.len()
    } else {
        a.len() - b.len()
    };
    count + extra
}

/// How a detailed timing slot is named in messages.
pub open spec fn spec_format_location(location: DtdLocation) -> Seq<char> {
    match location {
        DtdLocation::Base { slot } => "base DTD slot "@ + decimal(slot as nat),
        DtdLocation::Cta { extension_index, slot } => "CTA-861 extension "@ + decimal(
            extension_index as nat,
        ) + " DTD slot "@ + decimal(slot as nat),
    }
}

fn push_location(s: &mut String, location: DtdLocation)
    ensures
        final(s)@ == old(s)@ + spec_format_location(location),
{
    match location {
        DtdLocation::Base { slot } => {
            push_str(s, "base DTD slot ");
            push_decimal(s, slot as u64);
        },
        DtdLocation::Cta { extension_index, slot } => {
            push_str(s, "CTA-861 extension ");
            push_decimal(s, extension_index as u64);
            push_str(s, " DTD slot ");
            push_decimal(s, slot as u64);
        },
    }
    assert(s@ =~= old(s)@ + spec_format_location(location));
}

pub fn format_location(location: DtdLocation) -> (r: String)
    ensures
        r@ == spec_format_location(location),
{
    let mut r = String::new();
    push_location(&mut r, location);
    assert(r@ =~= spec_format_location(location));
    r
}

/// `WIDTHxHEIGHT @ REFRESH Hz` of a standard timing.
pub open spec fn standard_text(t: StandardTiming) -> Seq<char> {
    decimal(t.width as nat) + seq!['x'] + decimal(t.height as nat) + " @ "@ + decimal(
        t.refresh_hz as nat,
    ) + " Hz"@
}

fn push_standard(s: &mut String, t: &StandardTiming)
    ensures
        final(s)@ == old(s)@ + standard_text(*t),
{
    push_decimal(s, t.width as u64);
    push_str(s, "x");
    push_decimal(s, t.height as u64);
    push_str(s, " @ ");
    push_decimal(s, t.refresh_hz as u64);
    push_str(s, " Hz");
    proof {
        reveal_strlit("x");
    }
    assert(s@ =~= old(s)@ + standard_text(*t));
}

/// The line that describes an edit.
pub open spec fn operation_line(op: OperationView) -> Seq<char> {
    match op {
        OperationView::AddDtd { location, timing } => "Added "@ + timing.spec_hyprland_mode()
            + " at "@ + spec_format_location(location),
        OperationView::ReplaceDtd { location, timing } => "Replaced "@ + spec_format_location(
            location,
        ) + " with "@ + timing.spec_hyprland_mode(),
        OperationView::DeleteDtd { location } => "Deleted DTD at "@ + spec_format_location(
            location,
        ),
        OperationView::DeleteStandardTiming { slot } => "Deleted standard timing slot "@
            + decimal(slot as nat),
        OperationView::AddStandardTiming { slot, timing } => "Added standard timing slot "@
            + decimal(slot as nat) + ": "@ + standard_text(timing),
        OperationView::ReplaceStandardTiming { slot, timing } => "Replaced standard timing slot "@
            + decimal(slot as nat) + " with "@ + standard_text(timing),
        OperationView::ReorderDtd { from, to } => "Moved DTD from "@ + spec_format_location(from)
            + " to "@ + spec_format_location(to),
        OperationView::Reset => "Reset working EDID to original bytes"@,
        OperationView::ImportEdid { source } => "Imported EDID from "@ + source,
    }
}

fn operation_text(op: &WorkspaceOperation) -> (r: String)
    ensures
        r@ == operation_line(op.deep_view()),
{
    let mut s = String::new();
    match op {
        WorkspaceOperation::AddDtd { location, timing } => {
            push_str(&mut s, "Added ");
            let mode = timing.hyprland_mode();
            push_str(&mut s, mode.as_str());
            push_str(&mut s, " at ");
            push_location(&mut s, *location);
        },
        WorkspaceOperation::ReplaceDtd { location, timing } => {
            push_str(&mut s, "Replaced ");
            push_location(&mut s, *location);
            push_str(&mut s, " with ");
            let mode = timing.hyprland_mode();
            push_str(&mut s, mode.as_str());
        },
        WorkspaceOperation::DeleteDtd { location } => {
            push_str(&mut s, "Deleted DTD at ");
            push_location(&mut s, *location);
        },
        WorkspaceOperation::DeleteStandardTiming { slot } => {
            push_str(&mut s, "Deleted standard timing slot ");
            push_decimal(&mut s, *slot as u64);
        },
        WorkspaceOperation::AddStandardTiming { slot, timing } => {
            push_str(&mut s, "Added standard timing slot ");
            push_decimal(&mut s, *slot as u64);
            push_str(&mut s, ": ");
            push_standard(&mut s, timing);
        },
        WorkspaceOperation::ReplaceStandardTiming { slot, timing } => {
            push_str(&mut s, "Replaced standard timing slot ");
            push_decimal(&mut s, *slot as u64);
            push_str(&mut s, " with ");
            push_standard(&mut s, timing);
        },
        WorkspaceOperation::ReorderDtd { from, to } => {
            push_str(&mut s, "Moved DTD from ");
            push_location(&mut s, *from);
            push_str(&mut s, " to ");
            push_location(&mut s, *to);
        },
        WorkspaceOperation::Reset => {
            push_str(&mut s, "Reset working EDID to original bytes");
        },
        WorkspaceOperation::ImportEdid { source } => {
            push_str(&mut s, "Imported EDID from ");
            push_str(&mut s, source.as_str());
        },
    }
    assert(s@ =~= operation_line(op.deep_view()));
    s
}

/// The summary of what changed: the count of changed bytes, then one line
/// per edit; a single line when the bytes are the original ones.
pub open spec fn spec_diff_summary(original: Seq<u8>, working: Seq<u8>, history: Seq<OperationView>) -> Seq<
    Seq<char>,
> {
    if original == working {
        seq!["No EDID byte changes."@]
    } else {
        seq![decimal(changed_byte_count(original, working)) + " EDID bytes changed."@]
            + history.map_values(|op: OperationView| operation_line(op))
    }
}

/// The message for a block whose checksum does not hold.
pub open spec fn checksum_issue(index: int) -> Seq<char> {
    if index == 0 {
        "base EDID checksum is invalid"@
    } else {
        "EDID extension "@ + decimal(index as nat) + " checksum is invalid"@
    }
}

/// Checksum messages for the first `n` whole blocks of `raw`.
pub open spec fn checksum_issues(raw: Seq<u8>, n: nat) -> Seq<Seq<char>>
    decreases n,
{
    if n == 0 {
        Seq::empty()
    } else {
        checksum_issues(raw, (n - 1) as nat) + if spec_checksum_valid(
            raw.subrange(128 * (n - 1), (128 * n) as int),
        ) {
            Seq::empty()
        } else {
            seq![checksum_issue(n - 1)]
        }
    }
}

/// What `validate` reports: a length that the extension count does not
/// account for, then every whole block whose checksum does not hold.
pub open spec fn spec_validation_issues(raw: Seq<u8>, extension_blocks: u8) -> Seq<Seq<char>> {
    let expected = (extension_blocks + 1) * 128;
    (if raw.len() != expected {
        seq![
            "EDID length is "@ + decimal(raw.len()) + " bytes but its extension count requires "@
                + decimal(expected as nat),
        ]
    } else {
        Seq::empty()
    }) + checksum_issues(raw, raw.len() / 128)
}

impl EdidWorkspace {
    /// Puts bytes that are known to parse in place of the working bytes and
    /// records `op`.
    fn replace_working_raw(&mut self, raw: Vec<u8>, op: WorkspaceOperation)
        requires
            spec_base_error(raw@) is None,
        ensures
            edited(*old(self), *final(self), raw@, op.deep_view()),
    {
        let ghost bytes = raw@;
        let ghost opv = op.deep_view();
        match parse_edid(raw) {
            Ok(working) => {
                self.working = working;
            },
            Err(_) => {
                assert(false);
            },
        }
        let ghost before = self.operations.deep_view();
        let mut operations: Vec<WorkspaceOperation> = Vec::new();
        std::mem::swap(&mut operations, &mut self.operations);
        operations.push(op);
        assert(operations.deep_view() =~= before.push(opv));
        self.operations = operations;
    }

    pub fn new(raw: Vec<u8>) -> (r: Result<Self, WorkspaceError>)
        ensures
            match r {
                Ok(w) => spec_parse_edid(raw@) is Ok && w.original() == raw@ && w.working_bytes()
                    == raw@ && w.history() == Seq::<OperationView>::empty(),
                Err(WorkspaceError::Edid(e)) => spec_parse_edid(raw@) == Err::<
                    EdidDataView,
                    EdidError,
                >(e),
            },
    {
        let copy = slice_to_vec(raw.as_slice());
        let working = match parse_edid(copy) {
            Ok(w) => w,
            Err(e) => return Err(WorkspaceError::Edid(e)),
        };
        let operations: Vec<WorkspaceOperation> = Vec::new();
        assert(operations.deep_view() =~= Seq::<OperationView>::empty());
        Ok(EdidWorkspace { original_raw: raw, working, operations })
    }

    pub fn from_edid(edid: &EdidData) -> (r: Result<Self, WorkspaceError>)
        ensures
            match r {
                Ok(w) => spec_parse_edid(edid.raw@) is Ok && w.original() == edid.raw@
                    && w.working_bytes() == edid.raw@ && w.history() == Seq::<OperationView>::empty(),
                Err(WorkspaceError::Edid(e)) => spec_parse_edid(edid.raw@) == Err::<
                    EdidDataView,
                    EdidError,
                >(e),
            },
    {
        Self::new(slice_to_vec(edid.raw.as_slice()))
    }

    /// A session on bytes read from `source`, with no original bytes to go back to.
    pub fn imported(raw: Vec<u8>, source: &str) -> (r: Result<Self, WorkspaceError>)
        ensures
            match r {
                Ok(w) => spec_parse_edid(raw@) is Ok && w.original() == Seq::<u8>::empty()
                    && w.working_bytes() == raw@ && w.history() == seq![
                    OperationView::ImportEdid { source: source@ },
                ],
                Err(WorkspaceError::Edid(e)) => spec_parse_edid(raw@) == Err::<
                    EdidDataView,
                    EdidError,
                >(e),
            },
    {
        let working = match parse_edid(raw) {
            Ok(w) => w,
            Err(e) => return Err(WorkspaceError::Edid(e)),
        };
        let mut operations: Vec<WorkspaceOperation> = Vec::new();
        operations.push(WorkspaceOperation::ImportEdid { source: String::from_str(source) });
        assert(operations.deep_view() =~= seq![OperationView::ImportEdid { source: source@ }]);
        let original_raw: Vec<u8> = Vec::new();
        Ok(EdidWorkspace { original_raw, working, operations })
    }

    pub fn parsed(&self) -> (r: &EdidData)
        ensures
            spec_parse_edid(self.working_bytes()) == Ok::<EdidDataView, EdidError>(r.deep_view()),
            r.deep_view() == self.working_parse(),
    {
        proof {
            use_type_invariant(self);
        }
        &self.working
    }

    /// The edits made so far, oldest first.
    pub fn operations(&self) -> (r: &Vec<WorkspaceOperation>)
        ensures
            r.deep_view() == self.history(),
    {
        &self.operations
    }

    pub fn has_changes(&self) -> (r: bool)
        ensures
            r == (self.original() != self.working_bytes()),
    {
        !bytes_equal(self.original_raw.as_slice(), self.working.raw.as_slice())
    }

    pub fn export_bytes(&self) -> (r: &[u8])
        ensures
            r@ == self.working_bytes(),
    {
        self.working.raw.as_slice()
    }

    pub fn add_dtd(&mut self, timing: TimingDescriptor) -> (r: Result<DtdLocation, WorkspaceError>)
        ensures
            match r {
                Ok(location) => spec_insert_detailed_timing(old(self).working_bytes(), timing)
                    is Ok && edited(
                    *old(self),
                    *final(self),
                    spec_insert_detailed_timing(old(self).working_bytes(), timing)->Ok_0.0,
                    OperationView::AddDtd { location, timing },
                ) && location == spec_insert_detailed_timing(
                    old(self).working_bytes(),
                    timing,
                )->Ok_0.1,
                Err(WorkspaceError::Edid(e)) => spec_insert_detailed_timing(
                    old(self).working_bytes(),
                    timing,
                ) == Err::<(Seq<u8>, DtdLocation), EdidError>(e) && *final(self) == *old(self),
            },
    {
        let (raw, location) = match insert_detailed_timing(self.working.raw.as_slice(), &timing) {
            Ok(found) => found,
            Err(e) => return Err(WorkspaceError::Edid(e)),
        };
        proof {
            lemma_insert_detailed_keeps_base(old(self).working_bytes(), timing);
        }
        self.replace_working_raw(raw, WorkspaceOperation::AddDtd { location, timing });
        Ok(location)
    }
}

#[derive(Debug, Clone, Copy, PartialEq, Eq, Structural)]
pub enum MoveDirection {
    Up,
    Down,
}

/// The index that moving entry `index` of `len` entries goes to, if it can move.
pub open spec fn spec_target_index(direction: MoveDirection, index: int, len: int) -> Option<int> {
    match direction {
        MoveDirection::Up => if index >= 1 {
            Some(index - 1)
        } else {
            None
        },
        MoveDirection::Down => if index + 1 < len {
            Some(index + 1)
        } else {
            None
        },
    }
}

impl MoveDirection {
    fn target_index(self, index: usize, len: usize) -> (r: Option<usize>)
        requires
            index < len,
        ensures
            r == opt_index(spec_target_index(self, index as int, len as int)),
    {
        match self {
            MoveDirection::Up => index.checked_sub(1),
            MoveDirection::Down => if index + 1 < len {
                Some(index + 1)
            } else {
                None
            },
        }
    }
}

/// An optional index as a `usize`.
pub open spec fn opt_index(o: Option<int>) -> Option<usize> {
    match o {
        Some(i) => Some(i as usize),
        None => None,
    }
}

/// The bytes that exchanging the timings of slots `a` and `b` gives.
pub open spec fn spec_swap_timings(raw: Seq<u8>, a: LocatedDetailedTiming, b: LocatedDetailedTiming) -> Result<
    Seq<u8>,
    EdidError,
> {
    match spec_patch_detailed_timing(raw, a.location, b.timing) {
        Err(e) => Err(e),
        Ok(p) => spec_patch_detailed_timing(p, b.location, a.timing),
    }
}

/// Moving detailed timing number `index` (in listing order) one place up or
/// down by exchanging it with its neighbour: the index that ends up selected,
/// and the new bytes with the edit when anything moved.
pub open spec fn spec_move_dtd(raw: Seq<u8>, index: usize, direction: MoveDirection) -> Result<
    (usize, Option<(Seq<u8>, OperationView)>),
    EdidError,
> {
    let dtds = spec_detailed_timing_locations(raw);
    if dtds.len() == 0 {
        Ok((index, None))
    } else if index >= dtds.len() {
        Ok(((dtds.len() - 1) as usize, None))
    } else {
        match spec_target_index(direction, index as int, dtds.len() as int) {
            None => Ok((index, None)),
            Some(t) => match spec_swap_timings(raw, dtds[index as int], dtds[t]) {
                Err(e) => Err(e),
                Ok(p) => Ok(
                    (
                        t as usize,
                        Some(
                            (
                                p,
                                OperationView::ReorderDtd {
                                    from: dtds[index as int].location,
                                    to: dtds[t].location,
                                },
                            ),
                        ),
                    ),
                ),
            },
        }
    }
}

/// The row for slot `slot` of extension `extension_index`, if listed.
pub open spec fn find_cta_row(rows: Seq<CtaDtdSlot>, extension_index: u8, slot: usize) -> Option<
    CtaDtdSlot,
> {
    match first_index(
        rows.len(),
        |k: int| rows[k].extension_index == extension_index && rows[k].slot == slot,
    ) {
        Some(k) => Some(rows[k]),
        None => None,
    }
}

/// Writing `timing` into a chosen CTA-861 slot that must be free.
pub open spec fn spec_add_cta_dtd_at(raw: Seq<u8>, location: DtdLocation, timing: TimingDescriptor) -> Result<
    Seq<u8>,
    EdidError,
> {
    match location {
        DtdLocation::Base { slot } => Err(EdidError::InvalidDetailedTimingSlot(slot)),
        DtdLocation::Cta { extension_index, slot } => match find_cta_row(
            spec_cta_dtd_slots(raw),
            extension_index,
            slot,
        ) {
            None => Err(EdidError::InvalidDetailedTimingSlot(slot)),
            Some(row) => if row.timing is Some || row.occupied_unknown {
                Err(EdidError::NoAvailableDetailedTimingSlot)
            } else {
                spec_patch_detailed_timing(raw, location, timing)
            },
        },
    }
}

/// How an edit that gives `s` leaves the workspace: edited with `op` on
/// success, untouched on failure, with the failure's error.
pub open spec fn outcome(
    old: EdidWorkspace,
    new: EdidWorkspace,
    r: Result<(), WorkspaceError>,
    s: Result<Seq<u8>, EdidError>,
    op: OperationView,
) -> bool {
    match r {
        Ok(_) => s is Ok && edited(old, new, s->Ok_0, op),
        Err(WorkspaceError::Edid(e)) => s == Err::<Seq<u8>, EdidError>(e) && new == old,
    }
}

impl EdidWorkspace {
    /// Puts a parsed EDID in place of the working one and records `op`.
    fn install_parsed(&mut self, working: EdidData, op: WorkspaceOperation)
        requires
            spec_parse_edid(working.raw@) == Ok::<EdidDataView, EdidError>(working.deep_view()),
        ensures
            edited(*old(self), *final(self), working.raw@, op.deep_view()),
    {
        let ghost opv = op.deep_view();
        self.working = working;
        let ghost before = self.operations.deep_view();
        let mut operations: Vec<WorkspaceOperation> = Vec::new();
        std::mem::swap(&mut operations, &mut self.operations);
        operations.push(op);
        assert(operations.deep_view() =~= before.push(opv));
        self.operations = operations;
    }

    pub fn add_cta_dtd(&mut self, extension_index: u8, timing: TimingDescriptor) -> (r: Result<
        DtdLocation,
        WorkspaceError,
    >)
        ensures
            match r {
                Ok(location) => spec_insert_cta_detailed_timing(
                    old(self).working_bytes(),
                    extension_index,
                    timing,
                ) is Ok && edited(
                    *old(self),
                    *final(self),
                    spec_insert_cta_detailed_timing(
                        old(self).working_bytes(),
                        extension_index,
                        timing,
                    )->Ok_0.0,
                    OperationView::AddDtd { location, timing },
                ) && location == spec_insert_cta_detailed_timing(
                    old(self).working_bytes(),
                    extension_index,
                    timing,
                )->Ok_0.1,
                Err(WorkspaceError::Edid(e)) => spec_insert_cta_detailed_timing(
                    old(self).working_bytes(),
                    extension_index,
                    timing,
                ) == Err::<(Seq<u8>, DtdLocation), EdidError>(e) && *final(self) == *old(self),
            },
    {
        let (raw, location) = match insert_cta_detailed_timing(
            self.working.raw.as_slice(),
            extension_index,
            &timing,
        ) {
            Ok(found) => found,
            Err(e) => return Err(WorkspaceError::Edid(e)),
        };
        proof {
            lemma_insert_cta_keeps_base(old(self).working_bytes(), extension_index, timing);
        }
        self.replace_working_raw(raw, WorkspaceOperation::AddDtd { location, timing });
        Ok(location)
    }

    /// Writes `timing` into the CTA-861 slot `location`, which must be listed and free.
    pub fn add_cta_dtd_at(&mut self, location: DtdLocation, timing: TimingDescriptor) -> (r: Result<
        DtdLocation,
        WorkspaceError,
    >)
        ensures
            match r {
                Ok(l) => l == location && spec_add_cta_dtd_at(
                    old(self).working_bytes(),
                    location,
                    timing,
                ) is Ok && edited(
                    *old(self),
                    *final(self),
                    spec_add_cta_dtd_at(old(self).working_bytes(), location, timing)->Ok_0,
                    OperationView::AddDtd { location, timing },
                ),
                Err(WorkspaceError::Edid(e)) => spec_add_cta_dtd_at(
                    old(self).working_bytes(),
                    location,
                    timing,
                ) == Err::<Seq<u8>, EdidError>(e) && *final(self) == *old(self),
            },
    {
        proof {
            use_type_invariant(&*self);
        }
        let (extension_index, slot) = match location {
            DtdLocation::Cta { extension_index, slot } => (extension_index, slot),
            DtdLocation::Base { slot } => {
                return Err(WorkspaceError::Edid(EdidError::InvalidDetailedTimingSlot(slot)));
            },
        };
        let rows = match cta_dtd_slots(self.working.raw.as_slice()) {
            Ok(rows) => rows,
            Err(e) => return Err(WorkspaceError::Edid(e)),
        };
        let ghost rv = rows@;
        let ghost p = |k: int| rv[k].extension_index == extension_index && rv[k].slot == slot;
        let mut k: usize = 0;
        while k < rows.len() && !(rows[k].extension_index == extension_index && rows[k].slot == slot)
            invariant
                rv == rows@,
                0 <= k <= rv.len(),
                p == (|k: int| rv[k].extension_index == extension_index && rv[k].slot == slot),
                first_index(k as nat, p) is None,
            decreases rv.len() - k,
        {
            k = k + 1;
        }
        if k == rows.len() {
            return Err(WorkspaceError::Edid(EdidError::InvalidDetailedTimingSlot(slot)));
        }
        proof {
            assert(first_index((k + 1) as nat, p) == Some(k as int));
            lemma_first_index_stable((k + 1) as nat, rv.len(), p);
        }
        let row = rows[k];
        if row.timing.is_some() || row.occupied_unknown {
            return Err(WorkspaceError::Edid(EdidError::NoAvailableDetailedTimingSlot));
        }
        let raw = match patch_detailed_timing(self.working.raw.as_slice(), location, &timing) {
            Ok(raw) => raw,
            Err(e) => return Err(WorkspaceError::Edid(e)),
        };
        proof {
            lemma_patch_detailed_keeps_base(old(self).working_bytes(), location, timing);
        }
        self.replace_working_raw(raw, WorkspaceOperation::AddDtd { location, timing });
        Ok(location)
    }

    pub fn replace_dtd(&mut self, location: DtdLocation, timing: TimingDescriptor) -> (r: Result<
        (),
        WorkspaceError,
    >)
        ensures
            outcome(
                *old(self),
                *final(self),
                r,
                spec_patch_detailed_timing(old(self).working_bytes(), location, timing),
                OperationView::ReplaceDtd { location, timing },
            ),
    {
        let raw = match patch_detailed_timing(self.working.raw.as_slice(), location, &timing) {
            Ok(raw) => raw,
            Err(e) => return Err(WorkspaceError::Edid(e)),
        };
        proof {
            lemma_patch_detailed_keeps_base(old(self).working_bytes(), location, timing);
        }
        self.replace_working_raw(raw, WorkspaceOperation::ReplaceDtd { location, timing });
        Ok(())
    }

    pub fn delete_dtd(&mut self, location: DtdLocation) -> (r: Result<(), WorkspaceError>)
        ensures
            outcome(
                *old(self),
                *final(self),
                r,
                spec_delete_detailed_timing(old(self).working_bytes(), location),
                OperationView::DeleteDtd { location },
            ),
    {
        let raw = match delete_detailed_timing(self.working.raw.as_slice(), location) {
            Ok(raw) => raw,
            Err(e) => return Err(WorkspaceError::Edid(e)),
        };
        proof {
            lemma_delete_detailed_keeps_base(old(self).working_bytes(), location);
        }
        self.replace_working_raw(raw, WorkspaceOperation::DeleteDtd { location });
        Ok(())
    }

    pub fn delete_standard_timing(&mut self, slot: usize) -> (r: Result<(), WorkspaceError>)
        ensures
            outcome(
                *old(self),
                *final(self),
                r,
                spec_delete_standard_timing(old(self).working_bytes(), slot),
                OperationView::DeleteStandardTiming { slot },
            ),
    {
        let raw = match delete_standard_timing(self.working.raw.as_slice(), slot) {
            Ok(raw) => raw,
            Err(e) => return Err(WorkspaceError::Edid(e)),
        };
        proof {
            lemma_delete_standard_keeps_base(old(self).working_bytes(), slot);
        }
        self.replace_working_raw(raw, WorkspaceOperation::DeleteStandardTiming { slot });
        Ok(())
    }

    pub fn add_standard_timing(&mut self, timing: StandardTiming) -> (r: Result<usize, WorkspaceError>)
        ensures
            match r {
                Ok(slot) => spec_insert_standard_timing(old(self).working_bytes(), timing) is Ok
                    && slot == spec_insert_standard_timing(old(self).working_bytes(), timing)->Ok_0.1
                    && edited(
                    *old(self),
                    *final(self),
                    spec_insert_standard_timing(old(self).working_bytes(), timing)->Ok_0.0,
                    OperationView::AddStandardTiming { slot, timing },
                ),
                Err(WorkspaceError::Edid(e)) => spec_insert_standard_timing(
                    old(self).working_bytes(),
                    timing,
                ) == Err::<(Seq<u8>, usize), EdidError>(e) && *final(self) == *old(self),
            },
    {
        let (raw, slot) = match insert_standard_timing(self.working.raw.as_slice(), &timing) {
            Ok(found) => found,
            Err(e) => return Err(WorkspaceError::Edid(e)),
        };
        proof {
            lemma_insert_standard_keeps_base(old(self).working_bytes(), timing);
        }
        self.replace_working_raw(raw, WorkspaceOperation::AddStandardTiming { slot, timing });
        Ok(slot)
    }

    pub fn replace_standard_timing(&mut self, slot: usize, timing: StandardTiming) -> (r: Result<
        (),
        WorkspaceError,
    >)
        ensures
            outcome(
                *old(self),
                *final(self),
                r,
                spec_patch_standard_timing(old(self).working_bytes(), slot, timing),
                OperationView::ReplaceStandardTiming { slot, timing },
            ),
    {
        let raw = match patch_standard_timing(self.working.raw.as_slice(), slot, &timing) {
            Ok(raw) => raw,
            Err(e) => return Err(WorkspaceError::Edid(e)),
        };
        proof {
            lemma_patch_standard_keeps_base(old(self).working_bytes(), slot, timing);
        }
        self.replace_working_raw(raw, WorkspaceOperation::ReplaceStandardTiming { slot, timing });
        Ok(())
    }

    /// Moves detailed timing number `index` one place in `direction` by
    /// exchanging it with its neighbour; returns the index that holds it now.
    pub fn move_dtd(&mut self, index: usize, direction: MoveDirection) -> (r: Result<
        usize,
        WorkspaceError,
    >)
        ensures
            match r {
                Ok(i) => spec_move_dtd(old(self).working_bytes(), index, direction) is Ok && i
                    == spec_move_dtd(old(self).working_bytes(), index, direction)->Ok_0.0 && match spec_move_dtd(
                    old(self).working_bytes(),
                    index,
                    direction,
                )->Ok_0.1 {
                    None => *final(self) == *old(self),
                    Some((bytes, op)) => edited(*old(self), *final(self), bytes, op),
                },
                Err(WorkspaceError::Edid(e)) => spec_move_dtd(
                    old(self).working_bytes(),
                    index,
                    direction,
                ) == Err::<(usize, Option<(Seq<u8>, OperationView)>), EdidError>(e) && *final(self)
                    == *old(self),
            },
    {
        let dtds = match self.dtds() {
            Ok(dtds) => dtds,
            Err(e) => return Err(e),
        };
        if dtds.len() == 0 {
            return Ok(index);
        }
        if index >= dtds.len() {
            return Ok(dtds.len() - 1);
        }
        let target_index = match direction.target_index(index, dtds.len()) {
            Some(t) => t,
            None => return Ok(index),
        };
        let current = dtds[index];
        let target = dtds[target_index];
        let raw = match patch_detailed_timing(
            self.working.raw.as_slice(),
            current.location,
            &target.timing,
        ) {
            Ok(raw) => raw,
            Err(e) => return Err(WorkspaceError::Edid(e)),
        };
        let raw2 = match patch_detailed_timing(raw.as_slice(), target.location, &current.timing) {
            Ok(raw2) => raw2,
            Err(e) => return Err(WorkspaceError::Edid(e)),
        };
        proof {
            lemma_patch_detailed_keeps_base(old(self).working_bytes(), current.location, target.timing);
            lemma_patch_detailed_keeps_base(raw@, target.location, current.timing);
        }
        self.replace_working_raw(
            raw2,
            WorkspaceOperation::ReorderDtd { from: current.location, to: target.location },
        );
        Ok(target_index)
    }

    /// Goes back to the original bytes, forgetting every edit.
    pub fn reset(&mut self) -> (r: Result<(), WorkspaceError>)
        ensures
            match r {
                Ok(_) => spec_parse_edid(old(self).original()) is Ok && final(self).original()
                    == old(self).original() && final(self).working_bytes() == old(self).original()
                    && final(self).history() == seq![OperationView::Reset],
                Err(WorkspaceError::Edid(e)) => spec_parse_edid(old(self).original()) == Err::<
                    EdidDataView,
                    EdidError,
                >(e) && *final(self) == *old(self),
            },
    {
        let working = match parse_edid(slice_to_vec(self.original_raw.as_slice())) {
            Ok(w) => w,
            Err(e) => return Err(WorkspaceError::Edid(e)),
        };
        self.working = working;
        let mut operations: Vec<WorkspaceOperation> = Vec::new();
        operations.push(WorkspaceOperation::Reset);
        assert(operations.deep_view() =~= seq![OperationView::Reset]);
        self.operations = operations;
        Ok(())
    }

    /// Replaces the working bytes with bytes read from `source`.
    pub fn import_working_raw(&mut self, raw: Vec<u8>, source: &str) -> (r: Result<(), WorkspaceError>)
        ensures
            match r {
                Ok(_) => spec_parse_edid(raw@) is Ok && edited(
                    *old(self),
                    *final(self),
                    raw@,
                    OperationView::ImportEdid { source: source@ },
                ),
                Err(WorkspaceError::Edid(e)) => spec_parse_edid(raw@) == Err::<
                    EdidDataView,
                    EdidError,
                >(e) && *final(self) == *old(self),
            },
    {
        let working = match parse_edid(raw) {
            Ok(w) => w,
            Err(e) => return Err(WorkspaceError::Edid(e)),
        };
        self.install_parsed(working, WorkspaceOperation::ImportEdid { source: String::from_str(source) });
        Ok(())
    }

    pub fn dtds(&self) -> (r: Result<Vec<LocatedDetailedTiming>, WorkspaceError>)
        ensures
            r is Ok,
            r matches Ok(v) ==> v@ == spec_detailed_timing_locations(self.working_bytes()),
    {
        proof {
            use_type_invariant(self);
        }
        match detailed_timing_locations(self.working.raw.as_slice()) {
            Ok(v) => Ok(v),
            Err(e) => Err(WorkspaceError::Edid(e)),
        }
    }

    pub fn standard_timings(&self) -> (r: Result<Vec<LocatedStandardTiming>, WorkspaceError>)
        ensures
            r is Ok,
            r matches Ok(v) ==> v@ == spec_standard_timings(self.working_bytes()).map_values(
                |t: StandardTiming| LocatedStandardTiming { slot: t.slot, timing: t },
            ),
    {
        proof {
            use_type_invariant(self);
        }
        match standard_timing_locations(self.working.raw.as_slice()) {
            Ok(v) => Ok(v),
            Err(e) => Err(WorkspaceError::Edid(e)),
        }
    }

    pub fn cta_dtd_slots(&self) -> (r: Result<Vec<CtaDtdSlot>, WorkspaceError>)
        ensures
            r is Ok,
            r matches Ok(v) ==> v@ == spec_cta_dtd_slots(self.working_bytes()),
    {
        proof {
            use_type_invariant(self);
        }
        match cta_dtd_slots(self.working.raw.as_slice()) {
            Ok(v) => Ok(v),
            Err(e) => Err(WorkspaceError::Edid(e)),
        }
    }

    pub fn slot_summary(&self) -> (r: Result<EdidSlotSummary, WorkspaceError>)
        ensures
            r is Ok,
            r matches Ok(s) ==> s == spec_slot_summary(self.working_bytes()),
    {
        proof {
            use_type_invariant(self);
        }
        match slot_summary(self.working.raw.as_slice()) {
            Ok(s) => Ok(s),
            Err(e) => Err(WorkspaceError::Edid(e)),
        }
    }

    /// Problems with the working bytes: a length the extension count does not
    /// account for, and every whole block whose checksum does not hold.
    pub fn validate(&self) -> (r: Vec<ValidationIssue>)
        ensures
            r.deep_view() == spec_validation_issues(self.working_bytes(), self.working_bytes()[126]),
    {
        proof {
            use_type_invariant(self);
        }
        let raw = self.working.raw.as_slice();
        let ghost rv = raw@;
        let mut issues: Vec<ValidationIssue> = Vec::new();
        let expected: usize = (self.working.extension_blocks as usize + 1) * 128;
        if raw.len() != expected {
            let mut m = String::from_str("EDID length is ");
            push_decimal(&mut m, raw.len() as u64);
            push_str(&mut m, " bytes but its extension count requires ");
            push_decimal(&mut m, expected as u64);
            issues.push(ValidationIssue { message: m });
        }
        let ghost head = issues.deep_view();
        let blocks = raw.len() / 128;
        let mut index: usize = 0;
        while index < blocks
            invariant
                rv == raw@,
                rv.len() == raw.len(),
                blocks == rv.len() / 128,
                0 <= index <= blocks,
                issues.deep_view() == head + checksum_issues(rv, index as nat),
            decreases blocks - index,
        {
            assert(index * 128 + 128 <= rv.len()) by (nonlinear_arith)
                requires
                    index < blocks,
                    blocks == rv.len() / 128,
            ;
            let block = &raw[index * 128..index * 128 + 128];
            let ghost before = issues.deep_view();
            if !block_checksum_valid(block) {
                let m = if index == 0 {
                    String::from_str("base EDID checksum is invalid")
                } else {
                    let mut m = String::from_str("EDID extension ");
                    push_decimal(&mut m, index as u64);
                    push_str(&mut m, " checksum is invalid");
                    m
                };
                issues.push(ValidationIssue { message: m });
                assert(issues.deep_view() =~= before.push(checksum_issue(index as int)));
            }
            index = index + 1;
            assert(issues.deep_view() =~= head + checksum_issues(rv, index as nat));
        }
        assert(issues.deep_view() =~= spec_validation_issues(rv, rv[126]));
        issues
    }

    /// What changed since the original bytes: a line with the count of
    /// changed bytes and a line per edit, or one line when nothing changed.
    pub fn diff_summary(&self) -> (r: Vec<String>)
        ensures
            r.deep_view() == spec_diff_summary(
                self.original(),
                self.working_bytes(),
                self.history(),
            ),
    {
        let original = self.original_raw.as_slice();
        let working = self.working.raw.as_slice();
        let mut summary: Vec<String> = Vec::new();
        if bytes_equal(original, working) {
            summary.push(String::from_str("No EDID byte changes."));
            assert(summary.deep_view() =~= seq!["No EDID byte changes."@]);
            return summary;
        }
        let changed = count_changed_bytes(original, working);
        let mut head = String::new();
        push_decimal(&mut head, changed as u64);
        push_str(&mut head, " EDID bytes changed.");
        summary.push(head);
        let ghost first = summary.deep_view();
        let ghost hist = self.operations.deep_view();
        let mut i: usize = 0;
        while i < self.operations.len()
            invariant
                hist == self.operations.deep_view(),
                0 <= i <= hist.len(),
                summary.deep_view() == first + hist.take(i as int).map_values(
                    |op: OperationView| operation_line(op),
                ),
            decreases hist.len() - i,
        {
            let line = operation_text(&self.operations[i]);
            let ghost before = summary.deep_view();
            summary.push(line);
            assert(summary.deep_view() =~= before.push(line@));
            i = i + 1;
            assert(summary.deep_view() =~= first + hist.take(i as int).map_values(
                |op: OperationView| operation_line(op),
            ));
        }
        assert(hist.take(hist.len() as int) =~= hist);
        summary
    }
}


/// `new` follows `old` by some edit.
pub open spec fn follows(old: EdidWorkspace, new: EdidWorkspace) -> bool {
    exists|bytes: Seq<u8>, op: OperationView| edited(old, new, bytes, op)
}

/// Edits never touch the original bytes: after any chain of edits the
/// workspace still holds the bytes it started from as its original, which is
/// what a reset goes back to.
pub proof fn lemma_edits_keep_original(chain: Seq<EdidWorkspace>)
    requires
        chain.len() > 0,
        forall|i: int| 0 <= i < chain.len() - 1 ==> #[trigger] follows(chain[i], chain[i + 1]),
    ensures
        chain.last().original() == chain[0].original(),
    decreases chain.len(),
{
    if chain.len() > 1 {
        let shorter = chain.drop_last();
        assert forall|i: int| 0 <= i < shorter.len() - 1 implies #[trigger] follows(
            shorter[i],
            shorter[i + 1],
        ) by {
            assert(follows(chain[i], chain[i + 1]));
        }
        lemma_edits_keep_original(shorter);
        let k = chain.len() - 2;
        assert(follows(chain[k], chain[k + 1]));
    }
}


/// Once the bytes differ from the original, the summary has the count line
/// and then one line per edit since creation or the last reset, in order.
pub proof fn lemma_diff_summary_one_line_per_edit(w: EdidWorkspace)
    requires
        w.original() != w.working_bytes(),
    ensures
        spec_diff_summary(w.original(), w.working_bytes(), w.history()).len() == 1 + w.history().len(),
        forall|k: int|
            0 <= k < w.history().len() ==> #[trigger] spec_diff_summary(
                w.original(),
                w.working_bytes(),
                w.history(),
            )[k + 1] == operation_line(w.history()[k]),
{
}

/// An edit that leaves the bytes different from the original adds exactly
/// one line to a summary that already listed edits: the line of that edit.
pub proof fn lemma_edit_adds_one_summary_line(
    old: EdidWorkspace,
    new: EdidWorkspace,
    bytes: Seq<u8>,
    op: OperationView,
)
    requires
        edited(old, new, bytes, op),
        old.original() != old.working_bytes(),
        new.original() != bytes,
    ensures
        spec_diff_summary(new.original(), new.working_bytes(), new.history())
            == spec_diff_summary(old.original(), old.working_bytes(), old.history()).drop_first().push(
            operation_line(op),
        ).insert(0, spec_diff_summary(new.original(), new.working_bytes(), new.history())[0]),
        spec_diff_summary(new.original(), new.working_bytes(), new.history()).len()
            == spec_diff_summary(old.original(), old.working_bytes(), old.history()).len() + 1,
{
    let s_old = spec_diff_summary(old.original(), old.working_bytes(), old.history());
    let s_new = spec_diff_summary(new.original(), new.working_bytes(), new.history());
    assert(s_new =~= s_old.drop_first().push(operation_line(op)).insert(0, s_new[0]));
}

} // verus!
