//! The editors of a detailed and of a standard timing: their fields, how an
//! edit of one field carries over to the others, and their summaries. What
//! takes floating point (a preset's timing, a pixel clock worked out from a
//! typed refresh or line rate) is left to the caller, which an edit names.
use crate::edid::DtdLocation;
use crate::editor::{
    blanking_and_total, cycle_detailed_field, field_u16, spec_axis_parts, spec_detailed_field_order,
    field_position, spec_allows, spec_is_text_field, spec_manual_timing, spec_parse_unsigned,
    axis_parts, back_from_blanking, back_from_total, manual_timing, parse_u32, totals_from_parts,
    EditorField, TextInput,
};
use crate::fixed::{fixed_text, push_fixed};
use crate::models::TimingDescriptor;
use crate::text::{decimal, decimal_string, push_str};
use crate::timings::{preset_at, preset_index, TimingPreset};
use vstd::prelude::*;

verus! {

/// What the detailed editor was opened for.
#[derive(Debug, Clone, Copy, PartialEq, Eq, Structural)]
pub enum EditorMode {
    Add,
    AddCta { extension_index: u8, slot: Option<usize> },
    Edit { index: usize, location: DtdLocation },
    EditCta { extension_row: usize, location: DtdLocation },
}

/// The work an edit leaves to the caller, which computes in floating point.
#[derive(Debug, Clone, Copy, PartialEq, Eq, Structural)]
pub enum FollowUp {
    /// Nothing is left to do.
    Nothing,
    /// Fill the fields from the selected preset.
    ApplyPreset,
    /// Work out the pixel clock from the typed refresh rate.
    PixelClockFromRefresh,
    /// Work out the pixel clock from the typed horizontal rate.
    PixelClockFromHRate,
}

/// The place of a field's text among the editor's texts. The toggles have
/// no text of their own and stand for the refresh field.
pub open spec fn slot(field: EditorField) -> int {
    match field {
        EditorField::Width => 0,
        EditorField::Height => 1,
        EditorField::HFront => 2,
        EditorField::HSync => 3,
        EditorField::HBack => 4,
        EditorField::HBlanking => 5,
        EditorField::HTotal => 6,
        EditorField::VFront => 7,
        EditorField::VSync => 8,
        EditorField::VBack => 9,
        EditorField::VBlanking => 10,
        EditorField::VTotal => 11,
        EditorField::PixelClock => 12,
        EditorField::HRate => 13,
        _ => 14,
    }
}

/// What the detailed editor holds: the text and cursor of each field, the
/// polarities, the scan, the preset, the active field and its purpose.
pub struct EditorState {
    pub texts: Seq<Seq<char>>,
    pub positions: Seq<nat>,
    pub h_sync_positive: bool,
    pub v_sync_positive: bool,
    pub interlaced: bool,
    pub preset: TimingPreset,
    pub active_field: EditorField,
    pub mode: EditorMode,
}

/// `s` with field `i` holding `t` and its cursor at the end.
pub open spec fn with_text(s: EditorState, i: int, t: Seq<char>) -> EditorState {
    EditorState { texts: s.texts.update(i, t), positions: s.positions.update(i, t.len()), ..s }
}

pub open spec fn h_parts(s: EditorState) -> Option<(u32, u32, u32, u32)> {
    spec_axis_parts(s.texts[0], s.texts[2], s.texts[3], s.texts[4])
}

pub open spec fn v_parts(s: EditorState) -> Option<(u32, u32, u32, u32)> {
    spec_axis_parts(s.texts[1], s.texts[7], s.texts[8], s.texts[9])
}

/// Blanking and total of an axis refreshed from its parts, when they are numbers.
pub open spec fn sync_axis(s: EditorState, parts: Option<(u32, u32, u32, u32)>, blanking: int, total: int) -> EditorState {
    match parts {
        None => s,
        Some(p) => with_text(
            with_text(s, blanking, decimal((p.1 + p.2 + p.3) as nat)),
            total,
            decimal((p.0 + p.1 + p.2 + p.3) as nat),
        ),
    }
}

pub open spec fn sync_h(s: EditorState) -> EditorState {
    sync_axis(s, h_parts(s), 5, 6)
}

pub open spec fn sync_v(s: EditorState) -> EditorState {
    sync_axis(s, v_parts(s), 10, 11)
}

/// `k - used`, not below 0, at most 65535.
pub open spec fn clamped_back(k: nat, used: int) -> nat {
    if k >= used {
        if k - used < 0xffff {
            (k - used) as nat
        } else {
            0xffff
        }
    } else {
        0
    }
}

/// The back porch of an axis set from its typed blanking (`from_total`
/// false) or total.
pub open spec fn back_from(
    s: EditorState,
    parts: Option<(u32, u32, u32, u32)>,
    typed: int,
    back: int,
    from_total: bool,
) -> EditorState {
    match (spec_parse_unsigned(s.texts[typed], 0xffff_ffff), parts) {
        (Some(k), Some(p)) => with_text(
            s,
            back,
            decimal(
                clamped_back(
                    k,
                    if from_total {
                        p.0 + p.1 + p.2
                    } else {
                        p.1 + p.2
                    },
                ),
            ),
        ),
        _ => s,
    }
}

/// Both totals, when all parts are numbers and both totals are above zero.
pub open spec fn totals(s: EditorState) -> Option<(u32, u32)> {
    match (h_parts(s), v_parts(s)) {
        (Some(h), Some(v)) => if h.0 + h.1 + h.2 + h.3 > 0 && v.0 + v.1 + v.2 + v.3 > 0 {
            Some(((h.0 + h.1 + h.2 + h.3) as u32, (v.0 + v.1 + v.2 + v.3) as u32))
        } else {
            None
        },
        _ => None,
    }
}

/// The rate fields worked out from the pixel clock, but for the one just
/// edited: the horizontal rate in kHz and the refresh rate in Hz, three
/// decimals each. The refresh is left alone when the product of the totals
/// does not fit in 32 bits.
pub open spec fn update_rates(s: EditorState, edited: EditorField) -> EditorState {
    match (spec_parse_unsigned(s.texts[12], 0xffff_ffff), totals(s)) {
        (Some(c), Some((ht, vt))) => if c == 0 {
            s
        } else {
            let s1 = if edited != EditorField::HRate {
                with_text(s, 13, fixed_text(c, ht as nat, 3))
            } else {
                s
            };
            if edited != EditorField::Refresh && ht * vt <= u32::MAX {
                with_text(s1, 14, fixed_text(c * 1000, (ht * vt) as nat, 3))
            } else {
                s1
            }
        },
        _ => s,
    }
}

/// What an edit of `field` does to the other fields, and what it leaves to
/// the caller: under a preset a new size or refresh re-applies the preset;
/// otherwise the editor turns manual, and a typed blanking or total sets the
/// back porch, a changed part refreshes blanking, totals and rates, and a
/// typed rate asks for a new pixel clock.
pub open spec fn spec_after_text_edit(s: EditorState, field: EditorField) -> (EditorState, FollowUp) {
    if s.preset != TimingPreset::Manual && (field == EditorField::Width || field == EditorField::Height
        || field == EditorField::Refresh) {
        (s, FollowUp::ApplyPreset)
    } else {
        let s = if field != EditorField::Preset {
            EditorState { preset: TimingPreset::Manual, ..s }
        } else {
            s
        };
        match field {
            EditorField::Refresh => (s, FollowUp::PixelClockFromRefresh),
            EditorField::HRate => (s, FollowUp::PixelClockFromHRate),
            EditorField::HBlanking => (
                update_rates(sync_h(back_from(s, h_parts(s), 5, 4, false)), field),
                FollowUp::Nothing,
            ),
            EditorField::HTotal => (
                update_rates(sync_h(back_from(s, h_parts(s), 6, 4, true)), field),
                FollowUp::Nothing,
            ),
            EditorField::VBlanking => (
                update_rates(sync_v(back_from(s, v_parts(s), 10, 9, false)), field),
                FollowUp::Nothing,
            ),
            EditorField::VTotal => (
                update_rates(sync_v(back_from(s, v_parts(s), 11, 9, true)), field),
                FollowUp::Nothing,
            ),
            EditorField::Width | EditorField::Height => (
                sync_v(sync_h(s)),
                FollowUp::PixelClockFromRefresh,
            ),
            EditorField::HFront | EditorField::HSync | EditorField::HBack | EditorField::VFront
            | EditorField::VSync | EditorField::VBack | EditorField::PixelClock => (
                update_rates(sync_v(sync_h(s)), field),
                FollowUp::Nothing,
            ),
            _ => (s, FollowUp::Nothing),
        }
    }
}

/// The editor of a detailed timing.
#[derive(Debug)]
pub struct DetailedEditor {
    pub h_active: TextInput,
    pub v_active: TextInput,
    pub h_front: TextInput,
    pub h_sync: TextInput,
    pub h_back: TextInput,
    pub h_blanking: TextInput,
    pub h_total: TextInput,
    pub v_front: TextInput,
    pub v_sync: TextInput,
    pub v_back: TextInput,
    pub v_blanking: TextInput,
    pub v_total: TextInput,
    pub pixel_clock: TextInput,
    pub h_rate: TextInput,
    pub refresh_hint: TextInput,
    pub h_sync_positive: bool,
    pub v_sync_positive: bool,
    pub interlaced: bool,
    pub preset: TimingPreset,
    pub active_field: EditorField,
    pub mode: EditorMode,
}

impl DetailedEditor {
    pub open spec fn inputs(&self) -> Seq<TextInput> {
        seq![
            self.h_active,
            self.v_active,
            self.h_front,
            self.h_sync,
            self.h_back,
            self.h_blanking,
            self.h_total,
            self.v_front,
            self.v_sync,
            self.v_back,
            self.v_blanking,
            self.v_total,
            self.pixel_clock,
            self.h_rate,
            self.refresh_hint,
        ]
    }

    pub open spec fn state(&self) -> EditorState {
        EditorState {
            texts: self.inputs().map_values(|t: TextInput| t.text()),
            positions: self.inputs().map_values(|t: TextInput| t.position()),
            h_sync_positive: self.h_sync_positive,
            v_sync_positive: self.v_sync_positive,
            interlaced: self.interlaced,
            preset: self.preset,
            active_field: self.active_field,
            mode: self.mode,
        }
    }

    /// The input of a field; the toggles answer with the refresh field's.
    pub open spec fn input_of(&self, field: EditorField) -> TextInput {
        self.inputs()[slot(field)]
    }
}


fn set_number(t: &mut TextInput, n: u64)
    ensures
        final(t).text() == decimal(n as nat),
        final(t).position() == decimal(n as nat).len(),
{
    t.set(decimal_string(n).as_str());
}

fn set_fixed(t: &mut TextInput, n: u64, d: u64, k: u32)
    requires
        n < 0x400_0000_0000,
        1 <= d < 0x2_0000_0000,
        1 <= k <= 3,
    ensures
        final(t).text() == fixed_text(n as nat, d as nat, k as nat),
        final(t).position() == fixed_text(n as nat, d as nat, k as nat).len(),
{
    let mut s = String::new();
    push_fixed(&mut s, n, d, k);
    t.set(s.as_str());
}

impl DetailedEditor {
    pub fn horizontal_parts(&self) -> (r: Option<(u32, u32, u32, u32)>)
        ensures
            r == h_parts(self.state()),
            r matches Some(p) ==> p.0 <= 0xffff && p.1 <= 0xffff && p.2 <= 0xffff && p.3 <= 0xffff,
    {
        axis_parts(&self.h_active, &self.h_front, &self.h_sync, &self.h_back)
    }

    pub fn vertical_parts(&self) -> (r: Option<(u32, u32, u32, u32)>)
        ensures
            r == v_parts(self.state()),
            r matches Some(p) ==> p.0 <= 0xffff && p.1 <= 0xffff && p.2 <= 0xffff && p.3 <= 0xffff,
    {
        axis_parts(&self.v_active, &self.v_front, &self.v_sync, &self.v_back)
    }

    /// Both totals, when the fields of both axes hold numbers whose sums are
    /// above zero.
    pub fn totals_from_fields(&self) -> (r: Option<(u32, u32)>)
        ensures
            r == totals(self.state()),
            r matches Some(t) ==> 1 <= t.0 <= 4 * 0xffff && 1 <= t.1 <= 4 * 0xffff,
    {
        let h = match self.horizontal_parts() {
            Some(h) => h,
            None => return None,
        };
        let v = match self.vertical_parts() {
            Some(v) => v,
            None => return None,
        };
        totals_from_parts(h, v)
    }

    pub fn sync_horizontal_totals(&mut self)
        ensures
            final(self).state() == sync_h(old(self).state()),
    {
        match self.horizontal_parts() {
            None => {},
            Some(p) => {
                let (blanking, total) = blanking_and_total(p);
                set_number(&mut self.h_blanking, blanking as u64);
                set_number(&mut self.h_total, total as u64);
                assert(self.state().texts =~= sync_h(old(self).state()).texts);
                assert(self.state().positions =~= sync_h(old(self).state()).positions);
            },
        }
    }

    pub fn sync_vertical_totals(&mut self)
        ensures
            final(self).state() == sync_v(old(self).state()),
    {
        match self.vertical_parts() {
            None => {},
            Some(p) => {
                let (blanking, total) = blanking_and_total(p);
                set_number(&mut self.v_blanking, blanking as u64);
                set_number(&mut self.v_total, total as u64);
                assert(self.state().texts =~= sync_v(old(self).state()).texts);
                assert(self.state().positions =~= sync_v(old(self).state()).positions);
            },
        }
    }

    fn set_h_back(&mut self, from_total: bool)
        ensures
            final(self).state() == back_from(
                old(self).state(),
                h_parts(old(self).state()),
                if from_total {
                    6
                } else {
                    5
                },
                4,
                from_total,
            ),
    {
        let p = match self.horizontal_parts() {
            Some(p) => p,
            None => return,
        };
        let back = if from_total {
            back_from_total(&self.h_total, p)
        } else {
            back_from_blanking(&self.h_blanking, p)
        };
        match back {
            None => {},
            Some(b) => {
                set_number(&mut self.h_back, b as u64);
                let ghost expected = back_from(
                    old(self).state(),
                    h_parts(old(self).state()),
                    if from_total {
                        6
                    } else {
                        5
                    },
                    4,
                    from_total,
                );
                assert(self.state().texts =~= expected.texts);
                assert(self.state().positions =~= expected.positions);
            },
        }
    }

    fn set_v_back(&mut self, from_total: bool)
        ensures
            final(self).state() == back_from(
                old(self).state(),
                v_parts(old(self).state()),
                if from_total {
                    11
                } else {
                    10
                },
                9,
                from_total,
            ),
    {
        let p = match self.vertical_parts() {
            Some(p) => p,
            None => return,
        };
        let back = if from_total {
            back_from_total(&self.v_total, p)
        } else {
            back_from_blanking(&self.v_blanking, p)
        };
        match back {
            None => {},
            Some(b) => {
                set_number(&mut self.v_back, b as u64);
                let ghost expected = back_from(
                    old(self).state(),
                    v_parts(old(self).state()),
                    if from_total {
                        11
                    } else {
                        10
                    },
                    9,
                    from_total,
                );
                assert(self.state().texts =~= expected.texts);
                assert(self.state().positions =~= expected.positions);
            },
        }
    }

    /// Works out the rate fields from the pixel clock, but for `edited`.
    pub fn update_rate_fields_from_pixel_clock(&mut self, edited: EditorField)
        ensures
            final(self).state() == update_rates(old(self).state(), edited),
    {
        let c = match parse_u32(self.pixel_clock.buffer().as_str()) {
            Some(c) => c,
            None => return,
        };
        let (ht, vt) = match self.totals_from_fields() {
            Some(t) => t,
            None => return,
        };
        if c == 0 {
            return;
        }
        let ghost s0 = old(self).state();
        if edited != EditorField::HRate {
            set_fixed(&mut self.h_rate, c as u64, ht as u64, 3);
        }
        let ghost s1 = if edited != EditorField::HRate {
            with_text(s0, 13, fixed_text(c as nat, ht as nat, 3))
        } else {
            s0
        };
        assert(self.state().texts =~= s1.texts);
        assert(self.state().positions =~= s1.positions);
        assert(1 <= ht as u64 * vt as u64 <= 4 * 0xffff * 4 * 0xffff) by (nonlinear_arith)
            requires
                1 <= ht <= 4 * 0xffff,
                1 <= vt <= 4 * 0xffff,
        ;
        if edited != EditorField::Refresh && ht as u64 * vt as u64 <= 0xffff_ffff {
            set_fixed(&mut self.refresh_hint, c as u64 * 1000, ht as u64 * vt as u64, 3);
            assert(self.state().texts =~= update_rates(s0, edited).texts);
            assert(self.state().positions =~= update_rates(s0, edited).positions);
        }
    }

    /// Carries an edit of `field` over to the other fields; says what is
    /// left to the caller.
    pub fn after_text_edit(&mut self, field: EditorField) -> (r: FollowUp)
        ensures
            (final(self).state(), r) == spec_after_text_edit(old(self).state(), field),
    {
        if self.preset != TimingPreset::Manual && (field == EditorField::Width || field
            == EditorField::Height || field == EditorField::Refresh) {
            return FollowUp::ApplyPreset;
        }
        if field != EditorField::Preset {
            self.preset = TimingPreset::Manual;
        }
        match field {
            EditorField::Refresh => FollowUp::PixelClockFromRefresh,
            EditorField::HRate => FollowUp::PixelClockFromHRate,
            EditorField::HBlanking => {
                self.set_h_back(false);
                self.sync_horizontal_totals();
                self.update_rate_fields_from_pixel_clock(field);
                FollowUp::Nothing
            },
            EditorField::HTotal => {
                self.set_h_back(true);
                self.sync_horizontal_totals();
                self.update_rate_fields_from_pixel_clock(field);
                FollowUp::Nothing
            },
            EditorField::VBlanking => {
                self.set_v_back(false);
                self.sync_vertical_totals();
                self.update_rate_fields_from_pixel_clock(field);
                FollowUp::Nothing
            },
            EditorField::VTotal => {
                self.set_v_back(true);
                self.sync_vertical_totals();
                self.update_rate_fields_from_pixel_clock(field);
                FollowUp::Nothing
            },
            EditorField::Width | EditorField::Height => {
                self.sync_horizontal_totals();
                self.sync_vertical_totals();
                FollowUp::PixelClockFromRefresh
            },
            EditorField::HFront | EditorField::HSync | EditorField::HBack | EditorField::VFront
            | EditorField::VSync | EditorField::VBack | EditorField::PixelClock => {
                self.sync_horizontal_totals();
                self.sync_vertical_totals();
                self.update_rate_fields_from_pixel_clock(field);
                FollowUp::Nothing
            },
            _ => FollowUp::Nothing,
        }
    }
}


/// An edit of one text field at its cursor.
#[derive(Debug, Clone, Copy, PartialEq, Eq, Structural)]
pub enum InputOp {
    Backspace,
    Delete,
    Left,
    Right,
    Home,
    End,
    Column(usize),
}

/// The text and cursor after `op`, as the text field's own operations give
/// them.
pub open spec fn op_on(text: Seq<char>, pos: nat, op: InputOp) -> (Seq<char>, nat) {
    match op {
        InputOp::Backspace => if pos > 0 {
            (text.remove(pos - 1), (pos - 1) as nat)
        } else {
            (text, pos)
        },
        InputOp::Delete => if pos < text.len() {
            (text.remove(pos as int), pos)
        } else {
            (text, pos)
        },
        InputOp::Left => (text, if pos > 0 {
            (pos - 1) as nat
        } else {
            0
        }),
        InputOp::Right => (text, if pos < text.len() {
            pos + 1
        } else {
            text.len()
        }),
        InputOp::Home => (text, 0),
        InputOp::End => (text, text.len()),
        InputOp::Column(c) => (text, if c < text.len() {
            c as nat
        } else {
            text.len()
        }),
    }
}

/// The text and cursor after typing `c` at the cursor; a comma goes in as
/// a decimal point.
pub open spec fn insert_on(text: Seq<char>, pos: nat, c: char) -> (Seq<char>, nat) {
    (text.insert(pos as int, if c == ',' { '.' } else { c }), pos + 1)
}

/// `s` after typing `c` in field `i`.
pub open spec fn with_insert(s: EditorState, i: int, c: char) -> EditorState {
    let (t, p) = insert_on(s.texts[i], s.positions[i], c);
    EditorState { texts: s.texts.update(i, t), positions: s.positions.update(i, p), ..s }
}

/// `s` after `op` on field `i`.
pub open spec fn with_op(s: EditorState, i: int, op: InputOp) -> EditorState {
    let (t, p) = op_on(s.texts[i], s.positions[i], op);
    EditorState { texts: s.texts.update(i, t), positions: s.positions.update(i, p), ..s }
}

fn insert_into(t: &mut TextInput, c: char)
    ensures
        final(t).text() == insert_on(old(t).text(), old(t).position(), c).0,
        final(t).position() == insert_on(old(t).text(), old(t).position(), c).1,
{
    t.insert(c);
}

fn apply_op(t: &mut TextInput, op: InputOp)
    ensures
        final(t).text() == op_on(old(t).text(), old(t).position(), op).0,
        final(t).position() == op_on(old(t).text(), old(t).position(), op).1,
{
    let _ = t.cursor();
    match op {
        InputOp::Backspace => t.backspace(),
        InputOp::Delete => t.delete(),
        InputOp::Left => t.move_left(),
        InputOp::Right => t.move_right(),
        InputOp::Home => t.move_home(),
        InputOp::End => t.move_end(),
        InputOp::Column(c) => t.set_cursor(c),
    }
}

/// The preset `delta` places on, and whether its timing must be applied.
pub open spec fn spec_cycle_preset(s: EditorState, delta: int) -> (EditorState, FollowUp) {
    let p = preset_at(preset_index(s.preset) + delta);
    (
        EditorState { preset: p, ..s },
        if p != TimingPreset::Manual {
            FollowUp::ApplyPreset
        } else {
            FollowUp::Nothing
        },
    )
}

/// What toggling a field does: the preset field cycles, the polarity and
/// scan fields flip and make the editor manual; other fields do not toggle.
pub open spec fn spec_toggle(s: EditorState, field: EditorField) -> Option<(EditorState, FollowUp)> {
    match field {
        EditorField::Preset => Some(spec_cycle_preset(s, 1)),
        EditorField::HPolarity => Some(
            (
                EditorState {
                    preset: TimingPreset::Manual,
                    h_sync_positive: !s.h_sync_positive,
                    ..s
                },
                FollowUp::Nothing,
            ),
        ),
        EditorField::VPolarity => Some(
            (
                EditorState {
                    preset: TimingPreset::Manual,
                    v_sync_positive: !s.v_sync_positive,
                    ..s
                },
                FollowUp::Nothing,
            ),
        ),
        EditorField::Interlaced => Some(
            (
                EditorState { preset: TimingPreset::Manual, interlaced: !s.interlaced, ..s },
                FollowUp::Nothing,
            ),
        ),
        _ => None,
    }
}

/// A typed character: a space toggles the active field, a character the
/// field takes goes in at the cursor and carries over.
pub open spec fn spec_insert_char(s: EditorState, value: char) -> (EditorState, FollowUp) {
    let f = s.active_field;
    if value == ' ' {
        match spec_toggle(s, f) {
            Some(x) => x,
            None => (s, FollowUp::Nothing),
        }
    } else if spec_allows(f, value, s.texts[slot(f)]) {
        spec_after_text_edit(with_insert(s, slot(f), value), f)
    } else {
        (s, FollowUp::Nothing)
    }
}

/// Backspace or delete in the active field, when it is a text field.
pub open spec fn spec_erase(s: EditorState, op: InputOp) -> (EditorState, FollowUp) {
    let f = s.active_field;
    if !spec_is_text_field(f) {
        (s, FollowUp::Nothing)
    } else {
        spec_after_text_edit(with_op(s, slot(f), op), f)
    }
}

/// A cursor move in the active field; left and right cycle the preset when
/// the preset field is active.
pub open spec fn spec_move(s: EditorState, op: InputOp) -> (EditorState, FollowUp) {
    let f = s.active_field;
    if f == EditorField::Preset && op == InputOp::Left {
        spec_cycle_preset(s, -1)
    } else if f == EditorField::Preset && op == InputOp::Right {
        spec_cycle_preset(s, 1)
    } else if !spec_is_text_field(f) {
        (s, FollowUp::Nothing)
    } else {
        (with_op(s, slot(f), op), FollowUp::Nothing)
    }
}

/// The field's text when it shows a number.
pub open spec fn number_text(n: int) -> Seq<char> {
    decimal(n as nat)
}

/// The refresh the editor starts from: the timing's with two decimals, or
/// 60 when it has none.
pub open spec fn refresh_hint_text(t: TimingDescriptor) -> Seq<char> {
    if t.spec_h_total() == 0 || t.spec_v_total() == 0 {
        "60.00"@
    } else {
        fixed_text((t.pixel_clock_khz * 1000) as nat, (t.spec_h_total() * t.spec_v_total()) as nat, 2)
    }
}

/// The texts of the fields that show a timing, but for the refresh.
pub open spec fn timing_texts(t: TimingDescriptor) -> Seq<Seq<char>> {
    seq![
        number_text(t.h_active as int),
        number_text(t.v_active as int),
        number_text(t.h_front_porch as int),
        number_text(t.h_sync_width as int),
        number_text(t.h_back_porch as int),
        number_text(t.h_blanking as int),
        number_text(t.spec_h_total() as int),
        number_text(t.v_front_porch as int),
        number_text(t.v_sync_width as int),
        number_text(t.v_back_porch as int),
        number_text(t.v_blanking as int),
        number_text(t.spec_v_total() as int),
        number_text(t.pixel_clock_khz as int),
        crate::report::horizontal_rate_text(t),
    ]
}

/// `s` showing timing `t` in every field but the refresh.
pub open spec fn spec_set_timing_fields(s: EditorState, t: TimingDescriptor) -> EditorState {
    let texts = timing_texts(t).push(s.texts[14]);
    EditorState {
        texts,
        positions: Seq::new(15, |i: int| if i < 14 { texts[i].len() } else { s.positions[14] }),
        h_sync_positive: t.h_sync_positive,
        v_sync_positive: t.v_sync_positive,
        interlaced: t.interlaced,
        ..s
    }
}

impl DetailedEditor {
    /// Applies `op` to the text of `field`.
    pub fn edit_input(&mut self, field: EditorField, op: InputOp)
        ensures
            final(self).state() == with_op(old(self).state(), slot(field), op),
    {
        match field {
            EditorField::Width => apply_op(&mut self.h_active, op),
            EditorField::Height => apply_op(&mut self.v_active, op),
            EditorField::HFront => apply_op(&mut self.h_front, op),
            EditorField::HSync => apply_op(&mut self.h_sync, op),
            EditorField::HBack => apply_op(&mut self.h_back, op),
            EditorField::HBlanking => apply_op(&mut self.h_blanking, op),
            EditorField::HTotal => apply_op(&mut self.h_total, op),
            EditorField::VFront => apply_op(&mut self.v_front, op),
            EditorField::VSync => apply_op(&mut self.v_sync, op),
            EditorField::VBack => apply_op(&mut self.v_back, op),
            EditorField::VBlanking => apply_op(&mut self.v_blanking, op),
            EditorField::VTotal => apply_op(&mut self.v_total, op),
            EditorField::PixelClock => apply_op(&mut self.pixel_clock, op),
            EditorField::HRate => apply_op(&mut self.h_rate, op),
            _ => apply_op(&mut self.refresh_hint, op),
        }
        assert(self.state().texts =~= with_op(old(self).state(), slot(field), op).texts);
        assert(self.state().positions =~= with_op(old(self).state(), slot(field), op).positions);
    }

    /// Types `c` into the text of `field`.
    pub fn edit_insert(&mut self, field: EditorField, c: char)
        ensures
            final(self).state() == with_insert(old(self).state(), slot(field), c),
    {
        match field {
            EditorField::Width => insert_into(&mut self.h_active, c),
            EditorField::Height => insert_into(&mut self.v_active, c),
            EditorField::HFront => insert_into(&mut self.h_front, c),
            EditorField::HSync => insert_into(&mut self.h_sync, c),
            EditorField::HBack => insert_into(&mut self.h_back, c),
            EditorField::HBlanking => insert_into(&mut self.h_blanking, c),
            EditorField::HTotal => insert_into(&mut self.h_total, c),
            EditorField::VFront => insert_into(&mut self.v_front, c),
            EditorField::VSync => insert_into(&mut self.v_sync, c),
            EditorField::VBack => insert_into(&mut self.v_back, c),
            EditorField::VBlanking => insert_into(&mut self.v_blanking, c),
            EditorField::VTotal => insert_into(&mut self.v_total, c),
            EditorField::PixelClock => insert_into(&mut self.pixel_clock, c),
            EditorField::HRate => insert_into(&mut self.h_rate, c),
            _ => insert_into(&mut self.refresh_hint, c),
        }
        assert(self.state().texts =~= with_insert(old(self).state(), slot(field), c).texts);
        assert(self.state().positions =~= with_insert(old(self).state(), slot(field), c).positions);
    }

    /// Moves to the preset `delta` places on; says whether it must be applied.
    pub fn cycle_preset(&mut self, delta: isize) -> (r: FollowUp)
        requires
            delta <= isize::MAX - 7,
        ensures
            (final(self).state(), r) == spec_cycle_preset(old(self).state(), delta as int),
    {
        self.preset = self.preset.cycle(delta);
        if self.preset != TimingPreset::Manual {
            FollowUp::ApplyPreset
        } else {
            FollowUp::Nothing
        }
    }

    /// Toggles `field`, if it is one of the toggles.
    pub fn toggle_field(&mut self, field: EditorField) -> (r: Option<FollowUp>)
        ensures
            match spec_toggle(old(self).state(), field) {
                Some((s, f)) => final(self).state() == s && r == Some(f),
                None => final(self).state() == old(self).state() && r is None,
            },
    {
        match field {
            EditorField::Preset => Some(self.cycle_preset(1)),
            EditorField::HPolarity => {
                self.preset = TimingPreset::Manual;
                self.h_sync_positive = !self.h_sync_positive;
                Some(FollowUp::Nothing)
            },
            EditorField::VPolarity => {
                self.preset = TimingPreset::Manual;
                self.v_sync_positive = !self.v_sync_positive;
                Some(FollowUp::Nothing)
            },
            EditorField::Interlaced => {
                self.preset = TimingPreset::Manual;
                self.interlaced = !self.interlaced;
                Some(FollowUp::Nothing)
            },
            _ => None,
        }
    }

    #[verifier::rlimit(40)]
    pub fn insert_char(&mut self, value: char) -> (r: FollowUp)
        ensures
            (final(self).state(), r) == spec_insert_char(old(self).state(), value),
    {
        let field = self.active_field;
        if value == ' ' {
            match self.toggle_field(field) {
                Some(f) => f,
                None => FollowUp::Nothing,
            }
        } else if field.allows(value, &self.input(field)) {
            self.type_char(field, value)
        } else {
            FollowUp::Nothing
        }
    }

    fn type_char(&mut self, field: EditorField, value: char) -> (r: FollowUp)
        ensures
            (final(self).state(), r) == spec_after_text_edit(
                with_insert(old(self).state(), slot(field), value),
                field,
            ),
    {
        self.edit_insert(field, value);
        self.after_text_edit(field)
    }

    pub fn backspace(&mut self) -> (r: FollowUp)
        ensures
            (final(self).state(), r) == spec_erase(old(self).state(), InputOp::Backspace),
    {
        let field = self.active_field;
        if !field.is_text_field() {
            return FollowUp::Nothing;
        }
        self.edit_input(field, InputOp::Backspace);
        self.after_text_edit(field)
    }

    pub fn delete(&mut self) -> (r: FollowUp)
        ensures
            (final(self).state(), r) == spec_erase(old(self).state(), InputOp::Delete),
    {
        let field = self.active_field;
        if !field.is_text_field() {
            return FollowUp::Nothing;
        }
        self.edit_input(field, InputOp::Delete);
        self.after_text_edit(field)
    }

    /// Moves the cursor of the active field by `op` (left, right, home or
    /// end); left and right cycle the preset on the preset field.
    pub fn move_cursor(&mut self, op: InputOp) -> (r: FollowUp)
        requires
            op == InputOp::Left || op == InputOp::Right || op == InputOp::Home || op == InputOp::End,
        ensures
            (final(self).state(), r) == spec_move(old(self).state(), op),
    {
        let field = self.active_field;
        if field == EditorField::Preset && op == InputOp::Left {
            return self.cycle_preset(-1);
        }
        if field == EditorField::Preset && op == InputOp::Right {
            return self.cycle_preset(1);
        }
        if !field.is_text_field() {
            return FollowUp::Nothing;
        }
        self.edit_input(field, op);
        FollowUp::Nothing
    }

    /// A click in `field` at `column`, whose row starts at `x`: the field
    /// becomes active and a toggle toggles, else the cursor goes where the
    /// click was, past the 13 columns of the label.
    pub fn set_cursor_from_column(&mut self, field: EditorField, column: u16, x: u16) -> (r: FollowUp)
        ensures
            ({
                let s = EditorState { active_field: field, ..old(self).state() };
                let clicked: int = if column >= x + 13 {
                    column - x - 13
                } else {
                    0
                };
                match spec_toggle(s, field) {
                    Some((t, f)) => final(self).state() == t && r == f,
                    None => final(self).state() == with_op(s, slot(field), InputOp::Column(clicked as usize))
                        && r == FollowUp::Nothing,
                }
            }),
    {
        self.active_field = field;
        match self.toggle_field(field) {
            Some(f) => f,
            None => {
                let from_x: u16 = if column > x {
                    column - x
                } else {
                    0
                };
                let clicked: usize = if from_x > 13 {
                    (from_x - 13) as usize
                } else {
                    0
                };
                self.edit_input(field, InputOp::Column(clicked));
                FollowUp::Nothing
            },
        }
    }

    pub fn next_field(&mut self)
        ensures
            final(self).state() == (EditorState {
                active_field: spec_detailed_field_order()[(field_position(old(self).active_field) + 1)
                    % 19].0,
                ..old(self).state()
            }),
    {
        self.active_field = cycle_detailed_field(self.active_field, 1);
    }

    pub fn previous_field(&mut self)
        ensures
            final(self).state() == (EditorState {
                active_field: spec_detailed_field_order()[(field_position(old(self).active_field) - 1)
                    % 19].0,
                ..old(self).state()
            }),
    {
        self.active_field = cycle_detailed_field(self.active_field, -1);
    }

    /// A copy of the input of `field`.
    pub fn input(&self, field: EditorField) -> (r: TextInput)
        ensures
            r.text() == self.input_of(field).text(),
            r.position() == self.input_of(field).position(),
    {
        match field {
            EditorField::Width => self.h_active.duplicate(),
            EditorField::Height => self.v_active.duplicate(),
            EditorField::HFront => self.h_front.duplicate(),
            EditorField::HSync => self.h_sync.duplicate(),
            EditorField::HBack => self.h_back.duplicate(),
            EditorField::HBlanking => self.h_blanking.duplicate(),
            EditorField::HTotal => self.h_total.duplicate(),
            EditorField::VFront => self.v_front.duplicate(),
            EditorField::VSync => self.v_sync.duplicate(),
            EditorField::VBack => self.v_back.duplicate(),
            EditorField::VBlanking => self.v_blanking.duplicate(),
            EditorField::VTotal => self.v_total.duplicate(),
            EditorField::PixelClock => self.pixel_clock.duplicate(),
            EditorField::HRate => self.h_rate.duplicate(),
            _ => self.refresh_hint.duplicate(),
        }
    }
}


/// The editor as it opens on timing `t`: every field shows the timing, the
/// preset is manual and the width is active.
pub open spec fn initial_state(t: TimingDescriptor, mode: EditorMode) -> EditorState {
    let texts = timing_texts(t).push(refresh_hint_text(t));
    EditorState {
        texts,
        positions: Seq::new(15, |i: int| texts[i].len()),
        h_sync_positive: t.h_sync_positive,
        v_sync_positive: t.v_sync_positive,
        interlaced: t.interlaced,
        preset: TimingPreset::Manual,
        active_field: EditorField::Width,
        mode,
    }
}

/// The pixel clock set from a typed refresh rate, with the horizontal rate
/// it gives.
pub open spec fn spec_clock_from_refresh(s: EditorState, clock: u32) -> EditorState {
    match totals(s) {
        None => s,
        Some((ht, vt)) => with_text(
            with_text(s, 12, decimal(clock as nat)),
            13,
            fixed_text(clock as nat, ht as nat, 3),
        ),
    }
}

/// The pixel clock set from a typed horizontal rate, with the refresh rate
/// it gives (left alone when the product of the totals does not fit in 32
/// bits).
pub open spec fn spec_clock_from_h_rate(s: EditorState, clock: u32) -> EditorState {
    match totals(s) {
        None => s,
        Some((ht, vt)) => {
            let s1 = with_text(s, 12, decimal(clock as nat));
            if ht * vt <= u32::MAX {
                with_text(s1, 14, fixed_text((clock * 1000) as nat, (ht * vt) as nat, 3))
            } else {
                s1
            }
        },
    }
}

fn rate_text(t: &TimingDescriptor) -> (r: String)
    ensures
        r@ == crate::report::horizontal_rate_text(*t),
{
    let mut r = String::new();
    let h = t.h_total();
    if h == 0 {
        push_fixed(&mut r, 0, 1, 3);
    } else {
        push_fixed(&mut r, t.pixel_clock_khz as u64, h as u64, 3);
    }
    r
}

fn hint_text(t: &TimingDescriptor) -> (r: String)
    ensures
        r@ == refresh_hint_text(*t),
{
    let h = t.h_total() as u64;
    let v = t.v_total() as u64;
    if h == 0 || v == 0 {
        return String::from_str("60.00");
    }
    assert(1 <= h * v <= 65535 * 65535) by (nonlinear_arith)
        requires
            1 <= h <= 65535,
            1 <= v <= 65535,
    ;
    let mut r = String::new();
    push_fixed(&mut r, t.pixel_clock_khz as u64 * 1000, h * v, 2);
    r
}

fn number_input(n: u64) -> (r: TextInput)
    ensures
        r.text() == decimal(n as nat),
        r.position() == decimal(n as nat).len(),
{
    TextInput::new(decimal_string(n).as_str())
}

impl DetailedEditor {
    #[verifier::rlimit(80)]
    pub fn from_timing(t: &TimingDescriptor, mode: EditorMode) -> (r: Self)
        ensures
            r.state() == initial_state(*t, mode),
    {
        let h_rate = rate_text(t);
        let hint = hint_text(t);
        let r = DetailedEditor {
            h_active: number_input(t.h_active as u64),
            v_active: number_input(t.v_active as u64),
            h_front: number_input(t.h_front_porch as u64),
            h_sync: number_input(t.h_sync_width as u64),
            h_back: number_input(t.h_back_porch as u64),
            h_blanking: number_input(t.h_blanking as u64),
            h_total: number_input(t.h_total() as u64),
            v_front: number_input(t.v_front_porch as u64),
            v_sync: number_input(t.v_sync_width as u64),
            v_back: number_input(t.v_back_porch as u64),
            v_blanking: number_input(t.v_blanking as u64),
            v_total: number_input(t.v_total() as u64),
            pixel_clock: number_input(t.pixel_clock_khz as u64),
            h_rate: TextInput::new(h_rate.as_str()),
            refresh_hint: TextInput::new(hint.as_str()),
            h_sync_positive: t.h_sync_positive,
            v_sync_positive: t.v_sync_positive,
            interlaced: t.interlaced,
            preset: TimingPreset::Manual,
            active_field: EditorField::Width,
            mode,
        };
        assert(r.state().texts =~= initial_state(*t, mode).texts);
        assert(r.state().positions =~= initial_state(*t, mode).positions);
        r
    }

    /// Shows timing `t` in every field but the refresh.
    pub fn set_timing_fields(&mut self, t: &TimingDescriptor)
        ensures
            final(self).state() == spec_set_timing_fields(old(self).state(), *t),
    {
        let hint = self.refresh_hint.duplicate();
        let fresh = DetailedEditor::from_timing(t, self.mode);
        let ghost fresh_inputs = fresh.inputs();
        let ghost fresh_state = fresh.state();
        let ghost expected = spec_set_timing_fields(old(self).state(), *t);
        let ghost init = initial_state(*t, old(self).mode);
        *self = DetailedEditor {
            refresh_hint: hint,
            preset: self.preset,
            active_field: self.active_field,
            ..fresh
        };
        proof {
            assert forall|i: int| 0 <= i < 15 implies self.state().texts[i] == expected.texts[i]
                && self.state().positions[i] == expected.positions[i] by {
                if i < 14 {
                    assert(self.inputs()[i] == fresh_inputs[i]);
                    assert(fresh_state.texts[i] == fresh_inputs[i].text());
                    assert(fresh_state.positions[i] == fresh_inputs[i].position());
                    assert(fresh_state == init);
                    assert(init.texts[i] == timing_texts(*t)[i]);
                    assert(expected.texts[i] == timing_texts(*t)[i]);
                } else {
                    assert(self.inputs()[14] == self.refresh_hint);
                    assert(old(self).state().texts[14] == old(self).refresh_hint.text());
                    assert(old(self).state().positions[14] == old(self).refresh_hint.position());
                }
            }
            assert(self.state().texts =~= expected.texts);
            assert(self.state().positions =~= expected.positions);
        }
    }

    /// Takes the pixel clock worked out from the typed refresh rate.
    pub fn set_pixel_clock_from_refresh(&mut self, clock: u32)
        ensures
            final(self).state() == spec_clock_from_refresh(old(self).state(), clock),
    {
        let (ht, _vt) = match self.totals_from_fields() {
            Some(t) => t,
            None => return,
        };
        set_number(&mut self.pixel_clock, clock as u64);
        set_fixed(&mut self.h_rate, clock as u64, ht as u64, 3);
        assert(self.state().texts =~= spec_clock_from_refresh(old(self).state(), clock).texts);
        assert(self.state().positions =~= spec_clock_from_refresh(old(self).state(), clock).positions);
    }

    /// Takes the pixel clock worked out from the typed horizontal rate.
    pub fn set_pixel_clock_from_h_rate(&mut self, clock: u32)
        ensures
            final(self).state() == spec_clock_from_h_rate(old(self).state(), clock),
    {
        let (ht, vt) = match self.totals_from_fields() {
            Some(t) => t,
            None => return,
        };
        set_number(&mut self.pixel_clock, clock as u64);
        let ghost s1 = with_text(old(self).state(), 12, decimal(clock as nat));
        assert(self.state().texts =~= s1.texts);
        assert(self.state().positions =~= s1.positions);
        assert(1 <= ht as u64 * vt as u64 <= 4 * 0xffff * 4 * 0xffff) by (nonlinear_arith)
            requires
                1 <= ht <= 4 * 0xffff,
                1 <= vt <= 4 * 0xffff,
        ;
        if ht as u64 * vt as u64 <= 0xffff_ffff {
            set_fixed(&mut self.refresh_hint, clock as u64 * 1000, ht as u64 * vt as u64, 3);
            assert(self.state().texts =~= spec_clock_from_h_rate(old(self).state(), clock).texts);
            assert(self.state().positions =~= spec_clock_from_h_rate(old(self).state(), clock).positions);
        }
    }

    pub open spec fn spec_render_field(&self, field: EditorField, active: bool) -> Seq<char> {
        match field {
            EditorField::Preset => self.preset.spec_label(),
            EditorField::HPolarity => if self.h_sync_positive {
                "H+"@
            } else {
                "H-"@
            },
            EditorField::VPolarity => if self.v_sync_positive {
                "V+"@
            } else {
                "V-"@
            },
            EditorField::Interlaced => crate::report::spec_yes_no(self.interlaced),
            _ => {
                let t = self.input_of(field);
                if active {
                    t.text().take(t.position() as int) + seq!['|'] + t.text().skip(t.position() as int)
                } else {
                    t.text()
                }
            },
        }
    }

    /// How a field shows: the preset's name, a polarity's sign, the scan,
    /// or the text with the cursor in the active field.
    pub fn render_field(&self, field: EditorField, active: bool) -> (r: String)
        ensures
            r@ == self.spec_render_field(field, active),
    {
        match field {
            EditorField::Preset => String::from_str(self.preset.label()),
            EditorField::HPolarity => String::from_str(if self.h_sync_positive { "H+" } else { "H-" }),
            EditorField::VPolarity => String::from_str(if self.v_sync_positive { "V+" } else { "V-" }),
            EditorField::Interlaced => String::from_str(crate::report::yes_no(self.interlaced)),
            _ => self.input(field).render(active),
        }
    }

    /// The timing the fields describe, as typed.
    pub fn manual_timing(&self) -> (r: Result<TimingDescriptor, &'static str>)
        ensures
            match r {
                Ok(t) => spec_manual_timing(
                    self.h_active.text(),
                    self.v_active.text(),
                    self.h_front.text(),
                    self.h_sync.text(),
                    self.h_back.text(),
                    self.v_front.text(),
                    self.v_sync.text(),
                    self.v_back.text(),
                    self.pixel_clock.text(),
                    self.h_sync_positive,
                    self.v_sync_positive,
                    self.interlaced,
                ) == Ok::<TimingDescriptor, Seq<char>>(t),
                Err(e) => spec_manual_timing(
                    self.h_active.text(),
                    self.v_active.text(),
                    self.h_front.text(),
                    self.h_sync.text(),
                    self.h_back.text(),
                    self.v_front.text(),
                    self.v_sync.text(),
                    self.v_back.text(),
                    self.pixel_clock.text(),
                    self.h_sync_positive,
                    self.v_sync_positive,
                    self.interlaced,
                ) == Err::<TimingDescriptor, Seq<char>>(e@),
            },
    {
        manual_timing(
            &self.h_active,
            &self.v_active,
            &self.h_front,
            &self.h_sync,
            &self.h_back,
            &self.v_front,
            &self.v_sync,
            &self.v_back,
            &self.pixel_clock,
            self.h_sync_positive,
            self.v_sync_positive,
            self.interlaced,
        )
    }
}


/// The lines of the timing warnings a summary lists: at most five, then a
/// count of the rest.
pub open spec fn summary_warning_lines(ws: Seq<crate::validation::TimingWarningView>) -> Seq<Seq<char>> {
    if ws.len() == 0 {
        Seq::empty()
    } else {
        let shown: int = if ws.len() < 5 {
            ws.len() as int
        } else {
            5
        };
        seq![Seq::empty(), "Timing warnings"@] + ws.take(shown).map_values(
            |w: crate::validation::TimingWarningView|
                "- "@ + crate::browser::severity_text(w) + ": "@ + w.message,
        ) + if ws.len() > 5 {
            seq!["- ... "@ + decimal((ws.len() - 5) as nat) + " more warning(s)"@]
        } else {
            Seq::empty()
        }
    }
}

/// `+` or `-`.
pub open spec fn sign(positive: bool) -> Seq<char> {
    if positive {
        "+"@
    } else {
        "-"@
    }
}

/// The summary lines of a detailed timing under a preset.
pub open spec fn detailed_summary_lines(t: TimingDescriptor, preset: TimingPreset) -> Seq<Seq<char>> {
    seq![
        "Detailed Timing Summary"@,
        "Mode: "@ + t.spec_hyprland_mode(),
        "Pixel clock: "@ + decimal(t.pixel_clock_khz as nat) + " kHz   Horizontal rate: "@
            + crate::report::horizontal_rate_text(t) + " kHz   Refresh: "@ + t.spec_refresh_text(3)
            + " Hz"@,
        "Horizontal blanking "@ + decimal(t.h_blanking as nat) + " total "@ + decimal(
            t.spec_h_total() as nat,
        ) + "   Vertical blanking "@ + decimal(t.v_blanking as nat) + " total "@ + decimal(
            t.spec_v_total() as nat,
        ),
        "Sync polarity: H"@ + sign(t.h_sync_positive) + " V"@ + sign(t.v_sync_positive)
            + "   Interlaced: "@ + crate::report::spec_yes_no(t.interlaced),
        "Preset: "@ + preset.spec_label(),
    ] + summary_warning_lines(crate::browser::timing_warnings(t))
}

/// The text under the detailed editor: the summary of the timing the fields
/// give, or why they give none.
pub open spec fn spec_detailed_summary(timing: Result<TimingDescriptor, Seq<char>>, preset: TimingPreset) -> Seq<
    char,
> {
    match timing {
        Ok(t) => crate::text::joined(detailed_summary_lines(t, preset), "\n"@),
        Err(reason) => "Invalid detailed timing: "@ + reason + "."@,
    }
}

fn sign_text(positive: bool) -> (r: &'static str)
    ensures
        r@ == sign(positive),
{
    if positive {
        "+"
    } else {
        "-"
    }
}

pub fn detailed_summary(timing: &Result<TimingDescriptor, &'static str>, preset: TimingPreset) -> (r: String)
    ensures
        r@ == spec_detailed_summary(
            match timing {
                Ok(t) => Ok::<TimingDescriptor, Seq<char>>(*t),
                Err(e) => Err::<TimingDescriptor, Seq<char>>(e@),
            },
            preset,
        ),
{
    let t = match timing {
        Ok(t) => t,
        Err(reason) => {
            let mut r = String::from_str("Invalid detailed timing: ");
            push_str(&mut r, reason);
            push_str(&mut r, ".");
            return r;
        },
    };
    let mut lines: Vec<String> = Vec::new();
    crate::install::push_line(&mut lines, String::from_str("Detailed Timing Summary"));
    let mut mode = String::from_str("Mode: ");
    push_str(&mut mode, t.hyprland_mode().as_str());
    crate::install::push_line(&mut lines, mode);
    let mut clock = String::from_str("Pixel clock: ");
    crate::text::push_decimal(&mut clock, t.pixel_clock_khz as u64);
    push_str(&mut clock, " kHz   Horizontal rate: ");
    push_str(&mut clock, rate_text(t).as_str());
    push_str(&mut clock, " kHz   Refresh: ");
    t.push_refresh(&mut clock, 3);
    push_str(&mut clock, " Hz");
    crate::install::push_line(&mut lines, clock);
    let mut axes = String::from_str("Horizontal blanking ");
    crate::text::push_decimal(&mut axes, t.h_blanking as u64);
    push_str(&mut axes, " total ");
    crate::text::push_decimal(&mut axes, t.h_total() as u64);
    push_str(&mut axes, "   Vertical blanking ");
    crate::text::push_decimal(&mut axes, t.v_blanking as u64);
    push_str(&mut axes, " total ");
    crate::text::push_decimal(&mut axes, t.v_total() as u64);
    crate::install::push_line(&mut lines, axes);
    let mut sync = String::from_str("Sync polarity: H");
    push_str(&mut sync, sign_text(t.h_sync_positive));
    push_str(&mut sync, " V");
    push_str(&mut sync, sign_text(t.v_sync_positive));
    push_str(&mut sync, "   Interlaced: ");
    push_str(&mut sync, crate::report::yes_no(t.interlaced));
    crate::install::push_line(&mut lines, sync);
    let mut p = String::from_str("Preset: ");
    push_str(&mut p, preset.label());
    crate::install::push_line(&mut lines, p);
    let ghost head = lines.deep_view();
    let warnings = crate::browser::checked_warnings(t);
    let n = warnings.len();
    if n > 0 {
        crate::install::push_line(&mut lines, String::new());
        crate::install::push_line(&mut lines, String::from_str("Timing warnings"));
        let shown: usize = if n < 5 {
            n
        } else {
            5
        };
        let ghost mid = lines.deep_view();
        let mut i: usize = 0;
        while i < shown
            invariant
                i <= shown <= warnings@.len(),
                shown == (if warnings@.len() < 5 { warnings@.len() } else { 5 }),
                lines.deep_view() == mid + warnings.deep_view().take(i as int).map_values(
                    |w: crate::validation::TimingWarningView|
                        "- "@ + crate::browser::severity_text(w) + ": "@ + w.message,
                ),
            decreases shown - i,
        {
            let mut l = String::from_str("- ");
            push_str(&mut l, warnings[i].label());
            push_str(&mut l, ": ");
            push_str(&mut l, warnings[i].message.as_str());
            crate::install::push_line(&mut lines, l);
            i = i + 1;
            assert(lines.deep_view() =~= mid + warnings.deep_view().take(i as int).map_values(
                |w: crate::validation::TimingWarningView|
                    "- "@ + crate::browser::severity_text(w) + ": "@ + w.message,
            ));
        }
        if n > 5 {
            let mut l = String::from_str("- ... ");
            crate::text::push_decimal(&mut l, (n - 5) as u64);
            push_str(&mut l, " more warning(s)");
            crate::install::push_line(&mut lines, l);
        }
    }
    assert(lines.deep_view() =~= detailed_summary_lines(*t, preset));
    let mut r = String::new();
    crate::text::push_joined_strings(&mut r, &lines, "\n");
    r
}

/// What the standard editor was opened for.
#[derive(Debug, Clone, Copy, PartialEq, Eq, Structural)]
pub enum StandardEditorMode {
    Add,
    Edit { index: usize, slot: usize },
}

/// The editor of a standard timing: width, height and refresh.
#[derive(Debug)]
pub struct StandardEditor {
    pub width: TextInput,
    pub height: TextInput,
    pub refresh: TextInput,
    pub active_field: EditorField,
    pub mode: StandardEditorMode,
}

impl StandardEditor {
    /// The input of a field; fields it does not have answer with the width's.
    pub open spec fn input_of(&self, field: EditorField) -> TextInput {
        match field {
            EditorField::Height => self.height,
            EditorField::Refresh => self.refresh,
            _ => self.width,
        }
    }

    pub fn from_timing(t: &crate::models::StandardTiming, mode: StandardEditorMode) -> (r: Self)
        ensures
            r.width.text() == decimal(t.width as nat),
            r.height.text() == decimal(t.height as nat),
            r.refresh.text() == decimal(t.refresh_hz as nat),
            r.width.position() == r.width.text().len(),
            r.height.position() == r.height.text().len(),
            r.refresh.position() == r.refresh.text().len(),
            r.active_field == EditorField::Width,
            r.mode == mode,
    {
        StandardEditor {
            width: number_input(t.width as u64),
            height: number_input(t.height as u64),
            refresh: number_input(t.refresh_hz as u64),
            active_field: EditorField::Width,
            mode,
        }
    }

    /// The standard timing the fields give, or the first reason they give none.
    pub fn timing(&self) -> (r: Result<crate::models::StandardTiming, &'static str>)
        ensures
            match r {
                Ok(t) => crate::editor::spec_standard_from_fields(
                    self.width.text(),
                    self.height.text(),
                    self.refresh.text(),
                ) == Ok::<crate::models::StandardTiming, Seq<char>>(t),
                Err(e) => crate::editor::spec_standard_from_fields(
                    self.width.text(),
                    self.height.text(),
                    self.refresh.text(),
                ) == Err::<crate::models::StandardTiming, Seq<char>>(e@),
            },
    {
        crate::editor::standard_timing_from_fields(&self.width, &self.height, &self.refresh)
    }

    pub open spec fn spec_derived_text(&self) -> Seq<char> {
        match crate::editor::spec_standard_from_fields(
            self.width.text(),
            self.height.text(),
            self.refresh.text(),
        ) {
            Ok(t) => "Encodable EDID Standard Timing\nMode: "@ + decimal(t.width as nat) + seq!['x']
                + decimal(t.height as nat) + " @ "@ + decimal(t.refresh_hz as nat) + " Hz\nAspect: "@
                + t.aspect.spec_label() + "\nThis writes one base-block standard timing slot."@,
            Err(reason) => "Not encodable: "@ + reason
                + "\nStandard timings cannot store arbitrary modelines; use Detailed resolutions for custom porch/pixel-clock control."@,
        }
    }

    /// The text under the standard editor.
    pub fn derived_text(&self) -> (r: String)
        ensures
            r@ == self.spec_derived_text(),
    {
        match self.timing() {
            Ok(t) => {
                let mut r = String::from_str("Encodable EDID Standard Timing\nMode: ");
                crate::text::push_decimal(&mut r, t.width as u64);
                push_str(&mut r, "x");
                crate::text::push_decimal(&mut r, t.height as u64);
                push_str(&mut r, " @ ");
                crate::text::push_decimal(&mut r, t.refresh_hz as u64);
                push_str(&mut r, " Hz\nAspect: ");
                push_str(&mut r, t.aspect.label());
                push_str(&mut r, "\nThis writes one base-block standard timing slot.");
                proof {
                    reveal_strlit("x");
                }
                assert(r@ =~= self.spec_derived_text());
                r
            },
            Err(reason) => {
                let mut r = String::from_str("Not encodable: ");
                push_str(&mut r, reason);
                push_str(
                    &mut r,
                    "\nStandard timings cannot store arbitrary modelines; use Detailed resolutions for custom porch/pixel-clock control.",
                );
                r
            },
        }
    }

    pub fn next_field(&mut self)
        ensures
            final(self).active_field == match old(self).active_field {
                EditorField::Width => EditorField::Height,
                EditorField::Height => EditorField::Refresh,
                _ => EditorField::Width,
            },
            final(self).width == old(self).width,
            final(self).height == old(self).height,
            final(self).refresh == old(self).refresh,
            final(self).mode == old(self).mode,
    {
        self.active_field = crate::editor::standard_next_field(self.active_field);
    }

    pub fn previous_field(&mut self)
        ensures
            final(self).active_field == match old(self).active_field {
                EditorField::Width => EditorField::Refresh,
                EditorField::Refresh => EditorField::Height,
                _ => EditorField::Width,
            },
            final(self).width == old(self).width,
            final(self).height == old(self).height,
            final(self).refresh == old(self).refresh,
            final(self).mode == old(self).mode,
    {
        self.active_field = crate::editor::standard_previous_field(self.active_field);
    }

    /// Applies `op` to the active field's text.
    pub fn edit_active(&mut self, op: InputOp)
        ensures
            final(self).input_of(old(self).active_field).text() == op_on(
                old(self).input_of(old(self).active_field).text(),
                old(self).input_of(old(self).active_field).position(),
                op,
            ).0,
            final(self).input_of(old(self).active_field).position() == op_on(
                old(self).input_of(old(self).active_field).text(),
                old(self).input_of(old(self).active_field).position(),
                op,
            ).1,
            final(self).active_field == old(self).active_field,
            final(self).mode == old(self).mode,
            old(self).active_field != EditorField::Height && old(self).active_field != EditorField::Refresh
                ==> final(self).height == old(self).height && final(self).refresh == old(self).refresh,
            old(self).active_field == EditorField::Height ==> final(self).width == old(self).width
                && final(self).refresh == old(self).refresh,
            old(self).active_field == EditorField::Refresh ==> final(self).width == old(self).width
                && final(self).height == old(self).height,
    {
        match self.active_field {
            EditorField::Height => apply_op(&mut self.height, op),
            EditorField::Refresh => apply_op(&mut self.refresh, op),
            _ => apply_op(&mut self.width, op),
        }
    }

    /// Types a digit into the active field; other characters are ignored.
    pub fn insert_char(&mut self, value: char)
        ensures
            '0' <= value <= '9' ==> final(self).input_of(old(self).active_field).text() == insert_on(
                old(self).input_of(old(self).active_field).text(),
                old(self).input_of(old(self).active_field).position(),
                value,
            ).0 && final(self).input_of(old(self).active_field).position() == insert_on(
                old(self).input_of(old(self).active_field).text(),
                old(self).input_of(old(self).active_field).position(),
                value,
            ).1,
            !('0' <= value <= '9') ==> final(self).width == old(self).width && final(self).height
                == old(self).height && final(self).refresh == old(self).refresh,
            final(self).active_field == old(self).active_field,
            final(self).mode == old(self).mode,
            old(self).active_field != EditorField::Height && old(self).active_field != EditorField::Refresh
                ==> final(self).height == old(self).height && final(self).refresh == old(self).refresh,
            old(self).active_field == EditorField::Height ==> final(self).width == old(self).width
                && final(self).refresh == old(self).refresh,
            old(self).active_field == EditorField::Refresh ==> final(self).width == old(self).width
                && final(self).height == old(self).height,
    {
        if '0' <= value && value <= '9' {
            match self.active_field {
                EditorField::Height => insert_into(&mut self.height, value),
                EditorField::Refresh => insert_into(&mut self.refresh, value),
                _ => insert_into(&mut self.width, value),
            }
        }
    }

    /// A click in `field` at `column`, whose row starts at `x`: the cursor
    /// goes where the click was, past the 13 columns of the label.
    pub fn set_cursor_from_column(&mut self, field: EditorField, column: u16, x: u16)
        ensures
            ({
                let clicked: int = if column >= x + 13 {
                    column - x - 13
                } else {
                    0
                };
                &&& final(self).input_of(field).text() == old(self).input_of(field).text()
                &&& final(self).input_of(field).position() == op_on(
                    old(self).input_of(field).text(),
                    old(self).input_of(field).position(),
                    InputOp::Column(clicked as usize),
                ).1
            }),
            final(self).active_field == old(self).active_field,
            final(self).mode == old(self).mode,
    {
        let from_x: u16 = if column > x {
            column - x
        } else {
            0
        };
        let clicked: usize = if from_x > 13 {
            (from_x - 13) as usize
        } else {
            0
        };
        match field {
            EditorField::Height => apply_op(&mut self.height, InputOp::Column(clicked)),
            EditorField::Refresh => apply_op(&mut self.refresh, InputOp::Column(clicked)),
            _ => apply_op(&mut self.width, InputOp::Column(clicked)),
        }
    }
}


/// A horizontal blanking typed into the detailed editor is kept: the back
/// porch becomes what front porch and sync leave of it, and the total
/// follows, whenever that back porch fits in the field.
pub proof fn lemma_typed_blanking_kept(s: EditorState, k: nat)
    requires
        s.texts.len() == 15,
        s.positions.len() == 15,
        spec_parse_unsigned(s.texts[5], 0xffff_ffff) == Some(k),
        h_parts(s) matches Some(p) && p.1 + p.2 <= k < p.1 + p.2 + 0xffff,
    ensures
        ({
            let p = h_parts(s)->0;
            let e = spec_after_text_edit(s, EditorField::HBlanking).0;
            &&& h_parts(e) == Some((p.0, p.1, p.2, (k - p.1 - p.2) as u32))
            &&& e.texts[5] == decimal(k)
            &&& e.texts[6] == decimal((p.0 + k) as nat)
        }),
{
    let p = h_parts(s)->0;
    let m = EditorState { preset: TimingPreset::Manual, ..s };
    let back = (k - p.1 - p.2) as nat;
    crate::editor::lemma_decimal_round_trip(back, 0xffff);
    let b = back_from(m, h_parts(m), 5, 4, false);
    assert(b.texts[4] == decimal(back));
    assert(h_parts(b) == Some((p.0, p.1, p.2, back as u32)));
}

/// A horizontal total typed into the detailed editor is kept: the back
/// porch becomes what active size, front porch and sync leave of it,
/// whenever that back porch fits in the field.
pub proof fn lemma_typed_total_kept(s: EditorState, k: nat)
    requires
        s.texts.len() == 15,
        s.positions.len() == 15,
        spec_parse_unsigned(s.texts[6], 0xffff_ffff) == Some(k),
        h_parts(s) matches Some(p) && p.0 + p.1 + p.2 <= k < p.0 + p.1 + p.2 + 0xffff,
    ensures
        ({
            let p = h_parts(s)->0;
            let e = spec_after_text_edit(s, EditorField::HTotal).0;
            &&& h_parts(e) == Some((p.0, p.1, p.2, (k - p.0 - p.1 - p.2) as u32))
            &&& e.texts[6] == decimal(k)
            &&& e.texts[5] == decimal((k - p.0) as nat)
        }),
{
    let p = h_parts(s)->0;
    let m = EditorState { preset: TimingPreset::Manual, ..s };
    let back = (k - p.0 - p.1 - p.2) as nat;
    crate::editor::lemma_decimal_round_trip(back, 0xffff);
    let b = back_from(m, h_parts(m), 6, 4, true);
    assert(b.texts[4] == decimal(back));
    assert(h_parts(b) == Some((p.0, p.1, p.2, back as u32)));
}

} // verus!
