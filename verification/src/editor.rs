//! The editing core of the resolution editors: a text field with a cursor,
//! which characters each field takes, reading numbers out of fields, and the
//! timings the fields describe. Fields that hold refresh or line rates are
//! floating point and are computed by the caller.
use crate::models::{StandardTiming, StandardTimingAspect, TimingDescriptor};
use crate::models::spec_aspect_from_dimensions;
use crate::text::{chars_of, decimal, push_char, string_of};
use vstd::prelude::*;

verus! {

/// A one-line text field and the position of its cursor, counted in
/// characters.
#[derive(Debug)]
pub struct TextInput {
    buffer: Vec<char>,
    cursor: usize,
}

impl TextInput {
    #[verifier::type_invariant]
    spec fn cursor_in_text(&self) -> bool {
        self.cursor <= self.buffer@.len()
    }

    /// The characters of the field.
    pub closed spec fn text(&self) -> Seq<char> {
        self.buffer@
    }

    /// Where the cursor stands: before the character with this index.
    pub closed spec fn position(&self) -> nat {
        self.cursor as nat
    }

    /// A field holding `buffer`, with the cursor at its end.
    pub fn new(buffer: &str) -> (r: Self)
        ensures
            r.text() == buffer@,
            r.position() == buffer@.len(),
    {
        let chars = chars_of(buffer);
        let cursor = chars.len();
        TextInput { buffer: chars, cursor }
    }

    /// Replaces the text and puts the cursor at its end.
    pub fn set(&mut self, buffer: &str)
        ensures
            final(self).text() == buffer@,
            final(self).position() == buffer@.len(),
    {
        let chars = chars_of(buffer);
        let cursor = chars.len();
        *self = TextInput { buffer: chars, cursor };
    }

    pub fn buffer(&self) -> (r: String)
        ensures
            r@ == self.text(),
    {
        string_of(&self.buffer)
    }

    pub fn cursor(&self) -> (r: usize)
        ensures
            r == self.position(),
            r <= self.text().len(),
    {
        proof {
            use_type_invariant(self);
        }
        self.cursor
    }

    /// The text, and when the field is active a `|` where the cursor is.
    pub fn render(&self, active: bool) -> (r: String)
        ensures
            r@ == if active {
                self.text().take(self.position() as int) + seq!['|'] + self.text().skip(
                    self.position() as int,
                )
            } else {
                self.text()
            },
    {
        proof {
            use_type_invariant(self);
        }
        if !active {
            return string_of(&self.buffer);
        }
        let mut r = String::new();
        let mut i: usize = 0;
        while i < self.buffer.len()
            invariant
                self.cursor <= self.buffer@.len(),
                i <= self.buffer@.len(),
                r@ == if i <= self.cursor {
                    self.buffer@.take(i as int)
                } else {
                    self.buffer@.take(self.cursor as int) + seq!['|'] + self.buffer@.subrange(
                        self.cursor as int,
                        i as int,
                    )
                },
            decreases self.buffer@.len() - i,
        {
            if i == self.cursor {
                push_char(&mut r, '|');
            }
            push_char(&mut r, self.buffer[i]);
            i = i + 1;
            assert(r@ =~= if i <= self.cursor {
                self.buffer@.take(i as int)
            } else {
                self.buffer@.take(self.cursor as int) + seq!['|'] + self.buffer@.subrange(
                    self.cursor as int,
                    i as int,
                )
            });
        }
        if self.cursor == self.buffer.len() {
            push_char(&mut r, '|');
        }
        assert(r@ =~= self.buffer@.take(self.cursor as int) + seq!['|'] + self.buffer@.skip(
            self.cursor as int,
        ));
        r
    }

    /// Takes the text and cursor out, leaving an empty field behind.
    fn take(&mut self) -> (r: (Vec<char>, usize))
        ensures
            r.0@ == old(self).text(),
            r.1 == old(self).position(),
            r.1 <= r.0@.len(),
            final(self).text() == Seq::<char>::empty(),
            final(self).position() == 0,
    {
        proof {
            use_type_invariant(&*self);
        }
        let mut this = TextInput { buffer: Vec::new(), cursor: 0 };
        std::mem::swap(&mut this, self);
        proof {
            use_type_invariant(&this);
        }
        let TextInput { buffer, cursor } = this;
        (buffer, cursor)
    }

    /// A copy of the field.
    pub fn duplicate(&self) -> (r: Self)
        ensures
            r.text() == self.text(),
            r.position() == self.position(),
    {
        proof {
            use_type_invariant(self);
        }
        let buffer = crate::text::slice_chars(&self.buffer, 0, self.buffer.len());
        assert(buffer@ =~= self.buffer@);
        TextInput { buffer, cursor: self.cursor }
    }

    /// Types a character at the cursor, a `,` as a `.`, and moves past it.
    pub fn insert(&mut self, value: char)
        ensures
            final(self).text() == old(self).text().insert(
                old(self).position() as int,
                if value == ',' { '.' } else { value },
            ),
            final(self).position() == old(self).position() + 1,
    {
        proof {
            use_type_invariant(&*self);
        }
        let value = if value == ',' {
            '.'
        } else {
            value
        };
        let (mut buffer, cursor) = self.take();
        buffer.insert(cursor, value);
        assert(cursor < buffer.len());
        *self = TextInput { buffer, cursor: cursor + 1 };
    }

    /// Deletes the character before the cursor, if there is one.
    pub fn backspace(&mut self)
        ensures
            old(self).position() > 0 ==> final(self).text() == old(self).text().remove(
                old(self).position() - 1,
            ) && final(self).position() == old(self).position() - 1,
            old(self).position() == 0 ==> *final(self) == *old(self),
    {
        proof {
            use_type_invariant(&*self);
        }
        if self.cursor > 0 {
            let (mut buffer, cursor) = self.take();
            buffer.remove(cursor - 1);
            *self = TextInput { buffer, cursor: cursor - 1 };
        }
    }

    /// Deletes the character after the cursor, if there is one.
    pub fn delete(&mut self)
        ensures
            old(self).position() < old(self).text().len() ==> final(self).text() == old(
                self,
            ).text().remove(old(self).position() as int) && final(self).position() == old(
                self,
            ).position(),
            old(self).position() == old(self).text().len() ==> *final(self) == *old(self),
    {
        proof {
            use_type_invariant(&*self);
        }
        if self.cursor < self.buffer.len() {
            let (mut buffer, cursor) = self.take();
            buffer.remove(cursor);
            *self = TextInput { buffer, cursor };
        }
    }

    pub fn move_left(&mut self)
        ensures
            final(self).text() == old(self).text(),
            final(self).position() == if old(self).position() > 0 {
                (old(self).position() - 1) as nat
            } else {
                0
            },
    {
        proof {
            use_type_invariant(&*self);
        }
        if self.cursor > 0 {
            self.cursor = self.cursor - 1;
        }
    }

    pub fn move_right(&mut self)
        ensures
            final(self).text() == old(self).text(),
            final(self).position() == if old(self).position() < old(self).text().len() {
                old(self).position() + 1
            } else {
                old(self).text().len()
            },
    {
        proof {
            use_type_invariant(&*self);
        }
        if self.cursor < self.buffer.len() {
            self.cursor = self.cursor + 1;
        }
    }

    pub fn move_home(&mut self)
        ensures
            final(self).text() == old(self).text(),
            final(self).position() == 0,
    {
        self.cursor = 0;
    }

    pub fn move_end(&mut self)
        ensures
            final(self).text() == old(self).text(),
            final(self).position() == old(self).text().len(),
    {
        self.cursor = self.buffer.len();
    }

    /// Puts the cursor at `column` characters from the field's start, or at
    /// the end of a shorter text.
    pub fn set_cursor(&mut self, column: usize)
        ensures
            final(self).text() == old(self).text(),
            final(self).position() == if column < old(self).text().len() {
                column as nat
            } else {
                old(self).text().len()
            },
    {
        self.cursor = if column < self.buffer.len() {
            column
        } else {
            self.buffer.len()
        };
    }
}

/// Typing a character and deleting it again leaves a field as it was.
pub proof fn lemma_insert_then_backspace(before: TextInput, typed: TextInput, after: TextInput, value: char)
    requires
        typed.text() == before.text().insert(
            before.position() as int,
            if value == ',' { '.' } else { value },
        ),
        typed.position() == before.position() + 1,
        after.text() == typed.text().remove(typed.position() - 1),
        after.position() == typed.position() - 1,
        before.position() <= before.text().len(),
    ensures
        after.text() == before.text(),
        after.position() == before.position(),
{
    assert(after.text() =~= before.text());
}

/// The fields of the resolution editors.
#[derive(Debug, Clone, Copy, PartialEq, Eq, Structural)]
pub enum EditorField {
    Width,
    Height,
    Refresh,
    HFront,
    HSync,
    HBack,
    HBlanking,
    HTotal,
    VFront,
    VSync,
    VBack,
    VBlanking,
    VTotal,
    HRate,
    PixelClock,
    Preset,
    HPolarity,
    VPolarity,
    Interlaced,
}

/// Whether a field is typed into, rather than toggled or cycled.
pub open spec fn spec_is_text_field(field: EditorField) -> bool {
    !(field == EditorField::Preset || field == EditorField::HPolarity || field
        == EditorField::VPolarity || field == EditorField::Interlaced)
}

pub open spec fn is_ascii_digit(c: char) -> bool {
    '0' <= c <= '9'
}

/// Which characters a field takes: digits in the integer fields, digits and
/// one decimal point (typed as `.` or `,`) in the rate fields, none in the
/// toggles.
pub open spec fn spec_allows(field: EditorField, value: char, text: Seq<char>) -> bool {
    if field == EditorField::HRate || field == EditorField::Refresh {
        is_ascii_digit(value) || ((value == '.' || value == ',') && !text.contains('.'))
    } else if spec_is_text_field(field) {
        is_ascii_digit(value)
    } else {
        false
    }
}

impl EditorField {
    pub fn is_text_field(self) -> (r: bool)
        ensures
            r == spec_is_text_field(self),
    {
        !(self == EditorField::Preset || self == EditorField::HPolarity || self
            == EditorField::VPolarity || self == EditorField::Interlaced)
    }

    pub fn allows(self, value: char, input: &TextInput) -> (r: bool)
        ensures
            r == spec_allows(self, value, input.text()),
    {
        let digit = '0' <= value && value <= '9';
        if self == EditorField::HRate || self == EditorField::Refresh {
            digit || ((value == '.' || value == ',') && !crate::text::has_char(&input.buffer, '.'))
        } else if self.is_text_field() {
            digit
        } else {
            false
        }
    }
}


/// The value of a string of ASCII digits.
pub open spec fn digits_value(d: Seq<char>) -> nat
    decreases d.len(),
{
    if d.len() == 0 {
        0
    } else {
        digits_value(d.drop_last()) * 10 + ((d.last() as int - 48) as nat)
    }
}

/// `s` without a leading `+`.
pub open spec fn sign_stripped(s: Seq<char>) -> Seq<char> {
    if s.len() > 0 && s[0] == '+' {
        s.skip(1)
    } else {
        s
    }
}

/// The digits of an unsigned number as `str::parse` reads it: an optional
/// `+` and then at least one ASCII digit, nothing else.
pub open spec fn unsigned_digits(s: Seq<char>) -> Option<Seq<char>> {
    let d = sign_stripped(s);
    if d.len() > 0 && forall|i: int| 0 <= i < d.len() ==> is_ascii_digit(#[trigger] d[i]) {
        Some(d)
    } else {
        None
    }
}

/// The number `s` holds when it is an unsigned decimal no greater than `max`.
pub open spec fn spec_parse_unsigned(s: Seq<char>, max: nat) -> Option<nat> {
    match unsigned_digits(s) {
        Some(d) => if digits_value(d) <= max {
            Some(digits_value(d))
        } else {
            None
        },
        None => None,
    }
}

proof fn lemma_digits_value_grows(d: Seq<char>, i: int, j: int)
    requires
        0 <= i <= j <= d.len(),
        forall|k: int| 0 <= k < d.len() ==> is_ascii_digit(#[trigger] d[k]),
    ensures
        digits_value(d.take(i)) <= digits_value(d.take(j)),
    decreases j - i,
{
    if i < j {
        lemma_digits_value_grows(d, i, j - 1);
        assert(d.take(j).drop_last() =~= d.take(j - 1));
        assert(is_ascii_digit(d[j - 1]));
    }
}

fn digit_of(c: char) -> (r: Option<u64>)
    ensures
        r matches Some(v) ==> is_ascii_digit(c) && v == c as int - 48,
        r is None ==> !is_ascii_digit(c),
{
    if c == '0' {
        Some(0)
    } else if c == '1' {
        Some(1)
    } else if c == '2' {
        Some(2)
    } else if c == '3' {
        Some(3)
    } else if c == '4' {
        Some(4)
    } else if c == '5' {
        Some(5)
    } else if c == '6' {
        Some(6)
    } else if c == '7' {
        Some(7)
    } else if c == '8' {
        Some(8)
    } else if c == '9' {
        Some(9)
    } else {
        None
    }
}

/// Reads an unsigned decimal no greater than `max`.
fn parse_unsigned(s: &str, max: u64) -> (r: Option<u64>)
    requires
        max >= 9,
    ensures
        r matches Some(v) ==> spec_parse_unsigned(s@, max as nat) == Some(v as nat),
        r is None ==> spec_parse_unsigned(s@, max as nat) is None,
{
    let chars = chars_of(s);
    let start: usize = if chars.len() > 0 && chars[0] == '+' {
        1
    } else {
        0
    };
    let ghost d = if s@.len() > 0 && s@[0] == '+' {
        s@.skip(1)
    } else {
        s@
    };
    assert(d =~= chars@.skip(start as int));
    if start >= chars.len() {
        return None;
    }
    let mut value: u64 = 0;
    let mut over = false;
    let mut i: usize = start;
    while i < chars.len()
        invariant
            chars@ == s@,
            d == chars@.skip(start as int),
            d == sign_stripped(s@),
            start <= i <= chars@.len(),
            forall|k: int| 0 <= k < i - start ==> is_ascii_digit(#[trigger] d[k]),
            !over ==> value == digits_value(d.take(i - start)) && value <= max,
            max >= 9,
            over ==> digits_value(d.take(i - start)) > max,
        decreases chars@.len() - i,
    {
        let digit = match digit_of(chars[i]) {
            Some(v) => v,
            None => {
                assert(d[i - start] == chars@[i as int]);
                assert(!is_ascii_digit(d[i - start]));
                assert(0 <= i - start < d.len());
                assert(unsigned_digits(s@) is None);
                return None;
            },
        };
        assert(d[i - start] == chars@[i as int]);
        assert(d.take(i - start + 1).drop_last() =~= d.take(i - start));
        assert(d.take(i - start + 1).last() == chars@[i as int]);
        if !over {
            if value > (max - digit) / 10 {
                over = true;
                assert(value * 10 + digit > max) by (nonlinear_arith)
                    requires
                        value > (max - digit) / 10,
                        digit <= 9,
                        digit <= max,
                ;
            } else {
                assert(value * 10 + digit <= max) by (nonlinear_arith)
                    requires
                        value <= (max - digit) / 10,
                        digit <= max,
                ;
                value = value * 10 + digit;
            }
        } else {
            assert(digits_value(d.take(i - start + 1)) >= digits_value(d.take(i - start)) * 10);
        }
        i = i + 1;
    }
    assert(d.take(d.len() as int) =~= d);
    if over {
        None
    } else {
        Some(value)
    }
}

pub fn parse_u16(s: &str) -> (r: Option<u16>)
    ensures
        r matches Some(v) ==> spec_parse_unsigned(s@, u16::MAX as nat) == Some(v as nat),
        r is None ==> spec_parse_unsigned(s@, u16::MAX as nat) is None,
{
    match parse_unsigned(s, 0xffff) {
        Some(v) => Some(v as u16),
        None => None,
    }
}

pub fn parse_u32(s: &str) -> (r: Option<u32>)
    ensures
        r matches Some(v) ==> spec_parse_unsigned(s@, u32::MAX as nat) == Some(v as nat),
        r is None ==> spec_parse_unsigned(s@, u32::MAX as nat) is None,
{
    match parse_unsigned(s, 0xffff_ffff) {
        Some(v) => Some(v as u32),
        None => None,
    }
}


/// The `u16` a field holds, if it holds one.
pub open spec fn field_u16(s: Seq<char>) -> Option<nat> {
    spec_parse_unsigned(s, 0xffff)
}

/// The detailed timing the editor's fields describe: the error names the
/// first field that does not hold a number, then a zero size or clock, then a
/// blanking that does not fit in 16 bits.
pub open spec fn spec_manual_timing(
    h_active: Seq<char>,
    v_active: Seq<char>,
    h_front: Seq<char>,
    h_sync: Seq<char>,
    h_back: Seq<char>,
    v_front: Seq<char>,
    v_sync: Seq<char>,
    v_back: Seq<char>,
    pixel_clock: Seq<char>,
    h_sync_positive: bool,
    v_sync_positive: bool,
    interlaced: bool,
) -> Result<TimingDescriptor, Seq<char>> {
    if field_u16(h_active) is None {
        Err("invalid horizontal active pixels"@)
    } else if field_u16(v_active) is None {
        Err("invalid vertical active pixels"@)
    } else if field_u16(h_front) is None {
        Err("invalid horizontal front porch"@)
    } else if field_u16(h_sync) is None {
        Err("invalid horizontal sync width"@)
    } else if field_u16(h_back) is None {
        Err("invalid horizontal back porch"@)
    } else if field_u16(v_front) is None {
        Err("invalid vertical front porch"@)
    } else if field_u16(v_sync) is None {
        Err("invalid vertical sync width"@)
    } else if field_u16(v_back) is None {
        Err("invalid vertical back porch"@)
    } else if spec_parse_unsigned(pixel_clock, 0xffff_ffff) is None {
        Err("invalid pixel clock"@)
    } else {
        let ha = field_u16(h_active)->0;
        let va = field_u16(v_active)->0;
        let hf = field_u16(h_front)->0;
        let hs = field_u16(h_sync)->0;
        let hb = field_u16(h_back)->0;
        let vf = field_u16(v_front)->0;
        let vs = field_u16(v_sync)->0;
        let vb = field_u16(v_back)->0;
        let clock = spec_parse_unsigned(pixel_clock, 0xffff_ffff)->0;
        if ha == 0 || va == 0 || clock == 0 {
            Err("active pixels and pixel clock must be greater than zero"@)
        } else if hf + hs + hb > 0xffff {
            Err("horizontal blanking exceeds EDID limits"@)
        } else if vf + vs + vb > 0xffff {
            Err("vertical blanking exceeds EDID limits"@)
        } else {
            Ok(
                TimingDescriptor {
                    pixel_clock_khz: clock as u32,
                    h_active: ha as u16,
                    h_blanking: (hf + hs + hb) as u16,
                    h_front_porch: hf as u16,
                    h_sync_width: hs as u16,
                    h_back_porch: hb as u16,
                    v_active: va as u16,
                    v_blanking: (vf + vs + vb) as u16,
                    v_front_porch: vf as u16,
                    v_sync_width: vs as u16,
                    v_back_porch: vb as u16,
                    h_sync_positive,
                    v_sync_positive,
                    interlaced,
                },
            )
        }
    }
}

fn field(text: &TextInput, error: &'static str) -> (r: Result<u16, &'static str>)
    ensures
        match r {
            Ok(v) => field_u16(text.text()) == Some(v as nat),
            Err(e) => field_u16(text.text()) is None && e == error,
        },
{
    match parse_u16(text.buffer().as_str()) {
        Some(v) => Ok(v),
        None => Err(error),
    }
}

/// The timing the fields of the detailed editor describe.
pub fn manual_timing(
    h_active: &TextInput,
    v_active: &TextInput,
    h_front: &TextInput,
    h_sync: &TextInput,
    h_back: &TextInput,
    v_front: &TextInput,
    v_sync: &TextInput,
    v_back: &TextInput,
    pixel_clock: &TextInput,
    h_sync_positive: bool,
    v_sync_positive: bool,
    interlaced: bool,
) -> (r: Result<TimingDescriptor, &'static str>)
    ensures
        match r {
            Ok(t) => spec_manual_timing(
                h_active.text(),
                v_active.text(),
                h_front.text(),
                h_sync.text(),
                h_back.text(),
                v_front.text(),
                v_sync.text(),
                v_back.text(),
                pixel_clock.text(),
                h_sync_positive,
                v_sync_positive,
                interlaced,
            ) == Ok::<TimingDescriptor, Seq<char>>(t),
            Err(e) => spec_manual_timing(
                h_active.text(),
                v_active.text(),
                h_front.text(),
                h_sync.text(),
                h_back.text(),
                v_front.text(),
                v_sync.text(),
                v_back.text(),
                pixel_clock.text(),
                h_sync_positive,
                v_sync_positive,
                interlaced,
            ) == Err::<TimingDescriptor, Seq<char>>(e@),
        },
{
    let ha = field(h_active, "invalid horizontal active pixels")?;
    let va = field(v_active, "invalid vertical active pixels")?;
    let hf = field(h_front, "invalid horizontal front porch")?;
    let hs = field(h_sync, "invalid horizontal sync width")?;
    let hb = field(h_back, "invalid horizontal back porch")?;
    let vf = field(v_front, "invalid vertical front porch")?;
    let vs = field(v_sync, "invalid vertical sync width")?;
    let vb = field(v_back, "invalid vertical back porch")?;
    let clock = match parse_u32(pixel_clock.buffer().as_str()) {
        Some(c) => c,
        None => return Err("invalid pixel clock"),
    };
    if ha == 0 || va == 0 || clock == 0 {
        return Err("active pixels and pixel clock must be greater than zero");
    }
    if hf as u32 + hs as u32 + hb as u32 > 0xffff {
        return Err("horizontal blanking exceeds EDID limits");
    }
    if vf as u32 + vs as u32 + vb as u32 > 0xffff {
        return Err("vertical blanking exceeds EDID limits");
    }
    Ok(
        TimingDescriptor {
            pixel_clock_khz: clock,
            h_active: ha,
            h_blanking: hf + hs + hb,
            h_front_porch: hf,
            h_sync_width: hs,
            h_back_porch: hb,
            v_active: va,
            v_blanking: vf + vs + vb,
            v_front_porch: vf,
            v_sync_width: vs,
            v_back_porch: vb,
            h_sync_positive,
            v_sync_positive,
            interlaced,
        },
    )
}

/// The standard timing the standard editor's fields describe, with the
/// first reason it cannot be written.
pub open spec fn spec_standard_from_fields(width: Seq<char>, height: Seq<char>, refresh: Seq<char>) -> Result<
    StandardTiming,
    Seq<char>,
> {
    if field_u16(width) is None {
        Err("invalid width"@)
    } else if field_u16(height) is None {
        Err("invalid height"@)
    } else if field_u16(refresh) is None {
        Err("refresh must be an integer"@)
    } else {
        let w = field_u16(width)->0 as u16;
        let h = field_u16(height)->0 as u16;
        let r = field_u16(refresh)->0 as u16;
        if !(256 <= w <= 2288) {
            Err("width must be 256..2288"@)
        } else if w % 8 != 0 {
            Err("width must be divisible by 8"@)
        } else if !(60 <= r <= 123) {
            Err("refresh must be 60..123 Hz"@)
        } else {
            match spec_aspect_from_dimensions(w, h) {
                None => Err("height must match 16:10, 4:3, 5:4, or 16:9 exactly"@),
                Some(aspect) => Ok(StandardTiming { slot: 0, width: w, height: h, refresh_hz: r, aspect }),
            }
        }
    }
}

pub fn standard_timing_from_fields(width: &TextInput, height: &TextInput, refresh: &TextInput) -> (r:
    Result<StandardTiming, &'static str>)
    ensures
        match r {
            Ok(t) => spec_standard_from_fields(width.text(), height.text(), refresh.text())
                == Ok::<StandardTiming, Seq<char>>(t),
            Err(e) => spec_standard_from_fields(width.text(), height.text(), refresh.text())
                == Err::<StandardTiming, Seq<char>>(e@),
        },
{
    let w = field(width, "invalid width")?;
    let h = field(height, "invalid height")?;
    let r = field(refresh, "refresh must be an integer")?;
    if !(256 <= w && w <= 2288) {
        return Err("width must be 256..2288");
    }
    if w % 8 != 0 {
        return Err("width must be divisible by 8");
    }
    if !(60 <= r && r <= 123) {
        return Err("refresh must be 60..123 Hz");
    }
    match StandardTimingAspect::from_dimensions(w, h) {
        None => Err("height must match 16:10, 4:3, 5:4, or 16:9 exactly"),
        Some(aspect) => Ok(StandardTiming { slot: 0, width: w, height: h, refresh_hz: r, aspect }),
    }
}

/// The active size, front porch, sync and back porch of one axis, when all
/// four fields hold numbers.
pub open spec fn spec_axis_parts(a: Seq<char>, f: Seq<char>, s: Seq<char>, b: Seq<char>) -> Option<
    (u32, u32, u32, u32),
> {
    if field_u16(a) is None || field_u16(f) is None || field_u16(s) is None || field_u16(b) is None {
        None
    } else {
        Some(
            (
                field_u16(a)->0 as u32,
                field_u16(f)->0 as u32,
                field_u16(s)->0 as u32,
                field_u16(b)->0 as u32,
            ),
        )
    }
}

pub fn axis_parts(a: &TextInput, f: &TextInput, s: &TextInput, b: &TextInput) -> (r: Option<
    (u32, u32, u32, u32),
>)
    ensures
        r == spec_axis_parts(a.text(), f.text(), s.text(), b.text()),
        r matches Some(p) ==> p.0 <= 0xffff && p.1 <= 0xffff && p.2 <= 0xffff && p.3 <= 0xffff,
{
    let pa = match field(a, "") {
        Ok(v) => v,
        Err(_) => return None,
    };
    let pf = match field(f, "") {
        Ok(v) => v,
        Err(_) => return None,
    };
    let ps = match field(s, "") {
        Ok(v) => v,
        Err(_) => return None,
    };
    let pb = match field(b, "") {
        Ok(v) => v,
        Err(_) => return None,
    };
    Some((pa as u32, pf as u32, ps as u32, pb as u32))
}

/// The two totals of a timing, when both are above zero.
pub fn totals_from_parts(h: (u32, u32, u32, u32), v: (u32, u32, u32, u32)) -> (r: Option<(u32, u32)>)
    requires
        h.0 <= 0xffff && h.1 <= 0xffff && h.2 <= 0xffff && h.3 <= 0xffff,
        v.0 <= 0xffff && v.1 <= 0xffff && v.2 <= 0xffff && v.3 <= 0xffff,
    ensures
        r == (if h.0 + h.1 + h.2 + h.3 > 0 && v.0 + v.1 + v.2 + v.3 > 0 {
            Some(((h.0 + h.1 + h.2 + h.3) as u32, (v.0 + v.1 + v.2 + v.3) as u32))
        } else {
            None
        }),
{
    let ht = h.0 + h.1 + h.2 + h.3;
    let vt = v.0 + v.1 + v.2 + v.3;
    if ht > 0 && vt > 0 {
        Some((ht, vt))
    } else {
        None
    }
}

/// Blanking and total of one axis: the porches and sync summed, then the
/// active size added.
pub fn blanking_and_total(p: (u32, u32, u32, u32)) -> (r: (u32, u32))
    requires
        p.0 <= 0xffff && p.1 <= 0xffff && p.2 <= 0xffff && p.3 <= 0xffff,
    ensures
        r.0 == p.1 + p.2 + p.3,
        r.1 == p.0 + p.1 + p.2 + p.3,
{
    let blanking = p.1 + p.2 + p.3;
    (blanking, p.0 + blanking)
}

/// The back porch a typed blanking leaves: the blanking less front porch and
/// sync (not below 0), at most 65535.
pub fn back_from_blanking(blanking: &TextInput, p: (u32, u32, u32, u32)) -> (r: Option<u32>)
    requires
        p.0 <= 0xffff && p.1 <= 0xffff && p.2 <= 0xffff && p.3 <= 0xffff,
    ensures
        match spec_parse_unsigned(blanking.text(), 0xffff_ffff) {
            None => r is None,
            Some(k) => r == Some(
                (if k >= p.1 + p.2 {
                    if k - (p.1 + p.2) < 0xffff {
                        k - (p.1 + p.2)
                    } else {
                        0xffff
                    }
                } else {
                    0
                }) as u32,
            ),
        },
{
    let k = match parse_u32(blanking.buffer().as_str()) {
        Some(k) => k,
        None => return None,
    };
    let back = if k >= p.1 + p.2 {
        k - (p.1 + p.2)
    } else {
        0
    };
    Some(if back < 0xffff {
        back
    } else {
        0xffff
    })
}

/// The back porch a typed total leaves: the total less active size, front
/// porch and sync (not below 0), at most 65535.
pub fn back_from_total(total: &TextInput, p: (u32, u32, u32, u32)) -> (r: Option<u32>)
    requires
        p.0 <= 0xffff && p.1 <= 0xffff && p.2 <= 0xffff && p.3 <= 0xffff,
    ensures
        match spec_parse_unsigned(total.text(), 0xffff_ffff) {
            None => r is None,
            Some(k) => r == Some(
                (if k >= p.0 + p.1 + p.2 {
                    if k - (p.0 + p.1 + p.2) < 0xffff {
                        k - (p.0 + p.1 + p.2)
                    } else {
                        0xffff
                    }
                } else {
                    0
                }) as u32,
            ),
        },
{
    let k = match parse_u32(total.buffer().as_str()) {
        Some(k) => k,
        None => return None,
    };
    let used = p.0 + p.1 + p.2;
    let back = if k >= used {
        k - used
    } else {
        0
    };
    Some(if back < 0xffff {
        back
    } else {
        0xffff
    })
}

/// `current` moved by `delta` places in a ring of `len`, or 0 when the ring
/// is empty.
pub fn wrap_index(current: usize, len: usize, delta: isize) -> (r: usize)
    requires
        current <= isize::MAX,
        current + delta <= isize::MAX,
    ensures
        len == 0 ==> r == 0,
        len > 0 ==> r as int == (current + delta) % (len as int),
{
    if len == 0 {
        return 0;
    }
    if delta >= 0 {
        let d = delta as usize;
        assert(current + d <= usize::MAX);
        (current + d) % len
    } else {
        let e: usize = (0i128 - delta as i128) as usize;
        let c = current % len;
        let f = e % len;
        assert(e == -delta);
        proof {
            vstd::arithmetic::div_mod::lemma_sub_mod_noop(current as int, e as int, len as int);
            vstd::arithmetic::div_mod::lemma_mod_add_multiples_vanish(c - f, len as int);
            assert((current + delta) % (len as int) == (c - f) % (len as int));
        }
        if c >= f {
            proof {
                vstd::arithmetic::div_mod::lemma_small_mod((c - f) as nat, len as nat);
            }
            c - f
        } else {
            proof {
                vstd::arithmetic::div_mod::lemma_small_mod((len + c - f) as nat, len as nat);
            }
            c + (len - f)
        }
    }
}


/// The fields of the detailed editor in the order Tab walks them, with their labels.
pub open spec fn spec_detailed_field_order() -> Seq<(EditorField, Seq<char>)> {
    seq![
        (EditorField::Preset, "Timing"@),
        (EditorField::Width, "H Active"@),
        (EditorField::HFront, "H Front"@),
        (EditorField::HSync, "H Sync"@),
        (EditorField::HBack, "H Back"@),
        (EditorField::HBlanking, "H Blank"@),
        (EditorField::HTotal, "H Total"@),
        (EditorField::Height, "V Active"@),
        (EditorField::VFront, "V Front"@),
        (EditorField::VSync, "V Sync"@),
        (EditorField::VBack, "V Back"@),
        (EditorField::VBlanking, "V Blank"@),
        (EditorField::VTotal, "V Total"@),
        (EditorField::HRate, "H Rate"@),
        (EditorField::Refresh, "Refresh"@),
        (EditorField::PixelClock, "Pixel kHz"@),
        (EditorField::HPolarity, "H Pol"@),
        (EditorField::VPolarity, "V Pol"@),
        (EditorField::Interlaced, "Interlace"@),
    ]
}

pub fn detailed_field_order() -> (r: Vec<(EditorField, &'static str)>)
    ensures
        r@.len() == spec_detailed_field_order().len(),
        forall|i: int| 0 <= i < r@.len() ==> r@[i].0 == spec_detailed_field_order()[i].0 && r@[i].1@
            == spec_detailed_field_order()[i].1,
{
    let r = vec![
        (EditorField::Preset, "Timing"),
        (EditorField::Width, "H Active"),
        (EditorField::HFront, "H Front"),
        (EditorField::HSync, "H Sync"),
        (EditorField::HBack, "H Back"),
        (EditorField::HBlanking, "H Blank"),
        (EditorField::HTotal, "H Total"),
        (EditorField::Height, "V Active"),
        (EditorField::VFront, "V Front"),
        (EditorField::VSync, "V Sync"),
        (EditorField::VBack, "V Back"),
        (EditorField::VBlanking, "V Blank"),
        (EditorField::VTotal, "V Total"),
        (EditorField::HRate, "H Rate"),
        (EditorField::Refresh, "Refresh"),
        (EditorField::PixelClock, "Pixel kHz"),
        (EditorField::HPolarity, "H Pol"),
        (EditorField::VPolarity, "V Pol"),
        (EditorField::Interlaced, "Interlace"),
    ];
    r
}

/// Where a field stands in the detailed editor's order.
pub open spec fn field_position(field: EditorField) -> int {
    match field {
        EditorField::Preset => 0,
        EditorField::Width => 1,
        EditorField::HFront => 2,
        EditorField::HSync => 3,
        EditorField::HBack => 4,
        EditorField::HBlanking => 5,
        EditorField::HTotal => 6,
        EditorField::Height => 7,
        EditorField::VFront => 8,
        EditorField::VSync => 9,
        EditorField::VBack => 10,
        EditorField::VBlanking => 11,
        EditorField::VTotal => 12,
        EditorField::HRate => 13,
        EditorField::Refresh => 14,
        EditorField::PixelClock => 15,
        EditorField::HPolarity => 16,
        EditorField::VPolarity => 17,
        EditorField::Interlaced => 18,
    }
}

/// The field `delta` places after `current` in the detailed editor's order,
/// wrapping around.
pub fn cycle_detailed_field(current: EditorField, delta: isize) -> (r: EditorField)
    requires
        delta <= isize::MAX - 18,
    ensures
        r == spec_detailed_field_order()[(field_position(current) + delta) % 19].0,
{
    let order = detailed_field_order();
    let position: usize = match current {
        EditorField::Preset => 0,
        EditorField::Width => 1,
        EditorField::HFront => 2,
        EditorField::HSync => 3,
        EditorField::HBack => 4,
        EditorField::HBlanking => 5,
        EditorField::HTotal => 6,
        EditorField::Height => 7,
        EditorField::VFront => 8,
        EditorField::VSync => 9,
        EditorField::VBack => 10,
        EditorField::VBlanking => 11,
        EditorField::VTotal => 12,
        EditorField::HRate => 13,
        EditorField::Refresh => 14,
        EditorField::PixelClock => 15,
        EditorField::HPolarity => 16,
        EditorField::VPolarity => 17,
        EditorField::Interlaced => 18,
    };
    let k = wrap_index(position, 19, delta);
    order[k].0
}

/// The standard editor's next field: width, height, refresh, and around.
pub fn standard_next_field(field: EditorField) -> (r: EditorField)
    ensures
        r == match field {
            EditorField::Width => EditorField::Height,
            EditorField::Height => EditorField::Refresh,
            _ => EditorField::Width,
        },
{
    match field {
        EditorField::Width => EditorField::Height,
        EditorField::Height => EditorField::Refresh,
        _ => EditorField::Width,
    }
}

/// The standard editor's previous field.
pub fn standard_previous_field(field: EditorField) -> (r: EditorField)
    ensures
        r == match field {
            EditorField::Width => EditorField::Refresh,
            EditorField::Refresh => EditorField::Height,
            _ => EditorField::Width,
        },
{
    match field {
        EditorField::Width => EditorField::Refresh,
        EditorField::Refresh => EditorField::Height,
        _ => EditorField::Width,
    }
}


proof fn lemma_decimal_digits(n: nat)
    ensures
        decimal(n).len() > 0,
        forall|i: int| 0 <= i < decimal(n).len() ==> is_ascii_digit(#[trigger] decimal(n)[i]),
        digits_value(decimal(n)) == n,
    decreases n,
{
    if n < 10 {
        let c = crate::text::digit_char(n);
        assert(c as int == 48 + n);
        assert(decimal(n) == seq![c]);
        assert(seq![c].drop_last() =~= Seq::<char>::empty());
        assert(digits_value(seq![c]) == digits_value(Seq::<char>::empty()) * 10 + ((c as int - 48) as nat));
    } else {
        lemma_decimal_digits(n / 10);
        let c = crate::text::digit_char(n % 10);
        assert(c as int == 48 + n % 10);
        let d = decimal(n);
        assert(d.drop_last() =~= decimal(n / 10));
        assert(d.last() == c);
        assert(digits_value(d) == digits_value(decimal(n / 10)) * 10 + ((c as int - 48) as nat));
        assert(n == (n / 10) * 10 + n % 10) by (nonlinear_arith);
        assert forall|i: int| 0 <= i < d.len() implies is_ascii_digit(#[trigger] d[i]) by {
            if i < d.len() - 1 {
                assert(d[i] == decimal(n / 10)[i]);
            }
        }
    }
}

/// Reading back a number written in decimal gives the number, when it is
/// within the field's range; a larger one is refused.
pub proof fn lemma_decimal_round_trip(n: nat, max: nat)
    ensures
        spec_parse_unsigned(decimal(n), max) == if n <= max {
            Some(n)
        } else {
            None::<nat>
        },
{
    lemma_decimal_digits(n);
    let d = decimal(n);
    assert(d[0] != '+');
    assert(sign_stripped(d) == d);
    assert(unsigned_digits(d) == Some(d));
}

} // verus!
