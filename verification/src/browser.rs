//! What the browser shows of the selected monitor's modes: the rows of its
//! sections, where else a mode appears, the details of a row, the scroll
//! position of a section and what stands in the way of an export.
use crate::edid::{
    spec_cta_dtd_slots, spec_detailed_timing_locations, spec_standard_timings, CtaDtdSlot,
    DtdLocation, LocatedDetailedTiming, LocatedStandardTiming,
};
use crate::fixed::{fixed_digits, fixed_text, fixed_value, push_fixed};
use crate::models::{
    Cta861Block, Cta861BlockView, CtaDataBlockView, CtaVideoDescriptor, CtaVideoMode, DisplayIdBlock,
    DisplayIdBlockView, DisplayIdDataBlock, EdidData, EdidDataView,
    EstablishedTiming, StandardTiming, TimingDescriptor,
};
use crate::report::{checksum_label, spec_timing_detail_lines, spec_yes_no, timing_detail_lines, yes_no};
use crate::text::{decimal, push_char, push_decimal, push_str};
use crate::validation::TimingWarning;
use crate::workspace::{format_location, spec_format_location, EdidWorkspace};
use vstd::prelude::*;

verus! {

/// A mode as the browser compares modes: its size, its refresh rate in
/// millihertz and whether it is interlaced.
#[derive(Debug, Clone, Copy, PartialEq, Eq, Structural)]
pub struct ModeKey {
    pub width: u16,
    pub height: u16,
    pub refresh_millihz: u32,
    pub interlaced: bool,
}

impl DeepView for ModeKey {
    type V = ModeKey;

    open spec fn deep_view(&self) -> ModeKey {
        *self
    }
}

/// The refresh rate of a timing in millihertz, as it shows with three
/// decimals, at most `u32::MAX`.
pub open spec fn timing_millihz(t: TimingDescriptor) -> u32 {
    let m = fixed_digits(
        (t.pixel_clock_khz * 1000) as nat,
        (t.spec_h_total() * t.spec_v_total()) as nat,
        3,
    );
    if m > u32::MAX {
        u32::MAX
    } else {
        m as u32
    }
}

/// The key of a timing; none when a total is 0 and it has no refresh rate.
pub open spec fn spec_key_of_timing(t: TimingDescriptor) -> Option<ModeKey> {
    if t.spec_h_total() == 0 || t.spec_v_total() == 0 {
        None
    } else {
        Some(
            ModeKey {
                width: t.h_active,
                height: t.v_active,
                refresh_millihz: timing_millihz(t),
                interlaced: t.interlaced,
            },
        )
    }
}

/// The key of a progressive mode with a whole refresh rate.
pub open spec fn key_of_hz(width: u16, height: u16, refresh_hz: u16) -> ModeKey {
    ModeKey { width, height, refresh_millihz: (refresh_hz * 1000) as u32, interlaced: false }
}

/// The key of a CTA video mode.
pub open spec fn key_of_video(mode: CtaVideoMode) -> ModeKey {
    ModeKey {
        width: mode.width,
        height: mode.height,
        refresh_millihz: mode.refresh_millihz,
        interlaced: mode.interlaced,
    }
}

/// `WIDTHxHEIGHT @ REFRESH Hz`, and ` interlaced` for an interlaced mode.
pub open spec fn spec_key_text(key: ModeKey) -> Seq<char> {
    decimal(key.width as nat) + seq!['x'] + decimal(key.height as nat) + " @ "@ + fixed_text(
        key.refresh_millihz as nat,
        1000,
        3,
    ) + " Hz"@ + if key.interlaced {
        " interlaced"@
    } else {
        Seq::empty()
    }
}

impl ModeKey {
    pub fn from_hz(width: u16, height: u16, refresh_hz: u16) -> (r: Self)
        ensures
            r == key_of_hz(width, height, refresh_hz),
    {
        ModeKey { width, height, refresh_millihz: refresh_hz as u32 * 1000, interlaced: false }
    }

    pub fn from_timing(t: &TimingDescriptor) -> (r: Option<Self>)
        ensures
            r == spec_key_of_timing(*t),
    {
        let h = t.h_total() as u64;
        let v = t.v_total() as u64;
        if h == 0 || v == 0 {
            return None;
        }
        assert(1 <= h * v <= 65535 * 65535) by (nonlinear_arith)
            requires
                1 <= h <= 65535,
                1 <= v <= 65535,
        ;
        let m = fixed_value(t.pixel_clock_khz as u64 * 1000, h * v, 3);
        let refresh_millihz: u32 = if m > 0xffff_ffff {
            0xffff_ffff
        } else {
            m as u32
        };
        Some(
            ModeKey {
                width: t.h_active,
                height: t.v_active,
                refresh_millihz,
                interlaced: t.interlaced,
            },
        )
    }

    pub fn from_video(mode: &CtaVideoMode) -> (r: Self)
        ensures
            r == key_of_video(*mode),
    {
        ModeKey {
            width: mode.width,
            height: mode.height,
            refresh_millihz: mode.refresh_millihz,
            interlaced: mode.interlaced,
        }
    }

    pub fn text(&self) -> (r: String)
        ensures
            r@ == spec_key_text(*self),
    {
        let mut r = String::new();
        push_decimal(&mut r, self.width as u64);
        push_char(&mut r, 'x');
        push_decimal(&mut r, self.height as u64);
        push_str(&mut r, " @ ");
        push_fixed(&mut r, self.refresh_millihz as u64, 1000, 3);
        push_str(&mut r, " Hz");
        if self.interlaced {
            push_str(&mut r, " interlaced");
        }
        assert(r@ =~= spec_key_text(*self));
        r
    }
}

// ---------------------------------------------------------------------------
// Scrolling a section
// ---------------------------------------------------------------------------

/// The first visible row after scrolling `len` rows in a viewport of
/// `viewport_height` lines (at least one) so that `selected` shows: at the
/// top when everything fits, otherwise the old position clamped to the
/// last page and moved just enough to bring the selected row in.
pub open spec fn spec_visible_scroll(selected: Option<usize>, scroll: usize, len: usize, viewport_height: u16) -> usize {
    let viewport: int = if viewport_height == 0 {
        1
    } else {
        viewport_height as int
    };
    if len <= viewport {
        0
    } else {
        let clamped: int = if scroll <= len - viewport {
            scroll as int
        } else {
            len - viewport
        };
        match selected {
            None => clamped as usize,
            Some(s) => if s < clamped {
                s
            } else if s >= clamped + viewport {
                (s + 1 - viewport) as usize
            } else {
                clamped as usize
            },
        }
    }
}

pub fn keep_selected_visible(selected: Option<usize>, scroll: &mut usize, len: usize, viewport_height: u16)
    ensures
        *final(scroll) == spec_visible_scroll(selected, *old(scroll), len, viewport_height),
{
    let viewport: usize = if viewport_height == 0 {
        1
    } else {
        viewport_height as usize
    };
    if len <= viewport {
        *scroll = 0;
        return;
    }
    let max_scroll = len - viewport;
    if *scroll > max_scroll {
        *scroll = max_scroll;
    }
    match selected {
        None => {},
        Some(s) => {
            if s < *scroll {
                *scroll = s;
            } else if s - *scroll >= viewport {
                *scroll = s - viewport + 1;
            }
        },
    }
}

/// The title of a scrolled list: the label alone when all rows fit, else the
/// label, arrows for what lies above and below, and the visible range.
pub open spec fn spec_scroll_title(label: Seq<char>, scroll: usize, len: usize, viewport_height: u16) -> Seq<
    char,
> {
    let viewport: int = if viewport_height == 0 {
        1
    } else {
        viewport_height as int
    };
    if len <= viewport {
        label
    } else {
        let start: int = if scroll + 1 < len {
            scroll + 1
        } else {
            len as int
        };
        let end: int = if scroll + viewport < len {
            scroll + viewport
        } else {
            len as int
        };
        label + seq![' '] + (if scroll > 0 {
            seq!['↑']
        } else {
            seq![' ']
        }) + (if end < len {
            seq!['↓']
        } else {
            seq![' ']
        }) + seq![' '] + decimal(start as nat) + seq!['-'] + decimal(end as nat) + seq!['/'] + decimal(
            len as nat,
        )
    }
}

pub fn scroll_title(label: &str, scroll: usize, len: usize, viewport_height: u16) -> (r: String)
    ensures
        r@ == spec_scroll_title(label@, scroll, len, viewport_height),
{
    let viewport: usize = if viewport_height == 0 {
        1
    } else {
        viewport_height as usize
    };
    if len <= viewport {
        return String::from_str(label);
    }
    let start: usize = if scroll < len - 1 {
        scroll + 1
    } else {
        len
    };
    let end: usize = if scroll < len - viewport {
        scroll + viewport
    } else {
        len
    };
    let mut r = String::from_str(label);
    push_char(&mut r, ' ');
    push_char(&mut r, if scroll > 0 { '↑' } else { ' ' });
    push_char(&mut r, if end < len { '↓' } else { ' ' });
    push_char(&mut r, ' ');
    push_decimal(&mut r, start as u64);
    push_char(&mut r, '-');
    push_decimal(&mut r, end as u64);
    push_char(&mut r, '/');
    push_decimal(&mut r, len as u64);
    assert(r@ =~= spec_scroll_title(label@, scroll, len, viewport_height));
    r
}

/// The title of a details dialog: the title alone when all lines fit, else
/// with the visible range between the arrows.
pub open spec fn spec_details_title(title: Seq<char>, scroll: usize, len: usize, viewport: usize) -> Seq<char> {
    if len <= viewport {
        title
    } else {
        let start: int = if scroll + 1 < len {
            scroll + 1
        } else {
            len as int
        };
        let end: int = if scroll + viewport < len {
            scroll + viewport
        } else {
            len as int
        };
        title + seq![' '] + (if scroll > 0 {
            seq!['↑']
        } else {
            seq![' ']
        }) + decimal(start as nat) + seq!['-'] + decimal(end as nat) + seq!['/'] + decimal(len as nat)
            + (if end < len {
            seq!['↓']
        } else {
            seq![' ']
        })
    }
}

pub fn details_title(title: &str, scroll: usize, len: usize, viewport: usize) -> (r: String)
    ensures
        r@ == spec_details_title(title@, scroll, len, viewport),
{
    if len <= viewport {
        return String::from_str(title);
    }
    let start: usize = if scroll < len - 1 {
        scroll + 1
    } else {
        len
    };
    let end: usize = if scroll < len - viewport {
        scroll + viewport
    } else {
        len
    };
    let mut r = String::from_str(title);
    push_char(&mut r, ' ');
    push_char(&mut r, if scroll > 0 { '↑' } else { ' ' });
    push_decimal(&mut r, start as u64);
    push_char(&mut r, '-');
    push_decimal(&mut r, end as u64);
    push_char(&mut r, '/');
    push_decimal(&mut r, len as u64);
    push_char(&mut r, if end < len { '↓' } else { ' ' });
    assert(r@ =~= spec_details_title(title@, scroll, len, viewport));
    r
}


// ---------------------------------------------------------------------------
// The rows of the selected monitor
// ---------------------------------------------------------------------------

/// A row of the extension section: a video mode a CTA-861 video data block
/// lists, or a detailed timing slot of a CTA-861 extension.
#[derive(Debug, Clone, Copy, PartialEq, Eq, Structural)]
pub enum ExtensionRow {
    Video { extension_index: u8, descriptor: CtaVideoDescriptor },
    Dtd(CtaDtdSlot),
}

/// The video rows of the data blocks of one CTA-861 extension, in order.
pub open spec fn data_block_video_rows(extension_index: u8, blocks: Seq<CtaDataBlockView>) -> Seq<
    ExtensionRow,
>
    decreases blocks.len(),
{
    if blocks.len() == 0 {
        Seq::empty()
    } else {
        data_block_video_rows(extension_index, blocks.drop_last()) + blocks.last().video_modes.map_values(
            |d: CtaVideoDescriptor| ExtensionRow::Video { extension_index, descriptor: d },
        )
    }
}

/// The video rows of all CTA-861 extensions, in order.
pub open spec fn video_rows(ctas: Seq<Cta861BlockView>) -> Seq<ExtensionRow>
    decreases ctas.len(),
{
    if ctas.len() == 0 {
        Seq::empty()
    } else {
        video_rows(ctas.drop_last()) + data_block_video_rows(
            ctas.last().extension_index,
            ctas.last().data_blocks,
        )
    }
}

fn push_video_rows(rows: &mut Vec<ExtensionRow>, edid: &EdidData)
    ensures
        final(rows)@ == old(rows)@ + video_rows(edid.deep_view().cta_blocks),
{
    let ghost head = rows@;
    let ghost ctas = edid.deep_view().cta_blocks;
    let mut c: usize = 0;
    while c < edid.cta_blocks.len()
        invariant
            ctas == edid.deep_view().cta_blocks,
            ctas.len() == edid.cta_blocks@.len(),
            c <= edid.cta_blocks@.len(),
            rows@ == head + video_rows(ctas.take(c as int)),
        decreases edid.cta_blocks@.len() - c,
    {
        let cta = &edid.cta_blocks[c];
        let ghost blocks = cta.deep_view().data_blocks;
        let ghost done = rows@;
        assert(ctas[c as int] == cta.deep_view());
        let mut b: usize = 0;
        while b < cta.data_blocks.len()
            invariant
                blocks == cta.deep_view().data_blocks,
                blocks.len() == cta.data_blocks@.len(),
                b <= cta.data_blocks@.len(),
                rows@ == done + data_block_video_rows(cta.extension_index, blocks.take(b as int)),
            decreases cta.data_blocks@.len() - b,
        {
            let block = &cta.data_blocks[b];
            let ghost before = rows@;
            assert(blocks[b as int] == block.deep_view());
            let mut v: usize = 0;
            while v < block.video_modes.len()
                invariant
                    v <= block.video_modes@.len(),
                    rows@ == before + block.video_modes@.take(v as int).map_values(
                        |d: CtaVideoDescriptor|
                            ExtensionRow::Video { extension_index: cta.extension_index, descriptor: d },
                    ),
                decreases block.video_modes@.len() - v,
            {
                rows.push(
                    ExtensionRow::Video {
                        extension_index: cta.extension_index,
                        descriptor: block.video_modes[v],
                    },
                );
                v = v + 1;
                assert(rows@ =~= before + block.video_modes@.take(v as int).map_values(
                    |d: CtaVideoDescriptor|
                        ExtensionRow::Video { extension_index: cta.extension_index, descriptor: d },
                ));
            }
            assert(block.video_modes@.take(v as int) =~= block.video_modes@);
            assert(blocks.take(b + 1).drop_last() =~= blocks.take(b as int));
            b = b + 1;
            assert(rows@ =~= done + data_block_video_rows(cta.extension_index, blocks.take(b as int)));
        }
        assert(blocks.take(b as int) =~= blocks);
        assert(ctas.take(c + 1).drop_last() =~= ctas.take(c as int));
        c = c + 1;
        assert(rows@ =~= head + video_rows(ctas.take(c as int)));
    }
    assert(ctas.take(c as int) =~= ctas);
}

/// The EDID the browser shows for a monitor: the working EDID of its
/// workspace, else the one read from the monitor.
pub fn shown_edid<'a>(monitor_edid: Option<&'a EdidData>, workspace: Option<&'a EdidWorkspace>) -> (r:
    Option<&'a EdidData>)
    ensures
        match workspace {
            Some(w) => r matches Some(e) && e.deep_view() == w.working_parse(),
            None => r == monitor_edid,
        },
{
    match workspace {
        Some(w) => Some(w.parsed()),
        None => monitor_edid,
    }
}

/// The modes of the selected monitor as the browser lists them: the
/// established timings of the shown EDID, and the standard timings, detailed
/// timings and extension rows of its workspace.
pub struct ModeCatalog {
    pub established: Vec<EstablishedTiming>,
    pub standard: Vec<LocatedStandardTiming>,
    pub detailed: Vec<LocatedDetailedTiming>,
    pub extension: Vec<ExtensionRow>,
}

impl ModeCatalog {
    /// The catalog of a monitor whose shown EDID is `edid`, with or without a
    /// workspace: the video rows come from the shown EDID, the editable rows
    /// from the workspace alone.
    pub fn new(edid: Option<&EdidData>, workspace: Option<&EdidWorkspace>) -> (r: Self)
        ensures
            r.established@ == (match edid {
                Some(e) => e.established_timings@,
                None => Seq::empty(),
            }),
            r.standard@ == (match workspace {
                Some(w) => spec_standard_timings(w.working_bytes()).map_values(
                    |t: StandardTiming| LocatedStandardTiming { slot: t.slot, timing: t },
                ),
                None => Seq::empty(),
            }),
            r.detailed@ == (match workspace {
                Some(w) => spec_detailed_timing_locations(w.working_bytes()),
                None => Seq::empty(),
            }),
            r.extension@ == (match edid {
                Some(e) => video_rows(e.deep_view().cta_blocks),
                None => Seq::empty(),
            }) + (match workspace {
                Some(w) => spec_cta_dtd_slots(w.working_bytes()).map_values(
                    |s: CtaDtdSlot| ExtensionRow::Dtd(s),
                ),
                None => Seq::empty(),
            }),
    {
        let established = match edid {
            Some(e) => e.established_timings.clone(),
            None => Vec::new(),
        };
        let (standard, detailed, slots) = match workspace {
            Some(w) => {
                let standard = match w.standard_timings() {
                    Ok(v) => v,
                    Err(_) => Vec::new(),
                };
                let detailed = match w.dtds() {
                    Ok(v) => v,
                    Err(_) => Vec::new(),
                };
                let slots = match w.cta_dtd_slots() {
                    Ok(v) => v,
                    Err(_) => Vec::new(),
                };
                (standard, detailed, slots)
            },
            None => (Vec::new(), Vec::new(), Vec::new()),
        };
        let mut extension: Vec<ExtensionRow> = Vec::new();
        match edid {
            Some(e) => push_video_rows(&mut extension, e),
            None => {},
        }
        let ghost head = extension@;
        let mut i: usize = 0;
        while i < slots.len()
            invariant
                i <= slots@.len(),
                extension@ == head + slots@.take(i as int).map_values(
                    |s: CtaDtdSlot| ExtensionRow::Dtd(s),
                ),
            decreases slots@.len() - i,
        {
            extension.push(ExtensionRow::Dtd(slots[i]));
            i = i + 1;
            assert(extension@ =~= head + slots@.take(i as int).map_values(
                |s: CtaDtdSlot| ExtensionRow::Dtd(s),
            ));
        }
        assert(slots@.take(i as int) =~= slots@);
        assert(extension@ =~= head + slots@.map_values(|s: CtaDtdSlot| ExtensionRow::Dtd(s)));
        ModeCatalog { established, standard, detailed, extension }
    }
}


// ---------------------------------------------------------------------------
// Where a mode appears
// ---------------------------------------------------------------------------

/// The first `n` established timings as sources: their keys, labelled by row.
pub open spec fn established_sources(es: Seq<EstablishedTiming>, n: nat) -> Seq<(ModeKey, Seq<char>)>
    decreases n,
{
    if n == 0 {
        Seq::empty()
    } else {
        let t = es[n - 1];
        established_sources(es, (n - 1) as nat).push(
            (key_of_hz(t.width, t.height, t.refresh_hz), "Established row "@ + decimal(n)),
        )
    }
}

/// The first `n` standard timings as sources, labelled by slot.
pub open spec fn standard_sources(ss: Seq<LocatedStandardTiming>, n: nat) -> Seq<(ModeKey, Seq<char>)>
    decreases n,
{
    if n == 0 {
        Seq::empty()
    } else {
        let r = ss[n - 1];
        standard_sources(ss, (n - 1) as nat).push(
            (
                key_of_hz(r.timing.width, r.timing.height, r.timing.refresh_hz),
                "Standard slot "@ + decimal(r.slot as nat),
            ),
        )
    }
}

/// The first `n` detailed timings that have a refresh rate as sources,
/// labelled by location.
pub open spec fn detailed_sources(ds: Seq<LocatedDetailedTiming>, n: nat) -> Seq<(ModeKey, Seq<char>)>
    decreases n,
{
    if n == 0 {
        Seq::empty()
    } else {
        let r = ds[n - 1];
        detailed_sources(ds, (n - 1) as nat) + match spec_key_of_timing(r.timing) {
            Some(k) => seq![(k, spec_format_location(r.location))],
            None => Seq::empty(),
        }
    }
}

/// What an extension row adds as a source: a mapped video mode by its VIC,
/// a filled slot whose timing has a refresh rate by its slot.
pub open spec fn extension_source(row: ExtensionRow) -> Seq<(ModeKey, Seq<char>)> {
    match row {
        ExtensionRow::Video { extension_index, descriptor } => match descriptor {
            CtaVideoDescriptor::Known(mode) => seq![
                (
                    key_of_video(mode),
                    "CTA ext "@ + decimal(extension_index as nat) + " VIC "@ + decimal(mode.vic as nat),
                ),
            ],
            CtaVideoDescriptor::Unknown { .. } => Seq::empty(),
        },
        ExtensionRow::Dtd(slot) => match slot.timing {
            Some(t) => match spec_key_of_timing(t) {
                Some(k) => seq![
                    (
                        k,
                        "CTA ext "@ + decimal(slot.extension_index as nat) + " DTD slot "@ + decimal(
                            slot.slot as nat,
                        ),
                    ),
                ],
                None => Seq::empty(),
            },
            None => Seq::empty(),
        },
    }
}

/// The sources of the first `n` extension rows.
pub open spec fn extension_sources(xs: Seq<ExtensionRow>, n: nat) -> Seq<(ModeKey, Seq<char>)>
    decreases n,
{
    if n == 0 {
        Seq::empty()
    } else {
        extension_sources(xs, (n - 1) as nat) + extension_source(xs[n - 1])
    }
}

/// `x` added to `u` unless it is there already.
pub open spec fn add_unique(u: Seq<Seq<char>>, x: Seq<char>) -> Seq<Seq<char>> {
    if u.contains(x) {
        u
    } else {
        u.push(x)
    }
}

/// The labels of the sources of `key`, each once, in the order they first
/// appear.
pub open spec fn sources_for(all: Seq<(ModeKey, Seq<char>)>, key: ModeKey) -> Seq<Seq<char>>
    decreases all.len(),
{
    if all.len() == 0 {
        Seq::empty()
    } else {
        let u = sources_for(all.drop_last(), key);
        if all.last().0 == key {
            add_unique(u, all.last().1)
        } else {
            u
        }
    }
}

/// The sources a details dialog lists: those of the key, or the selected row
/// alone when the key has none.
pub open spec fn provenance_of(sources: Seq<Seq<char>>) -> Seq<Seq<char>> {
    if sources.len() == 0 {
        seq!["Selected row"@]
    } else {
        sources
    }
}

/// A blank line, the mode key, the number of sources and a line per source.
pub open spec fn spec_provenance_lines(key: ModeKey, sources: Seq<Seq<char>>) -> Seq<Seq<char>> {
    seq![Seq::empty(), "Mode key: "@ + spec_key_text(key), "Sources: "@ + decimal(sources.len())]
        + sources.map_values(|s: Seq<char>| "  - "@ + s)
}

/// The count of sources after a row, when a mode appears more than once.
pub open spec fn spec_provenance_suffix(count: nat) -> Seq<char> {
    if count > 1 {
        "  ["@ + decimal(count) + " sources]"@
    } else {
        Seq::empty()
    }
}

fn push_source(v: &mut Vec<(ModeKey, String)>, key: ModeKey, label: String)
    ensures
        final(v).deep_view() == old(v).deep_view().push((key, label@)),
{
    let ghost before = v.deep_view();
    let ghost lv = label@;
    v.push((key, label));
    assert(v.deep_view() =~= before.push((key, lv)));
}

fn numbered(prefix: &str, n: u64) -> (r: String)
    ensures
        r@ == prefix@ + decimal(n as nat),
{
    let mut r = String::from_str(prefix);
    push_decimal(&mut r, n);
    r
}

fn contains_text(v: &Vec<String>, s: &String) -> (r: bool)
    ensures
        r == v.deep_view().contains(s@),
{
    let mut i: usize = 0;
    while i < v.len()
        invariant
            i <= v@.len(),
            forall|j: int| 0 <= j < i ==> v.deep_view()[j] != s@,
        decreases v@.len() - i,
    {
        if crate::text::str_equal(v[i].as_str(), s.as_str()) {
            assert(v.deep_view()[i as int] == s@);
            return true;
        }
        i = i + 1;
    }
    false
}

/// Appends the provenance lines of `key` with `sources`.
pub fn with_provenance_lines(lines: &mut Vec<String>, key: ModeKey, sources: &Vec<String>)
    ensures
        final(lines).deep_view() == old(lines).deep_view() + spec_provenance_lines(key, sources.deep_view()),
{
    let ghost head = old(lines).deep_view();
    crate::install::push_line(lines, String::new());
    let mut k = String::from_str("Mode key: ");
    push_str(&mut k, key.text().as_str());
    crate::install::push_line(lines, k);
    crate::install::push_line(lines, numbered("Sources: ", sources.len() as u64));
    let ghost mid = lines.deep_view();
    let mut i: usize = 0;
    while i < sources.len()
        invariant
            i <= sources@.len(),
            lines.deep_view() == mid + sources.deep_view().take(i as int).map_values(
                |s: Seq<char>| "  - "@ + s,
            ),
        decreases sources@.len() - i,
    {
        let mut line = String::from_str("  - ");
        push_str(&mut line, sources[i].as_str());
        crate::install::push_line(lines, line);
        i = i + 1;
        assert(lines.deep_view() =~= mid + sources.deep_view().take(i as int).map_values(
            |s: Seq<char>| "  - "@ + s,
        ));
    }
    assert(sources.deep_view().take(i as int) =~= sources.deep_view());
    assert(lines.deep_view() =~= head + spec_provenance_lines(key, sources.deep_view()));
}

impl ModeCatalog {
    /// Every place a mode of the catalog appears, in the order the sections
    /// list them.
    pub open spec fn spec_sources(&self) -> Seq<(ModeKey, Seq<char>)> {
        established_sources(self.established@, self.established@.len()) + standard_sources(
            self.standard@,
            self.standard@.len(),
        ) + detailed_sources(self.detailed@, self.detailed@.len()) + extension_sources(
            self.extension@,
            self.extension@.len(),
        )
    }

    fn all_sources(&self) -> (r: Vec<(ModeKey, String)>)
        ensures
            r.deep_view() == self.spec_sources(),
    {
        let mut r: Vec<(ModeKey, String)> = Vec::new();
        let mut i: usize = 0;
        while i < self.established.len()
            invariant
                i <= self.established@.len(),
                r.deep_view() == established_sources(self.established@, i as nat),
            decreases self.established@.len() - i,
        {
            let t = self.established[i];
            push_source(
                &mut r,
                ModeKey::from_hz(t.width, t.height, t.refresh_hz),
                numbered("Established row ", i as u64 + 1),
            );
            i = i + 1;
        }
        let ghost a = r.deep_view();
        let mut i: usize = 0;
        while i < self.standard.len()
            invariant
                i <= self.standard@.len(),
                r.deep_view() == a + standard_sources(self.standard@, i as nat),
            decreases self.standard@.len() - i,
        {
            let s = self.standard[i];
            push_source(
                &mut r,
                ModeKey::from_hz(s.timing.width, s.timing.height, s.timing.refresh_hz),
                numbered("Standard slot ", s.slot as u64),
            );
            i = i + 1;
            assert(r.deep_view() =~= a + standard_sources(self.standard@, i as nat));
        }
        let ghost b = r.deep_view();
        let mut i: usize = 0;
        while i < self.detailed.len()
            invariant
                i <= self.detailed@.len(),
                r.deep_view() == b + detailed_sources(self.detailed@, i as nat),
            decreases self.detailed@.len() - i,
        {
            let d = self.detailed[i];
            match ModeKey::from_timing(&d.timing) {
                Some(k) => push_source(&mut r, k, format_location(d.location)),
                None => {},
            }
            i = i + 1;
            assert(r.deep_view() =~= b + detailed_sources(self.detailed@, i as nat));
        }
        let ghost c = r.deep_view();
        let mut i: usize = 0;
        while i < self.extension.len()
            invariant
                i <= self.extension@.len(),
                r.deep_view() == c + extension_sources(self.extension@, i as nat),
            decreases self.extension@.len() - i,
        {
            match self.extension[i] {
                ExtensionRow::Video { extension_index, descriptor } => match descriptor {
                    CtaVideoDescriptor::Known(mode) => {
                        let mut label = numbered("CTA ext ", extension_index as u64);
                        push_str(&mut label, " VIC ");
                        push_decimal(&mut label, mode.vic as u64);
                        push_source(&mut r, ModeKey::from_video(&mode), label);
                    },
                    CtaVideoDescriptor::Unknown { .. } => {},
                },
                ExtensionRow::Dtd(slot) => match slot.timing {
                    Some(t) => match ModeKey::from_timing(&t) {
                        Some(k) => {
                            let mut label = numbered("CTA ext ", slot.extension_index as u64);
                            push_str(&mut label, " DTD slot ");
                            push_decimal(&mut label, slot.slot as u64);
                            push_source(&mut r, k, label);
                        },
                        None => {},
                    },
                    None => {},
                },
            }
            i = i + 1;
            assert(r.deep_view() =~= c + extension_sources(self.extension@, i as nat));
        }
        r
    }

    /// The labels of the places `key` appears, each once, in order.
    pub fn sources(&self, key: ModeKey) -> (r: Vec<String>)
        ensures
            r.deep_view() == sources_for(self.spec_sources(), key),
    {
        let all = self.all_sources();
        let ghost av = all.deep_view();
        let mut r: Vec<String> = Vec::new();
        let mut i: usize = 0;
        while i < all.len()
            invariant
                av == all.deep_view(),
                i <= all@.len(),
                r.deep_view() == sources_for(av.take(i as int), key),
            decreases all@.len() - i,
        {
            assert(av.take(i + 1).drop_last() =~= av.take(i as int));
            if all[i].0 == key {
                if !contains_text(&r, &all[i].1) {
                    let ghost before = r.deep_view();
                    r.push(all[i].1.clone());
                    assert(r.deep_view() =~= before.push(av[i as int].1));
                }
            }
            i = i + 1;
        }
        assert(av.take(i as int) =~= av);
        r
    }

    /// The sources a details dialog lists for `key`.
    pub fn provenance(&self, key: ModeKey) -> (r: Vec<String>)
        ensures
            r.deep_view() == provenance_of(sources_for(self.spec_sources(), key)),
    {
        let s = self.sources(key);
        if s.len() == 0 {
            let mut r: Vec<String> = Vec::new();
            crate::install::push_line(&mut r, String::from_str("Selected row"));
            assert(r.deep_view() =~= seq!["Selected row"@]);
            r
        } else {
            s
        }
    }

    /// `  [N sources]` after a row whose mode appears more than once.
    pub fn provenance_suffix(&self, key: ModeKey) -> (r: String)
        ensures
            r@ == spec_provenance_suffix(sources_for(self.spec_sources(), key).len()),
    {
        let n = self.sources(key).len();
        if n > 1 {
            let mut r = numbered("  [", n as u64);
            push_str(&mut r, " sources]");
            r
        } else {
            String::new()
        }
    }
}


// ---------------------------------------------------------------------------
// The details of a row
// ---------------------------------------------------------------------------

/// A details dialog: its title and its lines.
pub struct Details {
    pub title: String,
    pub lines: Vec<String>,
}

impl DeepView for Details {
    type V = (Seq<char>, Seq<Seq<char>>);

    open spec fn deep_view(&self) -> (Seq<char>, Seq<Seq<char>>) {
        (self.title@, self.lines.deep_view())
    }
}

/// `Mode: WIDTHxHEIGHT @ REFRESH Hz` of a mode with a whole refresh rate.
pub open spec fn hz_mode_line(width: u16, height: u16, refresh_hz: u16) -> Seq<char> {
    "Mode: "@ + decimal(width as nat) + seq!['x'] + decimal(height as nat) + " @ "@ + decimal(
        refresh_hz as nat,
    ) + " Hz"@
}

fn hz_mode_text(width: u16, height: u16, refresh_hz: u16) -> (r: String)
    ensures
        r@ == hz_mode_line(width, height, refresh_hz),
{
    let mut r = numbered("Mode: ", width as u64);
    push_char(&mut r, 'x');
    push_decimal(&mut r, height as u64);
    push_str(&mut r, " @ ");
    push_decimal(&mut r, refresh_hz as u64);
    push_str(&mut r, " Hz");
    r
}

fn line(text: &str) -> (r: String)
    ensures
        r@ == text@,
{
    String::from_str(text)
}

/// The lines of a CTA video row before its provenance.
pub open spec fn video_detail_lines(extension_index: u8, descriptor: CtaVideoDescriptor) -> Seq<Seq<char>> {
    seq![
        "Source: CTA-861 Video Data Block short video descriptor"@,
        "CTA extension: "@ + decimal(extension_index as nat),
        "Descriptor: "@ + descriptor.spec_label(),
    ] + match descriptor {
        CtaVideoDescriptor::Known(mode) => seq![
            "Mapped: yes"@,
            "VIC: "@ + decimal(mode.vic as nat),
            "Native flag: "@ + spec_yes_no(mode.native),
            "Resolution: "@ + decimal(mode.width as nat) + seq!['x'] + decimal(mode.height as nat),
            "Refresh: "@ + fixed_text(mode.refresh_millihz as nat, 1000, 3) + " Hz"@,
            "Interlaced: "@ + spec_yes_no(mode.interlaced),
            "Editable: no; this is a CTA video capability row."@,
        ],
        CtaVideoDescriptor::Unknown { vic, native } => seq![
            "Mapped: no"@,
            "VIC: "@ + decimal(vic as nat),
            "Native flag: "@ + spec_yes_no(native),
            "Switch: unavailable until this VIC is mapped."@,
        ],
    }
}

/// The lines of an empty CTA detailed timing slot.
pub open spec fn empty_slot_lines(slot: CtaDtdSlot) -> Seq<Seq<char>> {
    seq![
        "Source: CTA-861 Detailed Timing Descriptor slot"@,
        "Location: "@ + spec_format_location(
            DtdLocation::Cta { extension_index: slot.extension_index, slot: slot.slot },
        ),
        "State: "@ + (if slot.occupied_unknown {
            "occupied unknown payload"@
        } else {
            "free"@
        }),
        "CTA revision: "@ + decimal(slot.revision as nat),
        "DTD offset: "@ + decimal(slot.dtd_offset as nat),
        "Checksum: "@ + (if slot.checksum_valid {
            "ok"@
        } else {
            "bad"@
        }),
    ]
}

impl ModeCatalog {
    /// The provenance lines of `key` as a details dialog lists them.
    pub open spec fn key_lines(&self, key: ModeKey) -> Seq<Seq<char>> {
        spec_provenance_lines(key, provenance_of(sources_for(self.spec_sources(), key)))
    }

    /// The provenance lines of a timing, none when it has no refresh rate.
    pub open spec fn timing_key_lines(&self, t: TimingDescriptor) -> Seq<Seq<char>> {
        match spec_key_of_timing(t) {
            Some(k) => self.key_lines(k),
            None => Seq::empty(),
        }
    }

    fn push_key_lines(&self, lines: &mut Vec<String>, key: ModeKey)
        ensures
            final(lines).deep_view() == old(lines).deep_view() + self.key_lines(key),
    {
        let p = self.provenance(key);
        with_provenance_lines(lines, key, &p);
    }

    fn push_timing_key_lines(&self, lines: &mut Vec<String>, t: &TimingDescriptor)
        ensures
            final(lines).deep_view() == old(lines).deep_view() + self.timing_key_lines(*t),
    {
        match ModeKey::from_timing(t) {
            Some(k) => self.push_key_lines(lines, k),
            None => {
                assert(lines.deep_view() =~= old(lines).deep_view() + self.timing_key_lines(*t));
            },
        }
    }

    pub open spec fn spec_established_details(&self, selected: Option<usize>) -> Option<
        (Seq<char>, Seq<Seq<char>>),
    > {
        match selected {
            None => None,
            Some(i) => if i >= self.established@.len() {
                None
            } else {
                let t = self.established@[i as int];
                Some(
                    (
                        "Established Resolution Details"@,
                        seq![
                            "Source: Base EDID established timing bitmap"@,
                            "Row: "@ + decimal((i + 1) as nat),
                            hz_mode_line(t.width, t.height, t.refresh_hz),
                            "Editable: no; established timings are fixed EDID bit flags."@,
                        ] + self.key_lines(key_of_hz(t.width, t.height, t.refresh_hz)),
                    ),
                )
            },
        }
    }

    /// The details of the selected established timing.
    pub fn established_details(&self, selected: Option<usize>) -> (r: Option<Details>)
        ensures
            r.deep_view() == self.spec_established_details(selected),
    {
        let i = match selected {
            Some(i) => i,
            None => return None,
        };
        if i >= self.established.len() {
            return None;
        }
        let t = self.established[i];
        let mut lines: Vec<String> = Vec::new();
        crate::install::push_line(&mut lines, line("Source: Base EDID established timing bitmap"));
        crate::install::push_line(&mut lines, numbered("Row: ", i as u64 + 1));
        crate::install::push_line(&mut lines, hz_mode_text(t.width, t.height, t.refresh_hz));
        crate::install::push_line(
            &mut lines,
            line("Editable: no; established timings are fixed EDID bit flags."),
        );
        self.push_key_lines(&mut lines, ModeKey::from_hz(t.width, t.height, t.refresh_hz));
        let r = Details { title: line("Established Resolution Details"), lines };
        let ghost expected = self.spec_established_details(selected)->0;
        assert(r.lines.deep_view() =~= expected.1);
        Some(r)
    }

    pub open spec fn spec_standard_details(&self, selected: Option<usize>) -> Option<
        (Seq<char>, Seq<Seq<char>>),
    > {
        match selected {
            None => None,
            Some(i) => if i >= self.standard@.len() {
                None
            } else {
                let row = self.standard@[i as int];
                let t = row.timing;
                Some(
                    (
                        "Standard Resolution Details"@,
                        seq![
                            "Source: Base EDID standard timing identifier"@,
                            "Slot: "@ + decimal(row.slot as nat),
                            hz_mode_line(t.width, t.height, t.refresh_hz),
                            "Aspect encoding: "@ + t.aspect.spec_label(),
                            "Limit: standard timings only encode 16:10, 4:3, 5:4, and 16:9 shapes."@,
                        ] + self.key_lines(key_of_hz(t.width, t.height, t.refresh_hz)),
                    ),
                )
            },
        }
    }

    /// The details of the selected standard timing.
    pub fn standard_details(&self, selected: Option<usize>) -> (r: Option<Details>)
        ensures
            r.deep_view() == self.spec_standard_details(selected),
    {
        let i = match selected {
            Some(i) => i,
            None => return None,
        };
        if i >= self.standard.len() {
            return None;
        }
        let row = self.standard[i];
        let t = row.timing;
        let mut lines: Vec<String> = Vec::new();
        crate::install::push_line(&mut lines, line("Source: Base EDID standard timing identifier"));
        crate::install::push_line(&mut lines, numbered("Slot: ", row.slot as u64));
        crate::install::push_line(&mut lines, hz_mode_text(t.width, t.height, t.refresh_hz));
        let mut aspect = String::from_str("Aspect encoding: ");
        push_str(&mut aspect, t.aspect.label());
        crate::install::push_line(&mut lines, aspect);
        crate::install::push_line(
            &mut lines,
            line("Limit: standard timings only encode 16:10, 4:3, 5:4, and 16:9 shapes."),
        );
        self.push_key_lines(&mut lines, ModeKey::from_hz(t.width, t.height, t.refresh_hz));
        let r = Details { title: line("Standard Resolution Details"), lines };
        let ghost expected = self.spec_standard_details(selected)->0;
        assert(r.lines.deep_view() =~= expected.1);
        Some(r)
    }

    pub open spec fn spec_detailed_details(&self, selected: Option<usize>) -> Option<
        (Seq<char>, Seq<Seq<char>>),
    > {
        match selected {
            None => None,
            Some(i) => if i >= self.detailed@.len() {
                None
            } else {
                let row = self.detailed@[i as int];
                Some(
                    (
                        "Detailed Resolution Details"@,
                        spec_timing_detail_lines(
                            "Source: Detailed Timing Descriptor"@,
                            Some(spec_format_location(row.location)),
                            row.timing,
                        ) + self.timing_key_lines(row.timing),
                    ),
                )
            },
        }
    }

    /// The details of the selected detailed timing.
    pub fn detailed_details(&self, selected: Option<usize>) -> (r: Option<Details>)
        ensures
            r.deep_view() == self.spec_detailed_details(selected),
    {
        let i = match selected {
            Some(i) => i,
            None => return None,
        };
        if i >= self.detailed.len() {
            return None;
        }
        let row = self.detailed[i];
        let mut lines = timing_detail_lines(
            "Source: Detailed Timing Descriptor",
            Some(format_location(row.location)),
            &row.timing,
        );
        self.push_timing_key_lines(&mut lines, &row.timing);
        let r = Details { title: line("Detailed Resolution Details"), lines };
        Some(r)
    }

    pub open spec fn spec_extension_details(&self, selected: Option<usize>) -> Option<
        (Seq<char>, Seq<Seq<char>>),
    > {
        match selected {
            None => None,
            Some(i) => if i >= self.extension@.len() {
                None
            } else {
                match self.extension@[i as int] {
                    ExtensionRow::Video { extension_index, descriptor } => Some(
                        (
                            "CTA Video Mode Details"@,
                            video_detail_lines(extension_index, descriptor) + match descriptor {
                                CtaVideoDescriptor::Known(mode) => self.key_lines(key_of_video(mode)),
                                CtaVideoDescriptor::Unknown { .. } => Seq::empty(),
                            },
                        ),
                    ),
                    ExtensionRow::Dtd(slot) => Some(
                        (
                            "CTA DTD Slot Details"@,
                            match slot.timing {
                                Some(t) => spec_timing_detail_lines(
                                    "Source: CTA-861 Detailed Timing Descriptor"@,
                                    Some(
                                        spec_format_location(
                                            DtdLocation::Cta {
                                                extension_index: slot.extension_index,
                                                slot: slot.slot,
                                            },
                                        ),
                                    ),
                                    t,
                                ) + self.timing_key_lines(t),
                                None => empty_slot_lines(slot),
                            },
                        ),
                    ),
                }
            },
        }
    }

    /// The details of the selected extension row.
    pub fn extension_details(&self, selected: Option<usize>) -> (r: Option<Details>)
        ensures
            r.deep_view() == self.spec_extension_details(selected),
    {
        let i = match selected {
            Some(i) => i,
            None => return None,
        };
        if i >= self.extension.len() {
            return None;
        }
        match self.extension[i] {
            ExtensionRow::Video { extension_index, descriptor } => {
                let mut lines: Vec<String> = Vec::new();
                crate::install::push_line(
                    &mut lines,
                    line("Source: CTA-861 Video Data Block short video descriptor"),
                );
                crate::install::push_line(&mut lines, numbered("CTA extension: ", extension_index as u64));
                let mut d = String::from_str("Descriptor: ");
                push_str(&mut d, descriptor.label().as_str());
                crate::install::push_line(&mut lines, d);
                match descriptor {
                    CtaVideoDescriptor::Known(mode) => {
                        crate::install::push_line(&mut lines, line("Mapped: yes"));
                        crate::install::push_line(&mut lines, numbered("VIC: ", mode.vic as u64));
                        let mut n = String::from_str("Native flag: ");
                        push_str(&mut n, yes_no(mode.native));
                        crate::install::push_line(&mut lines, n);
                        let mut size = numbered("Resolution: ", mode.width as u64);
                        push_char(&mut size, 'x');
                        push_decimal(&mut size, mode.height as u64);
                        assert(size@ =~= "Resolution: "@ + decimal(mode.width as nat) + seq!['x'] + decimal(
                            mode.height as nat,
                        ));
                        crate::install::push_line(&mut lines, size);
                        let mut refresh = String::from_str("Refresh: ");
                        push_fixed(&mut refresh, mode.refresh_millihz as u64, 1000, 3);
                        push_str(&mut refresh, " Hz");
                        assert(refresh@ =~= "Refresh: "@ + fixed_text(mode.refresh_millihz as nat, 1000, 3) + " Hz"@);
                        crate::install::push_line(&mut lines, refresh);
                        let mut scan = String::from_str("Interlaced: ");
                        push_str(&mut scan, yes_no(mode.interlaced));
                        crate::install::push_line(&mut lines, scan);
                        crate::install::push_line(
                            &mut lines,
                            line("Editable: no; this is a CTA video capability row."),
                        );
                        assert(lines.deep_view() =~= video_detail_lines(extension_index, descriptor));
                        self.push_key_lines(&mut lines, ModeKey::from_video(&mode));
                    },
                    CtaVideoDescriptor::Unknown { vic, native } => {
                        crate::install::push_line(&mut lines, line("Mapped: no"));
                        crate::install::push_line(&mut lines, numbered("VIC: ", vic as u64));
                        let mut n = String::from_str("Native flag: ");
                        push_str(&mut n, yes_no(native));
                        crate::install::push_line(&mut lines, n);
                        crate::install::push_line(
                            &mut lines,
                            line("Switch: unavailable until this VIC is mapped."),
                        );
                        assert(lines.deep_view() =~= video_detail_lines(extension_index, descriptor));
                    },
                }
                let r = Details { title: line("CTA Video Mode Details"), lines };
                let ghost expected = self.spec_extension_details(selected)->0;
        assert(r.lines.deep_view() =~= expected.1);
                Some(r)
            },
            ExtensionRow::Dtd(slot) => {
                let location = format_location(
                    DtdLocation::Cta { extension_index: slot.extension_index, slot: slot.slot },
                );
                let lines = match slot.timing {
                    Some(t) => {
                        let mut lines = timing_detail_lines(
                            "Source: CTA-861 Detailed Timing Descriptor",
                            Some(location),
                            &t,
                        );
                        self.push_timing_key_lines(&mut lines, &t);
                        lines
                    },
                    None => {
                        let mut lines: Vec<String> = Vec::new();
                        crate::install::push_line(
                            &mut lines,
                            line("Source: CTA-861 Detailed Timing Descriptor slot"),
                        );
                        let mut l = String::from_str("Location: ");
                        push_str(&mut l, location.as_str());
                        crate::install::push_line(&mut lines, l);
                        let mut state = String::from_str("State: ");
                        push_str(
                            &mut state,
                            if slot.occupied_unknown {
                                "occupied unknown payload"
                            } else {
                                "free"
                            },
                        );
                        crate::install::push_line(&mut lines, state);
                        crate::install::push_line(&mut lines, numbered("CTA revision: ", slot.revision as u64));
                        crate::install::push_line(&mut lines, numbered("DTD offset: ", slot.dtd_offset as u64));
                        let mut c = String::from_str("Checksum: ");
                        push_str(&mut c, checksum_label(slot.checksum_valid));
                        crate::install::push_line(&mut lines, c);
                        assert(lines.deep_view() =~= empty_slot_lines(slot));
                        lines
                    },
                };
                Some(Details { title: line("CTA DTD Slot Details"), lines })
            },
        }
    }
}


// ---------------------------------------------------------------------------
// The lines of the sections
// ---------------------------------------------------------------------------

/// `n` spaces.
pub open spec fn spaces(n: nat) -> Seq<char> {
    Seq::new(n, |i: int| ' ')
}

/// `s` padded with spaces to at least `width` characters, as `{:<width}`.
pub open spec fn pad_right(s: Seq<char>, width: nat) -> Seq<char> {
    if s.len() < width {
        s + spaces((width - s.len()) as nat)
    } else {
        s
    }
}

fn push_padded_right(r: &mut String, s: &str, width: usize)
    ensures
        final(r)@ == old(r)@ + pad_right(s@, width as nat),
{
    let n = crate::text::chars_of(s).len();
    push_str(r, s);
    let ghost mid = r@;
    if n < width {
        let mut k: usize = n;
        while k < width
            invariant
                n == s@.len(),
                n <= k <= width,
                r@ == mid + spaces((k - n) as nat),
            decreases width - k,
        {
            push_char(r, ' ');
            k = k + 1;
            assert(r@ =~= mid + spaces((k - n) as nat));
        }
    }
    assert(r@ =~= old(r)@ + pad_right(s@, width as nat));
}

/// `>` before the selected row, a space before the others.
pub open spec fn marker(selected: bool) -> Seq<char> {
    if selected {
        seq!['>']
    } else {
        seq![' ']
    }
}

/// The labels of an extension's data blocks as its section line sums them
/// up: the first four, then a count of the rest.
pub open spec fn summary_labels(labels: Seq<Seq<char>>) -> Seq<Seq<char>> {
    let shown: int = if labels.len() < 4 {
        labels.len() as int
    } else {
        4
    };
    if labels.len() > shown {
        labels.take(shown).push("+"@ + decimal((labels.len() - shown) as nat))
    } else {
        labels.take(shown)
    }
}

/// `LABEL(SIZE)`, or `LABEL(N VIC)` for a block listing video modes.
pub open spec fn cta_block_label(b: CtaDataBlockView) -> Seq<char> {
    crate::models::spec_cta_data_block_label(b.tag_code, b.extended_tag) + seq!['('] + (if b.video_modes.len()
        == 0 {
        decimal(b.payload_len as nat)
    } else {
        decimal(b.video_modes.len()) + " VIC"@
    }) + seq![')']
}

/// `LABEL(SIZE)` of a DisplayID data block.
pub open spec fn displayid_block_label(b: DisplayIdDataBlock) -> Seq<char> {
    crate::models::spec_displayid_data_block_label(b.tag) + seq!['('] + decimal(b.payload_len as nat)
        + seq![')']
}

pub open spec fn spec_cta_data_block_summary(cta: Cta861BlockView) -> Seq<char> {
    if cta.data_blocks.len() == 0 {
        "none"@
    } else {
        crate::text::joined(
            summary_labels(cta.data_blocks.map_values(|b: CtaDataBlockView| cta_block_label(b))),
            ", "@,
        )
    }
}

pub open spec fn spec_displayid_data_block_summary(d: DisplayIdBlockView) -> Seq<char> {
    if d.data_blocks.len() == 0 {
        "none"@
    } else {
        crate::text::joined(
            summary_labels(d.data_blocks.map_values(|b: DisplayIdDataBlock| displayid_block_label(b))),
            ", "@,
        )
    }
}

pub fn cta_data_block_summary(cta: &Cta861Block) -> (r: String)
    ensures
        r@ == spec_cta_data_block_summary(cta.deep_view()),
{
    let n = cta.data_blocks.len();
    if n == 0 {
        return line("none");
    }
    let ghost bv = cta.deep_view().data_blocks;
    let shown: usize = if n < 4 {
        n
    } else {
        4
    };
    let mut labels: Vec<String> = Vec::new();
    let mut i: usize = 0;
    while i < shown
        invariant
            bv == cta.deep_view().data_blocks,
            bv.len() == n,
            n == cta.data_blocks@.len(),
            shown <= n,
            i <= shown,
            labels.deep_view() == bv.map_values(|b: CtaDataBlockView| cta_block_label(b)).take(i as int),
        decreases shown - i,
    {
        let b = &cta.data_blocks[i];
        assert(bv[i as int] == b.deep_view());
        let mut l = b.label();
        push_char(&mut l, '(');
        if b.video_modes.len() == 0 {
            push_decimal(&mut l, b.payload_len as u64);
        } else {
            push_decimal(&mut l, b.video_modes.len() as u64);
            push_str(&mut l, " VIC");
        }
        push_char(&mut l, ')');
        assert(l@ =~= cta_block_label(bv[i as int]));
        crate::install::push_line(&mut labels, l);
        i = i + 1;
        assert(labels.deep_view() =~= bv.map_values(|b: CtaDataBlockView| cta_block_label(b)).take(i as int));
    }
    if n > shown {
        crate::install::push_line(&mut labels, numbered("+", (n - shown) as u64));
    }
    assert(labels.deep_view() =~= summary_labels(bv.map_values(|b: CtaDataBlockView| cta_block_label(b))));
    let mut r = String::new();
    crate::text::push_joined_strings(&mut r, &labels, ", ");
    assert(r@ =~= spec_cta_data_block_summary(cta.deep_view()));
    r
}

pub fn displayid_data_block_summary(d: &DisplayIdBlock) -> (r: String)
    ensures
        r@ == spec_displayid_data_block_summary(d.deep_view()),
{
    let n = d.data_blocks.len();
    if n == 0 {
        return line("none");
    }
    let ghost bv = d.deep_view().data_blocks;
    let shown: usize = if n < 4 {
        n
    } else {
        4
    };
    let mut labels: Vec<String> = Vec::new();
    let mut i: usize = 0;
    while i < shown
        invariant
            bv == d.deep_view().data_blocks,
            bv.len() == n,
            n == d.data_blocks@.len(),
            shown <= n,
            i <= shown,
            labels.deep_view() == bv.map_values(|b: DisplayIdDataBlock| displayid_block_label(b)).take(i as int),
        decreases shown - i,
    {
        let b = d.data_blocks[i];
        let mut l = b.label();
        push_char(&mut l, '(');
        push_decimal(&mut l, b.payload_len as u64);
        push_char(&mut l, ')');
        assert(l@ =~= displayid_block_label(bv[i as int]));
        crate::install::push_line(&mut labels, l);
        i = i + 1;
        assert(labels.deep_view() =~= bv.map_values(|b: DisplayIdDataBlock| displayid_block_label(b)).take(i as int));
    }
    if n > shown {
        crate::install::push_line(&mut labels, numbered("+", (n - shown) as u64));
    }
    assert(labels.deep_view() =~= summary_labels(bv.map_values(|b: DisplayIdDataBlock| displayid_block_label(b))));
    let mut r = String::new();
    crate::text::push_joined_strings(&mut r, &labels, ", ");
    assert(r@ =~= spec_displayid_data_block_summary(d.deep_view()));
    r
}

/// The line that sums up a CTA-861 extension above its rows.
pub open spec fn spec_cta_header_line(cta: Cta861BlockView) -> Seq<char> {
    "CTA ext "@ + decimal(cta.extension_index as nat) + " rev "@ + decimal(cta.revision as nat)
        + "  data "@ + spec_cta_data_block_summary(cta) + "  DTDs "@ + decimal(cta.detailed_timings.len())
        + " used, "@ + decimal(cta.available_dtd_slots as nat) + " free  checksum "@ + (if cta.checksum_valid {
        "ok"@
    } else {
        "bad"@
    })
}

pub fn cta_header_line(cta: &Cta861Block) -> (r: String)
    ensures
        r@ == spec_cta_header_line(cta.deep_view()),
{
    let mut r = numbered("CTA ext ", cta.extension_index as u64);
    push_str(&mut r, " rev ");
    push_decimal(&mut r, cta.revision as u64);
    push_str(&mut r, "  data ");
    push_str(&mut r, cta_data_block_summary(cta).as_str());
    push_str(&mut r, "  DTDs ");
    push_decimal(&mut r, cta.detailed_timings.len() as u64);
    push_str(&mut r, " used, ");
    push_decimal(&mut r, cta.available_dtd_slots as u64);
    push_str(&mut r, " free  checksum ");
    push_str(&mut r, checksum_label(cta.checksum_valid));
    assert(r@ =~= spec_cta_header_line(cta.deep_view()));
    r
}

/// The line that sums up a DisplayID extension.
pub open spec fn spec_displayid_header_line(d: DisplayIdBlockView) -> Seq<char> {
    "DisplayID ext "@ + decimal(d.extension_index as nat) + " v"@ + decimal(d.version_major as nat)
        + seq!['.'] + decimal(d.version_minor as nat) + "  data "@ + spec_displayid_data_block_summary(d)
        + "  DTDs "@ + decimal(d.detailed_timings.len()) + "  checksum "@ + (if d.checksum_valid {
        "ok"@
    } else {
        "bad"@
    })
}

pub fn displayid_header_line(d: &DisplayIdBlock) -> (r: String)
    ensures
        r@ == spec_displayid_header_line(d.deep_view()),
{
    let mut r = numbered("DisplayID ext ", d.extension_index as u64);
    push_str(&mut r, " v");
    push_decimal(&mut r, d.version_major as u64);
    push_char(&mut r, '.');
    push_decimal(&mut r, d.version_minor as u64);
    push_str(&mut r, "  data ");
    push_str(&mut r, displayid_data_block_summary(d).as_str());
    push_str(&mut r, "  DTDs ");
    push_decimal(&mut r, d.detailed_timings.len() as u64);
    push_str(&mut r, "  checksum ");
    push_str(&mut r, checksum_label(d.checksum_valid));
    assert(r@ =~= spec_displayid_header_line(d.deep_view()));
    r
}


/// The sections of resolutions the browser lists.
#[derive(Debug, Clone, Copy, PartialEq, Eq, Structural)]
pub enum ResolutionSection {
    Detailed,
    Standard,
    Extension,
}

/// The free CTA slot a row stands for, if it is one.
pub open spec fn free_slot_of(row: ExtensionRow) -> Option<(u8, usize)> {
    match row {
        ExtensionRow::Dtd(s) => if s.timing is None && !s.occupied_unknown {
            Some((s.extension_index, s.slot))
        } else {
            None
        },
        _ => None,
    }
}

/// The first free CTA slot among the rows from `from` on.
pub open spec fn first_free_slot(rows: Seq<ExtensionRow>, from: int) -> Option<(u8, usize)>
    decreases rows.len() - from,
{
    if from < 0 || from >= rows.len() {
        None
    } else if free_slot_of(rows[from]) is Some {
        free_slot_of(rows[from])
    } else {
        first_free_slot(rows, from + 1)
    }
}

/// Whether a row is the CTA slot at `location`.
pub open spec fn row_at(row: ExtensionRow, location: DtdLocation) -> bool {
    match row {
        ExtensionRow::Dtd(s) => DtdLocation::Cta { extension_index: s.extension_index, slot: s.slot }
            == location,
        _ => false,
    }
}

/// The index of the first row from `from` on that is the slot at `location`.
pub open spec fn first_row_at(rows: Seq<ExtensionRow>, location: DtdLocation, from: int) -> Option<usize>
    decreases rows.len() - from,
{
    if from < 0 || from >= rows.len() {
        None
    } else if row_at(rows[from], location) {
        Some(from as usize)
    } else {
        first_row_at(rows, location, from + 1)
    }
}

/// How many slots of a section's kind are used and free.
pub open spec fn spec_summary_suffix(section: ResolutionSection, s: crate::edid::EdidSlotSummary) -> Seq<char> {
    match section {
        ResolutionSection::Detailed => "  base "@ + decimal(s.base_dtd_used as nat) + seq!['/'] + decimal(
            (s.base_dtd_used + s.base_dtd_free) as nat,
        ) + " used, "@ + decimal(s.base_dtd_free as nat) + " free"@,
        ResolutionSection::Standard => "  "@ + decimal(s.standard_used as nat) + "/8 used, "@ + decimal(
            s.standard_free as nat,
        ) + " free"@,
        ResolutionSection::Extension => "  CTA DTDs "@ + decimal(s.cta_dtd_used as nat) + " used, "@
            + decimal(s.cta_dtd_free as nat) + " free"@,
    }
}

fn summary_suffix(section: ResolutionSection, s: crate::edid::EdidSlotSummary) -> (r: String)
    requires
        s.base_dtd_used + s.base_dtd_free <= u64::MAX,
    ensures
        r@ == spec_summary_suffix(section, s),
{
    let mut r = String::new();
    match section {
        ResolutionSection::Detailed => {
            push_str(&mut r, "  base ");
            push_decimal(&mut r, s.base_dtd_used as u64);
            push_char(&mut r, '/');
            push_decimal(&mut r, s.base_dtd_used as u64 + s.base_dtd_free as u64);
            push_str(&mut r, " used, ");
            push_decimal(&mut r, s.base_dtd_free as u64);
            push_str(&mut r, " free");
        },
        ResolutionSection::Standard => {
            push_str(&mut r, "  ");
            push_decimal(&mut r, s.standard_used as u64);
            push_str(&mut r, "/8 used, ");
            push_decimal(&mut r, s.standard_free as u64);
            push_str(&mut r, " free");
        },
        ResolutionSection::Extension => {
            push_str(&mut r, "  CTA DTDs ");
            push_decimal(&mut r, s.cta_dtd_used as u64);
            push_str(&mut r, " used, ");
            push_decimal(&mut r, s.cta_dtd_free as u64);
            push_str(&mut r, " free");
        },
    }
    assert(r@ =~= spec_summary_suffix(section, s));
    r
}

impl ModeCatalog {
    /// The count of sources after a row of timing `t`.
    pub open spec fn timing_suffix(&self, t: TimingDescriptor) -> Seq<char> {
        match spec_key_of_timing(t) {
            Some(k) => spec_provenance_suffix(sources_for(self.spec_sources(), k).len()),
            None => Seq::empty(),
        }
    }

    fn push_timing_suffix(&self, r: &mut String, t: &TimingDescriptor)
        ensures
            final(r)@ == old(r)@ + self.timing_suffix(*t),
    {
        match ModeKey::from_timing(t) {
            Some(k) => push_str(r, self.provenance_suffix(k).as_str()),
            None => {
                assert(r@ =~= old(r)@ + self.timing_suffix(*t));
            },
        }
    }

    pub open spec fn spec_detailed_row_text(&self, index: int, selected: Option<usize>) -> Seq<char> {
        let row = self.detailed@[index];
        marker(selected == Some(index as usize)) + seq![' '] + pad_right(row.timing.spec_hyprland_mode(), 18)
            + seq![' '] + spec_format_location(row.location) + self.timing_suffix(row.timing)
    }

    /// The line of a detailed timing in its section.
    pub fn detailed_row_text(&self, index: usize, selected: Option<usize>) -> (r: String)
        requires
            index < self.detailed@.len(),
        ensures
            r@ == self.spec_detailed_row_text(index as int, selected),
    {
        let row = self.detailed[index];
        let mut r = String::new();
        push_char(&mut r, if selected == Some(index) { '>' } else { ' ' });
        push_char(&mut r, ' ');
        push_padded_right(&mut r, row.timing.hyprland_mode().as_str(), 18);
        push_char(&mut r, ' ');
        push_str(&mut r, format_location(row.location).as_str());
        self.push_timing_suffix(&mut r, &row.timing);
        assert(r@ =~= self.spec_detailed_row_text(index as int, selected));
        r
    }

    pub open spec fn spec_standard_row_text(&self, index: int, selected: Option<usize>) -> Seq<char> {
        let row = self.standard@[index];
        let t = row.timing;
        marker(selected == Some(index as usize)) + " slot "@ + decimal(row.slot as nat) + "  "@ + decimal(
            t.width as nat,
        ) + seq!['x'] + decimal(t.height as nat) + " @ "@ + decimal(t.refresh_hz as nat) + " Hz  "@
            + t.aspect.spec_label() + spec_provenance_suffix(
            sources_for(self.spec_sources(), key_of_hz(t.width, t.height, t.refresh_hz)).len(),
        )
    }

    /// The line of a standard timing in its section.
    pub fn standard_row_text(&self, index: usize, selected: Option<usize>) -> (r: String)
        requires
            index < self.standard@.len(),
        ensures
            r@ == self.spec_standard_row_text(index as int, selected),
    {
        let row = self.standard[index];
        let t = row.timing;
        let mut r = String::new();
        push_char(&mut r, if selected == Some(index) { '>' } else { ' ' });
        push_str(&mut r, " slot ");
        push_decimal(&mut r, row.slot as u64);
        push_str(&mut r, "  ");
        push_decimal(&mut r, t.width as u64);
        push_char(&mut r, 'x');
        push_decimal(&mut r, t.height as u64);
        push_str(&mut r, " @ ");
        push_decimal(&mut r, t.refresh_hz as u64);
        push_str(&mut r, " Hz  ");
        push_str(&mut r, t.aspect.label());
        push_str(
            &mut r,
            self.provenance_suffix(ModeKey::from_hz(t.width, t.height, t.refresh_hz)).as_str(),
        );
        assert(r@ =~= self.spec_standard_row_text(index as int, selected));
        r
    }

    pub open spec fn spec_extension_row_text(&self, index: int, selected: Option<usize>) -> Seq<char> {
        let m = marker(selected == Some(index as usize));
        match self.extension@[index] {
            ExtensionRow::Video { extension_index, descriptor } => m + "   CTA ext "@ + decimal(
                extension_index as nat,
            ) + " video  "@ + descriptor.spec_label() + match descriptor {
                CtaVideoDescriptor::Known(mode) => spec_provenance_suffix(
                    sources_for(self.spec_sources(), key_of_video(mode)).len(),
                ),
                CtaVideoDescriptor::Unknown { .. } => Seq::empty(),
            },
            ExtensionRow::Dtd(slot) => {
                let payload = match slot.timing {
                    Some(t) => t.spec_hyprland_mode(),
                    None => if slot.occupied_unknown {
                        "[occupied unknown DTD]"@
                    } else {
                        "[free DTD slot]"@
                    },
                };
                m + "   DTD slot "@ + decimal(slot.extension_index as nat) + seq!['.'] + decimal(
                    slot.slot as nat,
                ) + "  "@ + pad_right(payload, 18) + " checksum "@ + (if slot.checksum_valid {
                    "ok"@
                } else {
                    "bad"@
                }) + match slot.timing {
                    Some(t) => self.timing_suffix(t),
                    None => Seq::empty(),
                }
            },
        }
    }

    /// The line of an extension row in its section.
    pub fn extension_row_text(&self, index: usize, selected: Option<usize>) -> (r: String)
        requires
            index < self.extension@.len(),
        ensures
            r@ == self.spec_extension_row_text(index as int, selected),
    {
        let mut r = String::new();
        push_char(&mut r, if selected == Some(index) { '>' } else { ' ' });
        match self.extension[index] {
            ExtensionRow::Video { extension_index, descriptor } => {
                push_str(&mut r, "   CTA ext ");
                push_decimal(&mut r, extension_index as u64);
                push_str(&mut r, " video  ");
                push_str(&mut r, descriptor.label().as_str());
                match descriptor {
                    CtaVideoDescriptor::Known(mode) => push_str(
                        &mut r,
                        self.provenance_suffix(ModeKey::from_video(&mode)).as_str(),
                    ),
                    CtaVideoDescriptor::Unknown { .. } => {},
                }
            },
            ExtensionRow::Dtd(slot) => {
                push_str(&mut r, "   DTD slot ");
                push_decimal(&mut r, slot.extension_index as u64);
                push_char(&mut r, '.');
                push_decimal(&mut r, slot.slot as u64);
                push_str(&mut r, "  ");
                match slot.timing {
                    Some(t) => push_padded_right(&mut r, t.hyprland_mode().as_str(), 18),
                    None => push_padded_right(
                        &mut r,
                        if slot.occupied_unknown {
                            "[occupied unknown DTD]"
                        } else {
                            "[free DTD slot]"
                        },
                        18,
                    ),
                }
                push_str(&mut r, " checksum ");
                push_str(&mut r, checksum_label(slot.checksum_valid));
                match slot.timing {
                    Some(t) => self.push_timing_suffix(&mut r, &t),
                    None => {},
                }
            },
        }
        assert(r@ =~= self.spec_extension_row_text(index as int, selected));
        r
    }

    pub open spec fn section_len(&self, section: ResolutionSection) -> nat {
        match section {
            ResolutionSection::Detailed => self.detailed@.len(),
            ResolutionSection::Standard => self.standard@.len(),
            ResolutionSection::Extension => self.extension@.len(),
        }
    }

    pub open spec fn spec_section_title(
        &self,
        section: ResolutionSection,
        summary: Option<crate::edid::EdidSlotSummary>,
        scroll: usize,
        viewport_height: u16,
    ) -> Seq<char> {
        let label = match section {
            ResolutionSection::Detailed => "Detailed resolutions"@,
            ResolutionSection::Standard => "Standard resolutions"@,
            ResolutionSection::Extension => "Extension blocks"@,
        };
        let title = spec_scroll_title(label, scroll, self.section_len(section) as usize, viewport_height);
        match summary {
            None => title,
            Some(s) => title + spec_summary_suffix(section, s),
        }
    }

    /// The title of a section: its scroll title, and with a workspace how
    /// many slots of its kind are used and free.
    pub fn section_title(
        &self,
        section: ResolutionSection,
        summary: Option<crate::edid::EdidSlotSummary>,
        scroll: usize,
        viewport_height: u16,
    ) -> (r: String)
        requires
            summary matches Some(s) ==> s.base_dtd_used + s.base_dtd_free <= u64::MAX,
        ensures
            r@ == self.spec_section_title(section, summary, scroll, viewport_height),
    {
        let (label, len) = match section {
            ResolutionSection::Detailed => ("Detailed resolutions", self.detailed.len()),
            ResolutionSection::Standard => ("Standard resolutions", self.standard.len()),
            ResolutionSection::Extension => ("Extension blocks", self.extension.len()),
        };
        let mut r = scroll_title(label, scroll, len, viewport_height);
        match summary {
            None => {},
            Some(s) => push_str(&mut r, summary_suffix(section, s).as_str()),
        }
        r
    }

    /// Where a new CTA timing goes: the selected row when it is a free slot,
    /// else the first free slot.
    pub fn selected_or_first_free_cta_slot(&self, selected: Option<usize>) -> (r: Option<(u8, usize)>)
        ensures
            r == (match selected {
                Some(i) if i < self.extension@.len() && free_slot_of(self.extension@[i as int]) is Some =>
                    free_slot_of(self.extension@[i as int]),
                _ => first_free_slot(self.extension@, 0),
            }),
    {
        match selected {
            Some(i) => if i < self.extension.len() {
                match self.extension[i] {
                    ExtensionRow::Dtd(s) => if s.timing.is_none() && !s.occupied_unknown {
                        return Some((s.extension_index, s.slot));
                    },
                    _ => {},
                }
            },
            None => {},
        }
        let mut i: usize = 0;
        while i < self.extension.len()
            invariant
                i <= self.extension@.len(),
                first_free_slot(self.extension@, 0) == first_free_slot(self.extension@, i as int),
                !(selected matches Some(j) && j < self.extension@.len() && free_slot_of(
                    self.extension@[j as int],
                ) is Some),
            decreases self.extension@.len() - i,
        {
            match self.extension[i] {
                ExtensionRow::Dtd(s) => if s.timing.is_none() && !s.occupied_unknown {
                    return Some((s.extension_index, s.slot));
                },
                _ => {},
            }
            i = i + 1;
        }
        None
    }

    /// The row of the CTA slot at `location`.
    pub fn extension_row_index_for_location(&self, location: DtdLocation) -> (r: Option<usize>)
        ensures
            r == first_row_at(self.extension@, location, 0),
    {
        let mut i: usize = 0;
        while i < self.extension.len()
            invariant
                i <= self.extension@.len(),
                first_row_at(self.extension@, location, 0) == first_row_at(self.extension@, location, i as int),
            decreases self.extension@.len() - i,
        {
            match self.extension[i] {
                ExtensionRow::Dtd(s) => {
                    if (DtdLocation::Cta { extension_index: s.extension_index, slot: s.slot }) == location {
                        return Some(i);
                    }
                },
                _ => {},
            }
            i = i + 1;
        }
        None
    }
}


// ---------------------------------------------------------------------------
// What stands in the way of an export
// ---------------------------------------------------------------------------

/// Whether a timing's front porch plus sync width fits in 16 bits on both
/// axes, as it does for every timing a detailed timing descriptor holds.
pub open spec fn porch_sums_fit(t: TimingDescriptor) -> bool {
    t.h_front_porch + t.h_sync_width <= u16::MAX && t.v_front_porch + t.v_sync_width <= u16::MAX
}

/// The warnings of a timing whose porch sums fit.
pub open spec fn timing_warnings(t: TimingDescriptor) -> Seq<crate::validation::TimingWarningView> {
    if porch_sums_fit(t) {
        crate::validation::spec_validate_timing(t)
    } else {
        Seq::empty()
    }
}

pub(crate) fn checked_warnings(t: &TimingDescriptor) -> (r: Vec<TimingWarning>)
    ensures
        r.deep_view() == timing_warnings(*t),
{
    if t.h_front_porch as u32 + t.h_sync_width as u32 <= 0xffff && t.v_front_porch as u32
        + t.v_sync_width as u32 <= 0xffff {
        crate::validation::validate_timing(t)
    } else {
        let r: Vec<TimingWarning> = Vec::new();
        assert(r.deep_view() =~= timing_warnings(*t));
        r
    }
}

/// `Error` or `Warning`.
pub open spec fn severity_text(w: crate::validation::TimingWarningView) -> Seq<char> {
    match w.severity {
        crate::validation::TimingWarningSeverity::Error => "Error"@,
        crate::validation::TimingWarningSeverity::Warning => "Warning"@,
    }
}

/// The issue lines of the warnings `ws` of the timing at `location`.
pub open spec fn located_warning_lines(location: DtdLocation, ws: Seq<crate::validation::TimingWarningView>) -> Seq<
    Seq<char>,
> {
    ws.map_values(
        |w: crate::validation::TimingWarningView|
            severity_text(w) + ": "@ + spec_format_location(location) + ": "@ + w.message,
    )
}

/// The issue lines of the warnings of the first `n` detailed timings.
pub open spec fn detailed_warning_lines(ds: Seq<LocatedDetailedTiming>, n: nat) -> Seq<Seq<char>>
    decreases n,
{
    if n == 0 {
        Seq::empty()
    } else {
        detailed_warning_lines(ds, (n - 1) as nat) + located_warning_lines(
            ds[n - 1].location,
            timing_warnings(ds[n - 1].timing),
        )
    }
}

/// Every issue of a workspace about to be exported, in the order they are
/// found: the checks of its bytes, the warnings of its detailed timings, and
/// the internal panel's.
pub open spec fn workspace_issue_items(
    bytes: Seq<u8>,
    panel: Option<crate::validation::TimingWarningView>,
) -> Seq<Seq<char>> {
    crate::workspace::spec_validation_issues(bytes, bytes[126]).map_values(|m: Seq<char>| "Error: "@ + m)
        + detailed_warning_lines(
        spec_detailed_timing_locations(bytes),
        spec_detailed_timing_locations(bytes).len(),
    ) + match panel {
        Some(w) => seq!["Warning: "@ + w.message],
        None => Seq::empty(),
    }
}

fn add_issue(sorted: &mut Vec<Vec<char>>, issue: String, Ghost(items): Ghost<Seq<Seq<char>>>)
    requires
        crate::text::strictly_sorted(old(sorted).deep_view()),
        old(sorted).deep_view().to_set() == items.to_set(),
    ensures
        crate::text::strictly_sorted(final(sorted).deep_view()),
        final(sorted).deep_view().to_set() == items.push(issue@).to_set(),
{
    let v = crate::text::chars_of(issue.as_str());
    crate::text::insert_sorted(sorted, v);
    proof {
        items.lemma_push_to_set_commute(issue@);
    }
}

fn strings_of(v: &Vec<Vec<char>>) -> (r: Vec<String>)
    ensures
        r.deep_view() == v.deep_view(),
{
    let mut r: Vec<String> = Vec::new();
    let mut i: usize = 0;
    while i < v.len()
        invariant
            i <= v@.len(),
            r.deep_view() == v.deep_view().take(i as int),
        decreases v@.len() - i,
    {
        proof {
            crate::text::lemma_chars_deep_view(v@[i as int]);
        }
        crate::install::push_line(&mut r, crate::text::string_of(&v[i]));
        i = i + 1;
        assert(r.deep_view() =~= v.deep_view().take(i as int));
    }
    assert(v.deep_view().take(i as int) =~= v.deep_view());
    r
}

/// The issues that hold up the export of a workspace: each problem of its
/// bytes as an error, each warning of its detailed timings with the
/// timing's location, and the internal panel warning if there is one; sorted,
/// each once.
pub fn workspace_validation_issues(workspace: &EdidWorkspace, panel: Option<&TimingWarning>) -> (r: Vec<
    String,
>)
    ensures
        r.deep_view() == crate::validation::sorted_sizes(
            workspace_issue_items(workspace.working_bytes(), panel.deep_view()).to_set(),
        ),
{
    let ghost bytes = workspace.working_bytes();
    let mut sorted: Vec<Vec<char>> = Vec::new();
    let ghost mut items: Seq<Seq<char>> = Seq::empty();
    assert(sorted.deep_view() =~= Seq::<Seq<char>>::empty());
    let problems = workspace.validate();
    let mut i: usize = 0;
    while i < problems.len()
        invariant
            i <= problems@.len(),
            problems.deep_view() == crate::workspace::spec_validation_issues(bytes, bytes[126]),
            crate::text::strictly_sorted(sorted.deep_view()),
            sorted.deep_view().to_set() == items.to_set(),
            items == problems.deep_view().take(i as int).map_values(|m: Seq<char>| "Error: "@ + m),
        decreases problems@.len() - i,
    {
        let mut line = String::from_str("Error: ");
        push_str(&mut line, problems[i].message.as_str());
        add_issue(&mut sorted, line, Ghost(items));
        proof {
            items = items.push("Error: "@ + problems.deep_view()[i as int]);
        }
        i = i + 1;
        assert(items =~= problems.deep_view().take(i as int).map_values(|m: Seq<char>| "Error: "@ + m));
    }
    assert(problems.deep_view().take(i as int) =~= problems.deep_view());
    let ghost a = items;
    let rows = match workspace.dtds() {
        Ok(v) => v,
        Err(_) => Vec::new(),
    };
    let mut i: usize = 0;
    while i < rows.len()
        invariant
            i <= rows@.len(),
            rows@ == spec_detailed_timing_locations(bytes),
            crate::text::strictly_sorted(sorted.deep_view()),
            sorted.deep_view().to_set() == items.to_set(),
            items == a + detailed_warning_lines(rows@, i as nat),
        decreases rows@.len() - i,
    {
        let row = rows[i];
        let warnings = checked_warnings(&row.timing);
        let ghost before = items;
        let mut k: usize = 0;
        while k < warnings.len()
            invariant
                k <= warnings@.len(),
                warnings.deep_view() == timing_warnings(row.timing),
                crate::text::strictly_sorted(sorted.deep_view()),
                sorted.deep_view().to_set() == items.to_set(),
                items == before + located_warning_lines(row.location, warnings.deep_view().take(k as int)),
            decreases warnings@.len() - k,
        {
            let mut line = String::from_str(warnings[k].label());
            push_str(&mut line, ": ");
            push_str(&mut line, format_location(row.location).as_str());
            push_str(&mut line, ": ");
            push_str(&mut line, warnings[k].message.as_str());
            assert(line@ =~= severity_text(warnings.deep_view()[k as int]) + ": "@ + spec_format_location(
                row.location,
            ) + ": "@ + warnings.deep_view()[k as int].message);
            add_issue(&mut sorted, line, Ghost(items));
            proof {
                items = items.push(line@);
            }
            k = k + 1;
            assert(items =~= before + located_warning_lines(
                row.location,
                warnings.deep_view().take(k as int),
            ));
        }
        assert(warnings.deep_view().take(k as int) =~= warnings.deep_view());
        i = i + 1;
        assert(items =~= a + detailed_warning_lines(rows@, i as nat));
    }
    match panel {
        Some(w) => {
            let mut line = String::from_str("Warning: ");
            push_str(&mut line, w.message.as_str());
            add_issue(&mut sorted, line, Ghost(items));
            proof {
                items = items.push(line@);
            }
        },
        None => {},
    }
    assert(items =~= workspace_issue_items(bytes, panel.deep_view()));
    let r = strings_of(&sorted);
    proof {
        let chosen = crate::validation::sorted_sizes(items.to_set());
        assert(crate::text::strictly_sorted(r.deep_view()) && r.deep_view().to_set() == items.to_set());
        crate::text::lemma_strictly_sorted_unique(r.deep_view(), chosen);
    }
    r
}


/// The warning about an internal panel whose modes leave its native size.
pub open spec fn spec_panel_warning(
    connector: Seq<char>,
    native: TimingDescriptor,
    timings: Seq<TimingDescriptor>,
) -> Option<crate::validation::TimingWarningView> {
    if crate::text::starts_at(connector, 0, "eDP-"@) && !crate::validation::differing_sizes(
        native,
        timings,
    ).is_empty() {
        Some(
            crate::validation::warning_of(
                crate::validation::scaling_message(
                    native,
                    crate::validation::sorted_sizes(crate::validation::differing_sizes(native, timings)),
                ),
            ),
        )
    } else {
        None
    }
}

/// The timings an export would write: those of a changed workspace, else the
/// draft alone.
pub open spec fn exported_timings(workspace: Option<&EdidWorkspace>, draft: TimingDescriptor) -> Seq<
    TimingDescriptor,
> {
    match workspace {
        Some(w) => if w.original() != w.working_bytes() {
            spec_detailed_timing_locations(w.working_bytes()).map_values(
                |r: LocatedDetailedTiming| r.timing,
            )
        } else {
            seq![draft]
        },
        None => seq![draft],
    }
}

/// The internal panel warning for the timings an export would write, against
/// the first detailed timing of the monitor's own EDID.
pub fn internal_panel_timing_warning(
    connector: &str,
    monitor_edid: Option<&EdidData>,
    workspace: Option<&EdidWorkspace>,
    draft: &TimingDescriptor,
) -> (r: Option<TimingWarning>)
    ensures
        r.deep_view() == (match monitor_edid {
            None => None,
            Some(e) => if e.detailed_timings@.len() == 0 {
                None
            } else {
                spec_panel_warning(
                    connector@,
                    e.detailed_timings@[0],
                    exported_timings(workspace, *draft),
                )
            },
        }),
{
    let edid = match monitor_edid {
        Some(e) => e,
        None => return None,
    };
    if edid.detailed_timings.len() == 0 {
        return None;
    }
    let native = edid.detailed_timings[0];
    let mut timings: Vec<TimingDescriptor> = Vec::new();
    let changed = match workspace {
        Some(w) => w.has_changes(),
        None => false,
    };
    if changed {
        let rows = match workspace {
            Some(w) => match w.dtds() {
                Ok(v) => v,
                Err(_) => Vec::new(),
            },
            None => Vec::new(),
        };
        let mut i: usize = 0;
        while i < rows.len()
            invariant
                i <= rows@.len(),
                timings@ == rows@.take(i as int).map_values(|r: LocatedDetailedTiming| r.timing),
            decreases rows@.len() - i,
        {
            timings.push(rows[i].timing);
            i = i + 1;
            assert(timings@ =~= rows@.take(i as int).map_values(|r: LocatedDetailedTiming| r.timing));
        }
        assert(rows@.take(i as int) =~= rows@);
    } else {
        timings.push(*draft);
    }
    assert(timings@ =~= exported_timings(workspace, *draft));
    crate::validation::internal_panel_scaling_warning(connector, &native, timings.as_slice())
}

/// An error line per CTA-861 extension among the first `n` whose checksum
/// does not hold.
pub open spec fn cta_checksum_lines(ctas: Seq<Cta861BlockView>, n: nat) -> Seq<Seq<char>>
    decreases n,
{
    if n == 0 {
        Seq::empty()
    } else {
        cta_checksum_lines(ctas, (n - 1) as nat) + if ctas[n - 1].checksum_valid {
            Seq::empty()
        } else {
            seq![
                "Error: CTA-861 extension "@ + decimal(ctas[n - 1].extension_index as nat)
                    + " checksum is invalid."@,
            ]
        }
    }
}

/// The issues of patching the monitor's own EDID with the draft timing.
pub open spec fn patch_issue_lines(edid: EdidDataView, no_free_slot: bool) -> Seq<Seq<char>> {
    (if edid.checksum_valid {
        Seq::empty()
    } else {
        seq!["Error: Base EDID checksum is invalid."@]
    }) + cta_checksum_lines(edid.cta_blocks, edid.cta_blocks.len()) + (if no_free_slot {
        seq!["Error: No free base or CTA detailed timing slot is visible for draft insertion."@]
    } else {
        Seq::empty()
    }) + seq![
        "Warning: No workspace EDID changes are pending; export will insert the current draft detailed timing."@,
    ]
}

/// The issues of the draft timing itself: its warnings, the internal panel
/// warning, and the places its mode already appears when there are several.
pub open spec fn draft_issue_lines(
    draft: TimingDescriptor,
    panel: Option<crate::validation::TimingWarningView>,
    sources: Seq<Seq<char>>,
) -> Seq<Seq<char>> {
    timing_warnings(draft).map_values(
        |w: crate::validation::TimingWarningView| severity_text(w) + ": Draft timing: "@ + w.message,
    ) + (match panel {
        Some(w) => seq!["Warning: Internal panel: "@ + w.message],
        None => Seq::empty(),
    }) + (if sources.len() > 1 {
        seq![
            "Warning: Draft timing duplicates an existing mode in "@ + decimal(sources.len())
                + " source(s): "@ + crate::text::joined(sources, ", "@) + "."@,
        ]
    } else {
        Seq::empty()
    })
}

/// Whether the workspace shows no free base or CTA detailed timing slot.
pub open spec fn no_free_slot(workspace: Option<&EdidWorkspace>) -> bool {
    match workspace {
        Some(w) => {
            let s = crate::edid::spec_slot_summary(w.working_bytes());
            s.base_dtd_free == 0 && s.cta_dtd_free == 0
        },
        None => true,
    }
}

impl ModeCatalog {
    /// The places the draft's mode appears.
    pub open spec fn draft_sources(&self, draft: TimingDescriptor) -> Seq<Seq<char>> {
        match spec_key_of_timing(draft) {
            Some(k) => sources_for(self.spec_sources(), k),
            None => Seq::empty(),
        }
    }

    pub open spec fn spec_export_issues(
        &self,
        monitor_present: bool,
        monitor_edid: Option<EdidDataView>,
        workspace: Option<&EdidWorkspace>,
        draft: TimingDescriptor,
        panel: Option<crate::validation::TimingWarningView>,
    ) -> Seq<Seq<char>> {
        if !monitor_present {
            seq!["Error: No monitor is selected."@]
        } else if workspace matches Some(w) && w.original() != w.working_bytes() {
            crate::validation::sorted_sizes(
                workspace_issue_items(workspace->0.working_bytes(), panel).to_set(),
            )
        } else {
            match monitor_edid {
                None => seq!["Error: Selected monitor has no readable EDID to patch."@],
                Some(e) => patch_issue_lines(e, no_free_slot(workspace)) + draft_issue_lines(
                    draft,
                    panel,
                    self.draft_sources(draft),
                ),
            }
        }
    }

    /// What the export checks before it writes: with a changed workspace its
    /// issues; otherwise those of patching the monitor's EDID with the draft
    /// timing. An issue that starts with `Error:` blocks the export.
    pub fn export_validation_issues(
        &self,
        monitor_present: bool,
        monitor_edid: Option<&EdidData>,
        workspace: Option<&EdidWorkspace>,
        draft: &TimingDescriptor,
        panel: Option<&TimingWarning>,
    ) -> (r: Vec<String>)
        ensures
            r.deep_view() == self.spec_export_issues(
                monitor_present,
                monitor_edid.deep_view(),
                workspace,
                *draft,
                panel.deep_view(),
            ),
    {
        let mut issues: Vec<String> = Vec::new();
        if !monitor_present {
            crate::install::push_line(&mut issues, line("Error: No monitor is selected."));
            assert(issues.deep_view() =~= seq!["Error: No monitor is selected."@]);
            return issues;
        }
        match workspace {
            Some(w) => if w.has_changes() {
                return workspace_validation_issues(w, panel);
            },
            None => {},
        }
        let edid = match monitor_edid {
            Some(e) => e,
            None => {
                crate::install::push_line(
                    &mut issues,
                    line("Error: Selected monitor has no readable EDID to patch."),
                );
                assert(issues.deep_view() =~= seq!["Error: Selected monitor has no readable EDID to patch."@]);
                return issues;
            },
        };
        let ghost ev = edid.deep_view();
        if !edid.checksum_valid {
            crate::install::push_line(&mut issues, line("Error: Base EDID checksum is invalid."));
        }
        let ghost a = issues.deep_view();
        let mut i: usize = 0;
        while i < edid.cta_blocks.len()
            invariant
                ev == edid.deep_view(),
                i <= edid.cta_blocks@.len(),
                ev.cta_blocks.len() == edid.cta_blocks@.len(),
                issues.deep_view() == a + cta_checksum_lines(ev.cta_blocks, i as nat),
            decreases edid.cta_blocks@.len() - i,
        {
            let cta = &edid.cta_blocks[i];
            assert(ev.cta_blocks[i as int] == cta.deep_view());
            if !cta.checksum_valid {
                let mut l = numbered("Error: CTA-861 extension ", cta.extension_index as u64);
                push_str(&mut l, " checksum is invalid.");
                crate::install::push_line(&mut issues, l);
            }
            i = i + 1;
            assert(issues.deep_view() =~= a + cta_checksum_lines(ev.cta_blocks, i as nat));
        }
        let none_free = match workspace {
            Some(w) => match w.slot_summary() {
                Ok(s) => s.base_dtd_free == 0 && s.cta_dtd_free == 0,
                Err(_) => true,
            },
            None => true,
        };
        if none_free {
            crate::install::push_line(
                &mut issues,
                line("Error: No free base or CTA detailed timing slot is visible for draft insertion."),
            );
        }
        crate::install::push_line(
            &mut issues,
            line(
                "Warning: No workspace EDID changes are pending; export will insert the current draft detailed timing.",
            ),
        );
        assert(issues.deep_view() =~= patch_issue_lines(ev, no_free_slot(workspace)));
        let ghost b = issues.deep_view();
        let warnings = checked_warnings(draft);
        let mut k: usize = 0;
        while k < warnings.len()
            invariant
                k <= warnings@.len(),
                warnings.deep_view() == timing_warnings(*draft),
                issues.deep_view() == b + warnings.deep_view().take(k as int).map_values(
                    |w: crate::validation::TimingWarningView|
                        severity_text(w) + ": Draft timing: "@ + w.message,
                ),
            decreases warnings@.len() - k,
        {
            let mut l = String::from_str(warnings[k].label());
            push_str(&mut l, ": Draft timing: ");
            push_str(&mut l, warnings[k].message.as_str());
            crate::install::push_line(&mut issues, l);
            k = k + 1;
            assert(issues.deep_view() =~= b + warnings.deep_view().take(k as int).map_values(
                |w: crate::validation::TimingWarningView|
                    severity_text(w) + ": Draft timing: "@ + w.message,
            ));
        }
        assert(warnings.deep_view().take(k as int) =~= warnings.deep_view());
        match panel {
            Some(w) => {
                let mut l = String::from_str("Warning: Internal panel: ");
                push_str(&mut l, w.message.as_str());
                crate::install::push_line(&mut issues, l);
            },
            None => {},
        }
        match ModeKey::from_timing(draft) {
            Some(key) => {
                let sources = self.sources(key);
                if sources.len() > 1 {
                    let mut l = numbered(
                        "Warning: Draft timing duplicates an existing mode in ",
                        sources.len() as u64,
                    );
                    push_str(&mut l, " source(s): ");
                    crate::text::push_joined_strings(&mut l, &sources, ", ");
                    push_str(&mut l, ".");
                    crate::install::push_line(&mut issues, l);
                }
            },
            None => {},
        }
        assert(issues.deep_view() =~= b + draft_issue_lines(
            *draft,
            panel.deep_view(),
            self.draft_sources(*draft),
        ));
        issues
    }
}


impl ModeCatalog {
    pub open spec fn spec_established_row_text(&self, index: int, selected: Option<usize>) -> Seq<char> {
        let t = self.established@[index];
        marker(selected == Some(index as usize)) + seq![' '] + decimal(t.width as nat) + seq!['x']
            + decimal(t.height as nat) + " @ "@ + decimal(t.refresh_hz as nat) + " Hz"@
            + spec_provenance_suffix(
            sources_for(self.spec_sources(), key_of_hz(t.width, t.height, t.refresh_hz)).len(),
        )
    }

    /// The line of an established timing in its panel.
    pub fn established_row_text(&self, index: usize, selected: Option<usize>) -> (r: String)
        requires
            index < self.established@.len(),
        ensures
            r@ == self.spec_established_row_text(index as int, selected),
    {
        let t = self.established[index];
        let mut r = String::new();
        push_char(&mut r, if selected == Some(index) { '>' } else { ' ' });
        push_char(&mut r, ' ');
        push_decimal(&mut r, t.width as u64);
        push_char(&mut r, 'x');
        push_decimal(&mut r, t.height as u64);
        push_str(&mut r, " @ ");
        push_decimal(&mut r, t.refresh_hz as u64);
        push_str(&mut r, " Hz");
        push_str(
            &mut r,
            self.provenance_suffix(ModeKey::from_hz(t.width, t.height, t.refresh_hz)).as_str(),
        );
        assert(r@ =~= self.spec_established_row_text(index as int, selected));
        r
    }

    pub open spec fn spec_fallback_target_mode(&self) -> Option<Seq<char>> {
        if self.detailed@.len() > 0 {
            Some(self.detailed@[0].timing.spec_hyprland_mode())
        } else if self.standard@.len() > 0 {
            let t = self.standard@[0].timing;
            Some(
                decimal(t.width as nat) + seq!['x'] + decimal(t.height as nat) + seq!['@'] + decimal(
                    t.refresh_hz as nat,
                ),
            )
        } else if self.established@.len() > 0 {
            let t = self.established@[0];
            Some(
                decimal(t.width as nat) + seq!['x'] + decimal(t.height as nat) + seq!['@'] + decimal(
                    t.refresh_hz as nat,
                ),
            )
        } else {
            None
        }
    }

    /// The mode a workspace export writes into its Hyprland rule when no row
    /// is chosen: the first detailed timing's, else the first standard
    /// timing's, else the first established timing's.
    pub fn fallback_target_mode(&self) -> (r: Option<String>)
        ensures
            r.deep_view() == self.spec_fallback_target_mode(),
    {
        if self.detailed.len() > 0 {
            Some(self.detailed[0].timing.hyprland_mode())
        } else if self.standard.len() > 0 {
            let t = self.standard[0].timing;
            Some(size_at_hz(t.width, t.height, t.refresh_hz))
        } else if self.established.len() > 0 {
            let t = self.established[0];
            Some(size_at_hz(t.width, t.height, t.refresh_hz))
        } else {
            None
        }
    }
}

fn size_at_hz(width: u16, height: u16, refresh_hz: u16) -> (r: String)
    ensures
        r@ == decimal(width as nat) + seq!['x'] + decimal(height as nat) + seq!['@'] + decimal(
            refresh_hz as nat,
        ),
{
    let mut r = String::new();
    push_decimal(&mut r, width as u64);
    push_char(&mut r, 'x');
    push_decimal(&mut r, height as u64);
    push_char(&mut r, '@');
    push_decimal(&mut r, refresh_hz as u64);
    r
}

/// The row selected after deleting row `index` when `remaining` rows are
/// left: the same position, or the last row, or none.
pub fn selection_after_delete(index: usize, remaining: usize) -> (r: Option<usize>)
    ensures
        r == (if remaining > 0 {
            Some(
                if index < remaining {
                    index
                } else {
                    (remaining - 1) as usize
                },
            )
        } else {
            None
        }),
{
    if remaining > 0 {
        Some(
            if index < remaining {
                index
            } else {
                remaining - 1
            },
        )
    } else {
        None
    }
}

/// The status after a detailed timing was written at `location`.
pub open spec fn spec_applied_detailed_status(t: TimingDescriptor, location: DtdLocation, warnings: nat) -> Seq<
    char,
> {
    "Applied "@ + t.spec_hyprland_mode() + " at "@ + spec_format_location(location)
        + ". Export writes the workspace EDID."@ + if warnings > 0 {
        seq![' '] + decimal(warnings) + " timing warning(s)."@
    } else {
        Seq::empty()
    }
}

pub fn applied_detailed_status(t: &TimingDescriptor, location: DtdLocation, warnings: usize) -> (r: String)
    ensures
        r@ == spec_applied_detailed_status(*t, location, warnings as nat),
{
    let mut r = String::from_str("Applied ");
    push_str(&mut r, t.hyprland_mode().as_str());
    push_str(&mut r, " at ");
    push_str(&mut r, format_location(location).as_str());
    push_str(&mut r, ". Export writes the workspace EDID.");
    if warnings > 0 {
        push_char(&mut r, ' ');
        push_decimal(&mut r, warnings as u64);
        push_str(&mut r, " timing warning(s).");
    }
    assert(r@ =~= spec_applied_detailed_status(*t, location, warnings as nat));
    r
}

/// The status after a standard timing was written in `slot`.
pub open spec fn spec_applied_standard_status(slot: usize, t: StandardTiming) -> Seq<char> {
    "Applied standard timing slot "@ + decimal(slot as nat) + ": "@ + decimal(t.width as nat) + seq!['x']
        + decimal(t.height as nat) + " @ "@ + decimal(t.refresh_hz as nat) + " Hz."@
}

pub fn applied_standard_status(slot: usize, t: &StandardTiming) -> (r: String)
    ensures
        r@ == spec_applied_standard_status(slot, *t),
{
    let mut r = numbered("Applied standard timing slot ", slot as u64);
    push_str(&mut r, ": ");
    push_decimal(&mut r, t.width as u64);
    push_char(&mut r, 'x');
    push_decimal(&mut r, t.height as u64);
    push_str(&mut r, " @ ");
    push_decimal(&mut r, t.refresh_hz as u64);
    push_str(&mut r, " Hz.");
    assert(r@ =~= spec_applied_standard_status(slot, *t));
    r
}


/// A source list names each place once.
pub proof fn lemma_sources_distinct(all: Seq<(ModeKey, Seq<char>)>, key: ModeKey)
    ensures
        sources_for(all, key).no_duplicates(),
    decreases all.len(),
{
    if all.len() > 0 {
        lemma_sources_distinct(all.drop_last(), key);
    }
}

/// Every place where `key` appears is among its sources, and every source is
/// such a place.
pub proof fn lemma_sources_complete(all: Seq<(ModeKey, Seq<char>)>, key: ModeKey, label: Seq<char>)
    ensures
        sources_for(all, key).contains(label) <==> exists|i: int|
            0 <= i < all.len() && #[trigger] all[i] == (key, label),
    decreases all.len(),
{
    if all.len() > 0 {
        let rest = all.drop_last();
        let u = sources_for(rest, key);
        let last = all[all.len() - 1];
        lemma_sources_complete(rest, key, label);
        if u.contains(label) {
            let j = choose|j: int| 0 <= j < u.len() && u[j] == label;
            if last.0 == key && !u.contains(last.1) {
                assert(u.push(last.1)[j] == label);
            }
            let i = choose|i: int| 0 <= i < rest.len() && #[trigger] rest[i] == (key, label);
            assert(all[i] == (key, label));
        } else if last.0 == key && last.1 == label {
            assert(u.push(last.1)[u.len() as int] == label);
            assert(all[all.len() - 1] == (key, label));
        } else {
            if sources_for(all, key).contains(label) {
                let j = choose|j: int| 0 <= j < sources_for(all, key).len() && sources_for(all, key)[j] == label;
                if last.0 == key && !u.contains(last.1) {
                    if j < u.len() {
                        assert(u[j] == label);
                    }
                }
            }
            if exists|i: int| 0 <= i < all.len() && #[trigger] all[i] == (key, label) {
                let i = choose|i: int| 0 <= i < all.len() && #[trigger] all[i] == (key, label);
                if i < all.len() - 1 {
                    assert(rest[i] == (key, label));
                }
            }
        }
    }
}

/// After scrolling, the selected row is on screen and the list does not
/// scroll past its last row.
pub proof fn lemma_selected_row_visible(selected: Option<usize>, scroll: usize, len: usize, viewport_height: u16)
    ensures
        ({
            let viewport: int = if viewport_height == 0 {
                1
            } else {
                viewport_height as int
            };
            let r = spec_visible_scroll(selected, scroll, len, viewport_height);
            &&& (len > viewport && !(selected matches Some(s) && s >= len) ==> r + viewport <= len)
            &&& (len <= viewport ==> r == 0)
            &&& (selected matches Some(s) ==> (s < len ==> r <= s < r + viewport))
        }),
{
}


// ---------------------------------------------------------------------------
// Dialog text
// ---------------------------------------------------------------------------

/// The first line shown after scrolling a dialog of `len` lines by `delta`:
/// up to the top, down to the last line at most.
pub open spec fn spec_scrolled(scroll: usize, len: usize, delta: isize) -> usize {
    if delta < 0 {
        if scroll >= -delta {
            (scroll + delta) as usize
        } else {
            0
        }
    } else {
        let last: int = if len > 0 {
            len - 1
        } else {
            0
        };
        if scroll + delta < last {
            (scroll + delta) as usize
        } else {
            last as usize
        }
    }
}

pub fn scrolled(scroll: usize, len: usize, delta: isize) -> (r: usize)
    ensures
        r == spec_scrolled(scroll, len, delta),
{
    let last: usize = if len > 0 {
        len - 1
    } else {
        0
    };
    if delta < 0 {
        let up: usize = (0i128 - delta as i128) as usize;
        if scroll >= up {
            scroll - up
        } else {
            0
        }
    } else {
        let down = delta as usize;
        if scroll < last && down < last - scroll {
            scroll + down
        } else {
            last
        }
    }
}

/// A page of scrolling: ten lines, saturating.
pub fn page_delta(delta: isize) -> (r: isize)
    ensures
        r == (if delta * 10 > isize::MAX {
            isize::MAX as int
        } else if delta * 10 < isize::MIN {
            isize::MIN as int
        } else {
            delta * 10
        }),
{
    if delta > isize::MAX / 10 {
        isize::MAX
    } else if delta < isize::MIN / 10 {
        isize::MIN
    } else {
        delta * 10
    }
}

/// The text of the dialog after an export.
pub open spec fn spec_export_summary(r: crate::export::ExportResult) -> Seq<char> {
    crate::text::joined(
        seq![
            "Wrote: "@ + r.path@,
            "Instructions: "@ + r.instructions_path@,
            "Source: "@ + match r.insert_location {
                Some(l) => spec_format_location(l),
                None => "workspace EDID"@,
            },
            Seq::empty(),
            "Kernel parameter:"@,
            r.plan.spec_drm_kernel_parameter(),
            Seq::empty(),
            "Hyprland monitor rule:"@,
            r.plan.spec_monitor_rule(),
        ],
        "\n"@,
    )
}

pub fn export_summary(r: &crate::export::ExportResult) -> (t: String)
    ensures
        t@ == spec_export_summary(*r),
{
    let mut lines: Vec<String> = Vec::new();
    crate::install::push_line(&mut lines, crate::install::line_of("Wrote: ", r.path.as_str()));
    crate::install::push_line(
        &mut lines,
        crate::install::line_of("Instructions: ", r.instructions_path.as_str()),
    );
    let location = match r.insert_location {
        Some(l) => format_location(l),
        None => line("workspace EDID"),
    };
    crate::install::push_line(&mut lines, crate::install::line_of("Source: ", location.as_str()));
    crate::install::push_line(&mut lines, String::new());
    crate::install::push_line(&mut lines, line("Kernel parameter:"));
    crate::install::push_line(&mut lines, r.plan.drm_kernel_parameter());
    crate::install::push_line(&mut lines, String::new());
    crate::install::push_line(&mut lines, line("Hyprland monitor rule:"));
    crate::install::push_line(&mut lines, r.plan.hyprland_monitor_rule());
    let mut t = String::new();
    crate::text::push_joined_strings(&mut t, &lines, "\n");
    proof {
        let expected = seq![
            "Wrote: "@ + r.path@,
            "Instructions: "@ + r.instructions_path@,
            "Source: "@ + match r.insert_location {
                Some(l) => spec_format_location(l),
                None => "workspace EDID"@,
            },
            Seq::empty(),
            "Kernel parameter:"@,
            r.plan.spec_drm_kernel_parameter(),
            Seq::empty(),
            "Hyprland monitor rule:"@,
            r.plan.spec_monitor_rule(),
        ];
        assert(lines.deep_view() =~= expected);
    }
    t
}

/// The text asking to go on with an export despite warnings: the first
/// eight, then how many more there are.
pub open spec fn spec_export_confirm_text(issues: Seq<Seq<char>>) -> Seq<char> {
    let shown: int = if issues.len() < 8 {
        issues.len() as int
    } else {
        8
    };
    crate::text::joined(
        seq!["Review these warnings before writing the EDID:"@, Seq::empty()] + issues.take(shown).map_values(
            |i: Seq<char>| "- "@ + i,
        ) + if issues.len() > 8 {
            seq!["- ... "@ + decimal((issues.len() - 8) as nat) + " more warning(s) not shown"@]
        } else {
            Seq::empty()
        },
        "\n"@,
    )
}

pub fn export_confirm_text(issues: &Vec<String>) -> (r: String)
    ensures
        r@ == spec_export_confirm_text(issues.deep_view()),
{
    let n = issues.len();
    let shown: usize = if n < 8 {
        n
    } else {
        8
    };
    let mut lines: Vec<String> = Vec::new();
    crate::install::push_line(&mut lines, line("Review these warnings before writing the EDID:"));
    crate::install::push_line(&mut lines, String::new());
    let ghost head = lines.deep_view();
    let mut i: usize = 0;
    while i < shown
        invariant
            n == issues@.len(),
            shown == (if n < 8 { n } else { 8 }),
            i <= shown,
            lines.deep_view() == head + issues.deep_view().take(i as int).map_values(
                |x: Seq<char>| "- "@ + x,
            ),
        decreases shown - i,
    {
        crate::install::push_line(&mut lines, crate::install::line_of("- ", issues[i].as_str()));
        i = i + 1;
        assert(lines.deep_view() =~= head + issues.deep_view().take(i as int).map_values(
            |x: Seq<char>| "- "@ + x,
        ));
    }
    if n > 8 {
        let mut l = numbered("- ... ", (n - 8) as u64);
        push_str(&mut l, " more warning(s) not shown");
        crate::install::push_line(&mut lines, l);
    }
    let mut r = String::new();
    crate::text::push_joined_strings(&mut r, &lines, "\n");
    proof {
        let shown_i: int = if issues.deep_view().len() < 8 {
            issues.deep_view().len() as int
        } else {
            8
        };
        assert(lines.deep_view() =~= seq!["Review these warnings before writing the EDID:"@, Seq::empty()]
            + issues.deep_view().take(shown_i).map_values(|x: Seq<char>| "- "@ + x) + if issues.deep_view().len()
            > 8 {
            seq!["- ... "@ + decimal((issues.deep_view().len() - 8) as nat) + " more warning(s) not shown"@]
        } else {
            Seq::empty()
        });
    }
    r
}


/// What Hyprland reports of a monitor, with its refresh rate already written
/// with three decimals.
pub struct LiveMonitor {
    pub name: String,
    pub description: String,
    pub active_width: Option<u32>,
    pub active_height: Option<u32>,
    pub refresh_text: String,
    pub available_modes: usize,
}

/// The name `{:?}` gives a connector status.
pub open spec fn status_name(s: crate::models::ConnectorStatus) -> Seq<char> {
    match s {
        crate::models::ConnectorStatus::Connected => "Connected"@,
        crate::models::ConnectorStatus::Disconnected => "Disconnected"@,
        crate::models::ConnectorStatus::Unknown => "Unknown"@,
    }
}

/// A number that may be missing, as 0 when it is.
pub open spec fn or_zero(n: Option<u32>) -> nat {
    match n {
        Some(v) => v as nat,
        None => 0,
    }
}

/// The first lines of a monitor's details: connector, path and status,
/// then what Hyprland reports and what its EDID says, when there is either.
pub open spec fn spec_monitor_detail_lines(
    connector: Seq<char>,
    drm_path: Option<Seq<char>>,
    status: crate::models::ConnectorStatus,
    live: Option<&LiveMonitor>,
    edid: Option<EdidDataView>,
) -> Seq<Seq<char>> {
    seq![
        "Connector: "@ + connector,
        "DRM path: "@ + match drm_path {
            Some(p) => p,
            None => "(unknown)"@,
        },
        "Status: "@ + status_name(status),
    ] + match live {
        Some(h) => seq![
            "Hyprland name: "@ + h.name@,
            "Description: "@ + h.description@,
            "Current mode: "@ + decimal(or_zero(h.active_width)) + seq!['x'] + decimal(
                or_zero(h.active_height),
            ) + " @ "@ + h.refresh_text@ + " Hz"@,
            "Available modes reported: "@ + decimal(h.available_modes as nat),
        ],
        None => Seq::empty(),
    } + match edid {
        Some(e) => seq![
            "EDID monitor name: "@ + match e.monitor_name {
                Some(n) => n,
                None => "(none)"@,
            },
            "Manufacturer: "@ + match e.manufacturer_id {
                Some(m) => m,
                None => "(unknown)"@,
            },
            "Extension blocks: "@ + decimal(e.extension_blocks as nat),
            "CTA blocks: "@ + decimal(e.cta_blocks.len()),
            "DisplayID blocks: "@ + decimal(e.displayid_blocks.len()),
            "Base checksum: "@ + if e.checksum_valid {
                "ok"@
            } else {
                "bad"@
            },
        ],
        None => Seq::empty(),
    }
}

fn value_or(value: &Option<String>, missing: &str) -> (r: String)
    ensures
        r@ == match value.deep_view() {
            Some(v) => v,
            None => missing@,
        },
{
    match value {
        Some(v) => v.clone(),
        None => String::from_str(missing),
    }
}

pub fn monitor_detail_lines(
    connector: &str,
    drm_path: Option<&str>,
    status: crate::models::ConnectorStatus,
    live: Option<&LiveMonitor>,
    edid: Option<&EdidData>,
) -> (r: Vec<String>)
    ensures
        r.deep_view() == spec_monitor_detail_lines(
            connector@,
            match drm_path {
                Some(p) => Some(p@),
                None => None,
            },
            status,
            live,
            edid.deep_view(),
        ),
{
    let mut lines: Vec<String> = Vec::new();
    crate::install::push_line(&mut lines, crate::install::line_of("Connector: ", connector));
    crate::install::push_line(
        &mut lines,
        crate::install::line_of(
            "DRM path: ",
            match drm_path {
                Some(p) => p,
                None => "(unknown)",
            },
        ),
    );
    crate::install::push_line(
        &mut lines,
        crate::install::line_of(
            "Status: ",
            match status {
                crate::models::ConnectorStatus::Connected => "Connected",
                crate::models::ConnectorStatus::Disconnected => "Disconnected",
                crate::models::ConnectorStatus::Unknown => "Unknown",
            },
        ),
    );
    let ghost head = lines.deep_view();
    assert(head =~= seq![
        "Connector: "@ + connector@,
        "DRM path: "@ + match drm_path {
            Some(p) => p@,
            None => "(unknown)"@,
        },
        "Status: "@ + status_name(status),
    ]);
    match live {
        Some(h) => {
            crate::install::push_line(&mut lines, crate::install::line_of("Hyprland name: ", h.name.as_str()));
            crate::install::push_line(&mut lines, crate::install::line_of("Description: ", h.description.as_str()));
            let mut mode = numbered(
                "Current mode: ",
                match h.active_width {
                    Some(w) => w as u64,
                    None => 0,
                },
            );
            push_char(&mut mode, 'x');
            push_decimal(
                &mut mode,
                match h.active_height {
                    Some(v) => v as u64,
                    None => 0,
                },
            );
            push_str(&mut mode, " @ ");
            push_str(&mut mode, h.refresh_text.as_str());
            push_str(&mut mode, " Hz");
            assert(mode@ =~= "Current mode: "@ + decimal(or_zero(h.active_width)) + seq!['x'] + decimal(
                or_zero(h.active_height),
            ) + " @ "@ + h.refresh_text@ + " Hz"@);
            crate::install::push_line(&mut lines, mode);
            crate::install::push_line(&mut lines, numbered("Available modes reported: ", h.available_modes as u64));
        },
        None => {},
    }
    let ghost mid = lines.deep_view();
    assert(mid =~= head + match live {
        Some(h) => seq![
            "Hyprland name: "@ + h.name@,
            "Description: "@ + h.description@,
            "Current mode: "@ + decimal(or_zero(h.active_width)) + seq!['x'] + decimal(
                or_zero(h.active_height),
            ) + " @ "@ + h.refresh_text@ + " Hz"@,
            "Available modes reported: "@ + decimal(h.available_modes as nat),
        ],
        None => Seq::empty(),
    });
    match edid {
        Some(e) => {
            crate::install::push_line(
                &mut lines,
                crate::install::line_of("EDID monitor name: ", value_or(&e.monitor_name, "(none)").as_str()),
            );
            crate::install::push_line(
                &mut lines,
                crate::install::line_of("Manufacturer: ", value_or(&e.manufacturer_id, "(unknown)").as_str()),
            );
            crate::install::push_line(&mut lines, numbered("Extension blocks: ", e.extension_blocks as u64));
            crate::install::push_line(&mut lines, numbered("CTA blocks: ", e.cta_blocks.len() as u64));
            crate::install::push_line(&mut lines, numbered("DisplayID blocks: ", e.displayid_blocks.len() as u64));
            crate::install::push_line(
                &mut lines,
                crate::install::line_of("Base checksum: ", checksum_label(e.checksum_valid)),
            );
        },
        None => {},
    }
    let ghost expected = spec_monitor_detail_lines(
        connector@,
        match drm_path {
            Some(p) => Some(p@),
            None => None,
        },
        status,
        live,
        edid.deep_view(),
    );
    assert(lines.deep_view() =~= expected);
    lines
}


/// What checking a mode against Hyprland found: the active mode's label, the
/// exact mode Hyprland offers for the request, whether the active mode is the
/// request, and the rule that would keep it.
pub struct ModeCheck {
    pub active: Option<String>,
    pub available_mode: Option<String>,
    pub active_matches: bool,
    pub monitor_rule: Option<String>,
}

/// The lines about the Hyprland side of a verification: what is active and
/// offered, the rule to keep with what the config holds about it, and the
/// verdict.
pub open spec fn check_lines(check: &ModeCheck, config_lines: Seq<Seq<char>>, unavailable: Seq<char>) -> Seq<
    Seq<char>,
> {
    seq![
        "Hyprland active: "@ + match check.active.deep_view() {
            Some(a) => a,
            None => "unknown"@,
        },
        "Selected mode exposed: "@ + spec_yes_no(check.available_mode is Some),
    ] + match check.available_mode.deep_view() {
        Some(m) => seq!["Exact Hyprland mode: "@ + m],
        None => Seq::empty(),
    } + seq!["Selected mode active: "@ + spec_yes_no(check.active_matches)] + match check.monitor_rule.deep_view() {
        Some(rule) => seq![Seq::empty(), "Persist this exact Hyprland rule for reloads:"@, rule] + config_lines,
        None => Seq::empty(),
    } + seq![
        Seq::empty(),
        if check.active_matches {
            "Result: selected mode is active. If reload changes it, fix the Hyprland rule."@
        } else if check.available_mode is Some {
            "Result: mode is available. Press Switch to use it now, then persist the rule."@
        } else {
            unavailable
        },
    ]
}

/// The verification summary of a mode: what was chosen, the override's
/// state, what Hyprland shows or why it could not be asked, and the warnings
/// met while reading the override.
pub open spec fn spec_verification_lines(
    connector: Seq<char>,
    requested: Seq<char>,
    source: Seq<char>,
    status: Option<&crate::install::InstalledOverrideStatus>,
    comparison: crate::install::FirmwareEdidComparison,
    check: Result<&ModeCheck, Seq<char>>,
    config_lines: Seq<Seq<char>>,
    unavailable: Seq<char>,
) -> Seq<Seq<char>> {
    seq!["Connector: "@ + connector, "Selected:  "@ + requested, "Source:    "@ + source] + match status {
        Some(s) => crate::report::spec_override_status_lines(*s, comparison),
        None => Seq::empty(),
    } + seq![Seq::empty()] + match check {
        Ok(c) => check_lines(c, config_lines, unavailable),
        Err(e) => seq![
            "Hyprland inspection failed: "@ + e,
            Seq::empty(),
            "Result: cannot verify runtime mode state until Hyprland is reachable."@,
        ],
    } + match status {
        Some(s) => if s.read_warnings@.len() > 0 {
            seq![Seq::empty(), "Read warnings"@] + s.read_warnings.deep_view().map_values(
                |w: Seq<char>| "- "@ + w,
            )
        } else {
            Seq::empty()
        },
        None => Seq::empty(),
    }
}

fn push_all(lines: &mut Vec<String>, more: &Vec<String>, prefix: &str)
    ensures
        final(lines).deep_view() == old(lines).deep_view() + more.deep_view().map_values(
            |x: Seq<char>| prefix@ + x,
        ),
{
    let ghost head = lines.deep_view();
    let mut i: usize = 0;
    while i < more.len()
        invariant
            i <= more@.len(),
            lines.deep_view() == head + more.deep_view().take(i as int).map_values(
                |x: Seq<char>| prefix@ + x,
            ),
        decreases more@.len() - i,
    {
        crate::install::push_line(lines, crate::install::line_of(prefix, more[i].as_str()));
        i = i + 1;
        assert(lines.deep_view() =~= head + more.deep_view().take(i as int).map_values(
            |x: Seq<char>| prefix@ + x,
        ));
    }
    assert(more.deep_view().take(i as int) =~= more.deep_view());
}

fn push_check_lines(lines: &mut Vec<String>, check: &ModeCheck, config_lines: &Vec<String>, unavailable: &String)
    ensures
        final(lines).deep_view() == old(lines).deep_view() + check_lines(check, config_lines.deep_view(), unavailable@),
{
    let ghost head = old(lines).deep_view();
    crate::install::push_line(
        lines,
        crate::install::line_of(
            "Hyprland active: ",
            match &check.active {
                Some(a) => a.as_str(),
                None => "unknown",
            },
        ),
    );
    crate::install::push_line(
        lines,
        crate::install::line_of("Selected mode exposed: ", yes_no(check.available_mode.is_some())),
    );
    match &check.available_mode {
        Some(m) => crate::install::push_line(lines, crate::install::line_of("Exact Hyprland mode: ", m.as_str())),
        None => {},
    }
    crate::install::push_line(lines, crate::install::line_of("Selected mode active: ", yes_no(check.active_matches)));
    match &check.monitor_rule {
        Some(rule) => {
            crate::install::push_line(lines, String::new());
            crate::install::push_line(lines, line("Persist this exact Hyprland rule for reloads:"));
            crate::install::push_line(lines, rule.clone());
            push_all(lines, config_lines, "");
            proof {
                reveal_strlit("");
                let cv = config_lines.deep_view();
                assert forall|i: int| 0 <= i < cv.len() implies ""@ + #[trigger] cv[i] == cv[i] by {
                    assert(""@ + cv[i] =~= cv[i]);
                }
            }
            assert(config_lines.deep_view().map_values(|x: Seq<char>| ""@ + x) =~= config_lines.deep_view());
        },
        None => {},
    }
    crate::install::push_line(lines, String::new());
    let verdict = if check.active_matches {
        line("Result: selected mode is active. If reload changes it, fix the Hyprland rule.")
    } else if check.available_mode.is_some() {
        line("Result: mode is available. Press Switch to use it now, then persist the rule.")
    } else {
        unavailable.clone()
    };
    crate::install::push_line(lines, verdict);
    assert(lines.deep_view() =~= head + check_lines(check, config_lines.deep_view(), unavailable@));
}

/// The verification summary of the selected mode, given what checking it
/// against Hyprland found (or why that failed), the lines the config
/// inspection of its rule gives, and the message for an unavailable mode.
pub fn verification_lines(
    connector: &str,
    requested: &str,
    source: &str,
    status: Option<&crate::install::InstalledOverrideStatus>,
    comparison: &crate::install::FirmwareEdidComparison,
    check: Result<&ModeCheck, &str>,
    config_lines: &Vec<String>,
    unavailable: &String,
) -> (r: Vec<String>)
    ensures
        r.deep_view() == spec_verification_lines(
            connector@,
            requested@,
            source@,
            status,
            *comparison,
            match check {
                Ok(c) => Ok(c),
                Err(e) => Err(e@),
            },
            config_lines.deep_view(),
            unavailable@,
        ),
{
    let mut lines: Vec<String> = Vec::new();
    crate::install::push_line(&mut lines, crate::install::line_of("Connector: ", connector));
    crate::install::push_line(&mut lines, crate::install::line_of("Selected:  ", requested));
    crate::install::push_line(&mut lines, crate::install::line_of("Source:    ", source));
    match status {
        Some(s) => crate::report::append_override_status_lines(&mut lines, s, comparison),
        None => {},
    }
    crate::install::push_line(&mut lines, String::new());
    let ghost mid = lines.deep_view();
    match check {
        Ok(c) => push_check_lines(&mut lines, c, config_lines, unavailable),
        Err(e) => {
            crate::install::push_line(&mut lines, crate::install::line_of("Hyprland inspection failed: ", e));
            crate::install::push_line(&mut lines, String::new());
            crate::install::push_line(
                &mut lines,
                line("Result: cannot verify runtime mode state until Hyprland is reachable."),
            );
        },
    }
    let ghost after = lines.deep_view();
    match status {
        Some(s) => if s.read_warnings.len() > 0 {
            crate::install::push_line(&mut lines, String::new());
            crate::install::push_line(&mut lines, line("Read warnings"));
            push_all(&mut lines, &s.read_warnings, "- ");
        },
        None => {},
    }
    let ghost expected = spec_verification_lines(
        connector@,
        requested@,
        source@,
        status,
        *comparison,
        match check {
            Ok(c) => Ok(c),
            Err(e) => Err(e@),
        },
        config_lines.deep_view(),
        unavailable@,
    );
    assert(lines.deep_view() =~= expected);
    lines
}

} // verus!
