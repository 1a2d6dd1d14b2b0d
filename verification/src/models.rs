//! The data that EDID parsing produces and the rest of the library works on.
use crate::fixed::{fixed_text, push_fixed};
use crate::text::{
    chars_equal, chars_of, decimal, hex2, push_char, push_decimal, push_hex2, push_str, trim,
    trim_chars,
};
use vstd::prelude::*;

verus! {

#[derive(Debug, Clone, Copy, PartialEq, Eq, Structural)]
pub enum ConnectorStatus {
    Connected,
    Disconnected,
    Unknown,
}

/// What a sysfs `status` file says, read as `ConnectorStatus::from_sysfs` reads it.
pub open spec fn spec_connector_status(value: Seq<char>) -> ConnectorStatus {
    if trim(value) == "connected"@ {
        ConnectorStatus::Connected
    } else if trim(value) == "disconnected"@ {
        ConnectorStatus::Disconnected
    } else {
        ConnectorStatus::Unknown
    }
}

impl ConnectorStatus {
    pub fn from_sysfs(value: &str) -> (r: Self)
        ensures
            r == spec_connector_status(value@),
    {
        let chars = chars_of(value);
        let trimmed = trim_chars(&chars);
        if chars_equal(&trimmed, &chars_of("connected")) {
            ConnectorStatus::Connected
        } else if chars_equal(&trimmed, &chars_of("disconnected")) {
            ConnectorStatus::Disconnected
        } else {
            ConnectorStatus::Unknown
        }
    }
}

/// A detailed timing: active, blanking, porch and sync sizes, pixel clock, and polarities.
#[derive(Debug, Clone, Copy, PartialEq, Eq, Structural)]
pub struct TimingDescriptor {
    pub pixel_clock_khz: u32,
    pub h_active: u16,
    pub h_blanking: u16,
    pub h_front_porch: u16,
    pub h_sync_width: u16,
    pub h_back_porch: u16,
    pub v_active: u16,
    pub v_blanking: u16,
    pub v_front_porch: u16,
    pub v_sync_width: u16,
    pub v_back_porch: u16,
    pub h_sync_positive: bool,
    pub v_sync_positive: bool,
    pub interlaced: bool,
}

/// `a + b`, clamped to `u16::MAX`.
pub open spec fn sat_add_u16(a: u16, b: u16) -> u16 {
    if a + b > u16::MAX {
        u16::MAX
    } else {
        (a + b) as u16
    }
}

impl TimingDescriptor {
    pub open spec fn spec_h_total(&self) -> u16 {
        sat_add_u16(self.h_active, self.h_blanking)
    }

    pub open spec fn spec_v_total(&self) -> u16 {
        sat_add_u16(self.v_active, self.v_blanking)
    }

    pub fn h_total(&self) -> (r: u16)
        ensures
            r == self.spec_h_total(),
    {
        self.h_active.saturating_add(self.h_blanking)
    }

    pub fn v_total(&self) -> (r: u16)
        ensures
            r == self.spec_v_total(),
    {
        self.v_active.saturating_add(self.v_blanking)
    }

    /// The refresh rate, `pixel clock / (h_total * v_total)` in Hz, written
    /// with `decimals` decimals; 0 when either total is 0.
    pub open spec fn spec_refresh_text(&self, decimals: nat) -> Seq<char> {
        let h = self.spec_h_total();
        let v = self.spec_v_total();
        if h == 0 || v == 0 {
            fixed_text(0, 1, decimals)
        } else {
            fixed_text((self.pixel_clock_khz * 1000) as nat, (h * v) as nat, decimals)
        }
    }

    /// Appends the refresh rate with `decimals` decimals.
    pub fn push_refresh(&self, s: &mut String, decimals: u32)
        requires
            1 <= decimals <= 3,
        ensures
            final(s)@ == old(s)@ + self.spec_refresh_text(decimals as nat),
    {
        let h = self.h_total() as u64;
        let v = self.v_total() as u64;
        if h == 0 || v == 0 {
            push_fixed(s, 0, 1, decimals);
        } else {
            assert(1 <= h * v <= 65535 * 65535) by (nonlinear_arith)
                requires
                    1 <= h <= 65535,
                    1 <= v <= 65535,
            ;
            push_fixed(s, self.pixel_clock_khz as u64 * 1000, h * v, decimals);
        }
    }

    pub open spec fn spec_hyprland_mode(&self) -> Seq<char> {
        decimal(self.h_active as nat) + seq!['x'] + decimal(self.v_active as nat) + seq!['@']
            + self.spec_refresh_text(2)
    }

    /// The mode as Hyprland writes it: `WIDTHxHEIGHT@REFRESH`, refresh with two decimals.
    pub fn hyprland_mode(&self) -> (r: String)
        ensures
            r@ == self.spec_hyprland_mode(),
    {
        let mut r = String::new();
        push_decimal(&mut r, self.h_active as u64);
        push_char(&mut r, 'x');
        push_decimal(&mut r, self.v_active as u64);
        push_char(&mut r, '@');
        self.push_refresh(&mut r, 2);
        assert(r@ =~= self.spec_hyprland_mode());
        r
    }
}

#[derive(Debug, Clone, Copy, PartialEq, Eq, Structural)]
pub struct EstablishedTiming {
    pub width: u16,
    pub height: u16,
    pub refresh_hz: u16,
}

#[derive(Debug, Clone, Copy, PartialEq, Eq, Structural)]
pub enum StandardTimingAspect {
    SixteenTen,
    FourThree,
    FiveFour,
    SixteenNine,
}

/// The aspect ratio that `width` and `height` match exactly, the first of
/// 16:10, 4:3, 5:4 and 16:9 that does.
pub open spec fn spec_aspect_from_dimensions(width: u16, height: u16) -> Option<
    StandardTimingAspect,
> {
    if width * 10 == height * 16 {
        Some(StandardTimingAspect::SixteenTen)
    } else if width * 3 == height * 4 {
        Some(StandardTimingAspect::FourThree)
    } else if width * 4 == height * 5 {
        Some(StandardTimingAspect::FiveFour)
    } else if width * 9 == height * 16 {
        Some(StandardTimingAspect::SixteenNine)
    } else {
        None
    }
}

impl StandardTimingAspect {
    pub open spec fn spec_label(self) -> Seq<char> {
        match self {
            StandardTimingAspect::SixteenTen => "16:10"@,
            StandardTimingAspect::FourThree => "4:3"@,
            StandardTimingAspect::FiveFour => "5:4"@,
            StandardTimingAspect::SixteenNine => "16:9"@,
        }
    }

    pub fn label(self) -> (r: &'static str)
        ensures
            r@ == self.spec_label(),
    {
        match self {
            StandardTimingAspect::SixteenTen => "16:10",
            StandardTimingAspect::FourThree => "4:3",
            StandardTimingAspect::FiveFour => "5:4",
            StandardTimingAspect::SixteenNine => "16:9",
        }
    }

    pub fn from_dimensions(width: u16, height: u16) -> (r: Option<Self>)
        ensures
            r == spec_aspect_from_dimensions(width, height),
    {
        let w = width as u32;
        let h = height as u32;
        if w * 10 == h * 16 {
            Some(StandardTimingAspect::SixteenTen)
        } else if w * 3 == h * 4 {
            Some(StandardTimingAspect::FourThree)
        } else if w * 4 == h * 5 {
            Some(StandardTimingAspect::FiveFour)
        } else if w * 9 == h * 16 {
            Some(StandardTimingAspect::SixteenNine)
        } else {
            None
        }
    }
}

#[derive(Debug, Clone, Copy, PartialEq, Eq, Structural)]
pub struct StandardTiming {
    pub slot: usize,
    pub width: u16,
    pub height: u16,
    pub refresh_hz: u16,
    pub aspect: StandardTimingAspect,
}

#[derive(Debug, Clone, Copy, PartialEq, Eq, Structural)]
pub struct CtaVideoMode {
    pub vic: u16,
    pub native: bool,
    pub width: u16,
    pub height: u16,
    pub refresh_millihz: u32,
    pub interlaced: bool,
}

impl CtaVideoMode {
    pub open spec fn spec_label(&self) -> Seq<char> {
        "VIC "@ + decimal(self.vic as nat) + "  "@ + decimal(self.width as nat) + seq!['x']
            + decimal(self.height as nat) + (if self.interlaced {
            seq!['i']
        } else {
            seq!['p']
        }) + seq!['@'] + fixed_text(self.refresh_millihz as nat, 1000, 2) + (if self.native {
            " native"@
        } else {
            Seq::empty()
        })
    }

    pub fn label(&self) -> (r: String)
        ensures
            r@ == self.spec_label(),
    {
        let mut r = String::from_str("VIC ");
        push_decimal(&mut r, self.vic as u64);
        push_str(&mut r, "  ");
        push_decimal(&mut r, self.width as u64);
        push_char(&mut r, 'x');
        push_decimal(&mut r, self.height as u64);
        push_char(&mut r, if self.interlaced { 'i' } else { 'p' });
        push_char(&mut r, '@');
        push_fixed(&mut r, self.refresh_millihz as u64, 1000, 2);
        if self.native {
            push_str(&mut r, " native");
        }
        assert(r@ =~= self.spec_label());
        r
    }
}

#[derive(Debug, Clone, Copy, PartialEq, Eq, Structural)]
pub enum CtaVideoDescriptor {
    Known(CtaVideoMode),
    Unknown { vic: u16, native: bool },
}

impl CtaVideoDescriptor {
    pub open spec fn spec_label(&self) -> Seq<char> {
        match self {
            CtaVideoDescriptor::Known(mode) => mode.spec_label(),
            CtaVideoDescriptor::Unknown { vic, native } => "VIC "@ + decimal(*vic as nat)
                + "  [unmapped]"@ + if *native {
                " native"@
            } else {
                Seq::empty()
            },
        }
    }

    pub fn label(&self) -> (r: String)
        ensures
            r@ == self.spec_label(),
    {
        match self {
            CtaVideoDescriptor::Known(mode) => mode.label(),
            CtaVideoDescriptor::Unknown { vic, native } => {
                let mut r = String::from_str("VIC ");
                push_decimal(&mut r, *vic as u64);
                push_str(&mut r, "  [unmapped]");
                if *native {
                    push_str(&mut r, " native");
                }
                assert(r@ =~= self.spec_label());
                r
            },
        }
    }
}

#[derive(Debug, Clone, PartialEq, Eq)]
pub struct CtaDataBlock {
    pub tag_code: u8,
    pub extended_tag: Option<u8>,
    pub payload_len: usize,
    pub video_modes: Vec<CtaVideoDescriptor>,
}

/// A CTA-861 data block header and the video modes it lists.
pub struct CtaDataBlockView {
    pub tag_code: u8,
    pub extended_tag: Option<u8>,
    pub payload_len: usize,
    pub video_modes: Seq<CtaVideoDescriptor>,
}

impl DeepView for CtaDataBlock {
    type V = CtaDataBlockView;

    open spec fn deep_view(&self) -> CtaDataBlockView {
        CtaDataBlockView {
            tag_code: self.tag_code,
            extended_tag: self.extended_tag,
            payload_len: self.payload_len,
            video_modes: self.video_modes@,
        }
    }
}

/// The name of a CTA-861 data block, by tag code and extended tag.
pub open spec fn spec_cta_data_block_label(tag_code: u8, extended_tag: Option<u8>) -> Seq<char> {
    if tag_code == 1 {
        "Audio"@
    } else if tag_code == 2 {
        "Video"@
    } else if tag_code == 3 {
        "Vendor"@
    } else if tag_code == 4 {
        "Speaker"@
    } else if tag_code == 5 {
        "VESA DTC"@
    } else if tag_code == 7 && extended_tag is Some {
        let tag = extended_tag->0;
        if tag == 0 {
            "Video Capability"@
        } else if tag == 1 {
            "Vendor Video"@
        } else if tag == 2 {
            "VESA Display"@
        } else if tag == 3 {
            "VESA Timing"@
        } else if tag == 4 {
            "HDMI Video"@
        } else if tag == 5 {
            "Colorimetry"@
        } else if tag == 6 {
            "HDR Static"@
        } else if tag == 7 {
            "HDR Dynamic"@
        } else if tag == 13 {
            "Video Preference"@
        } else if tag == 14 {
            "YCbCr 4:2:0 Video"@
        } else if tag == 15 {
            "YCbCr 4:2:0 Map"@
        } else {
            "Extended "@ + decimal(tag as nat)
        }
    } else {
        "CTA tag "@ + decimal(tag_code as nat)
    }
}

fn string_from(s: &str) -> (r: String)
    ensures
        r@ == s@,
{
    String::from_str(s)
}

fn labelled_number(prefix: &str, n: u64) -> (r: String)
    ensures
        r@ == prefix@ + decimal(n as nat),
{
    let mut r = String::from_str(prefix);
    push_decimal(&mut r, n);
    r
}

impl CtaDataBlock {
    pub fn label(&self) -> (r: String)
        ensures
            r@ == spec_cta_data_block_label(self.tag_code, self.extended_tag),
    {
        match self.tag_code {
            1 => string_from("Audio"),
            2 => string_from("Video"),
            3 => string_from("Vendor"),
            4 => string_from("Speaker"),
            5 => string_from("VESA DTC"),
            7 if self.extended_tag.is_some() => {
                let tag = self.extended_tag.unwrap();
                match tag {
                    0 => string_from("Video Capability"),
                    1 => string_from("Vendor Video"),
                    2 => string_from("VESA Display"),
                    3 => string_from("VESA Timing"),
                    4 => string_from("HDMI Video"),
                    5 => string_from("Colorimetry"),
                    6 => string_from("HDR Static"),
                    7 => string_from("HDR Dynamic"),
                    13 => string_from("Video Preference"),
                    14 => string_from("YCbCr 4:2:0 Video"),
                    15 => string_from("YCbCr 4:2:0 Map"),
                    _ => labelled_number("Extended ", tag as u64),
                }
            },
            _ => labelled_number("CTA tag ", self.tag_code as u64),
        }
    }
}

#[derive(Debug, Clone, Copy, PartialEq, Eq, Structural)]
pub struct DisplayIdDataBlock {
    pub tag: u8,
    pub revision: u8,
    pub payload_len: usize,
}

/// The name of a DisplayID data block, by tag.
pub open spec fn spec_displayid_data_block_label(tag: u8) -> Seq<char> {
    if tag == 0x03 {
        "Type I timings"@
    } else if tag == 0x04 {
        "Type II timings"@
    } else if tag == 0x05 {
        "Type III timings"@
    } else if tag == 0x12 {
        "Tiled display"@
    } else if tag == 0x20 {
        "Product ID"@
    } else if tag == 0x21 {
        "Display parameters"@
    } else if tag == 0x22 {
        "Color characteristics"@
    } else {
        "DisplayID tag 0x"@ + hex2(tag)
    }
}

impl DisplayIdDataBlock {
    pub fn label(&self) -> (r: String)
        ensures
            r@ == spec_displayid_data_block_label(self.tag),
    {
        match self.tag {
            0x03 => string_from("Type I timings"),
            0x04 => string_from("Type II timings"),
            0x05 => string_from("Type III timings"),
            0x12 => string_from("Tiled display"),
            0x20 => string_from("Product ID"),
            0x21 => string_from("Display parameters"),
            0x22 => string_from("Color characteristics"),
            tag => {
                let mut r = String::from_str("DisplayID tag 0x");
                push_hex2(&mut r, tag);
                r
            },
        }
    }
}

#[derive(Debug, Clone, Copy, PartialEq, Eq, Structural)]
pub struct DisplayIdDetailedTiming {
    pub extension_index: u8,
    pub data_block_index: usize,
    pub descriptor_index: usize,
    pub raw_flags: u8,
    pub preferred: bool,
    pub timing: TimingDescriptor,
}

#[derive(Debug, Clone, PartialEq, Eq)]
pub struct DisplayIdBlock {
    pub extension_index: u8,
    pub version_major: u8,
    pub version_minor: u8,
    pub product_type: u8,
    pub extension_count: u8,
    pub checksum_valid: bool,
    pub data_blocks: Vec<DisplayIdDataBlock>,
    pub detailed_timings: Vec<DisplayIdDetailedTiming>,
}

pub struct DisplayIdBlockView {
    pub extension_index: u8,
    pub version_major: u8,
    pub version_minor: u8,
    pub product_type: u8,
    pub extension_count: u8,
    pub checksum_valid: bool,
    pub data_blocks: Seq<DisplayIdDataBlock>,
    pub detailed_timings: Seq<DisplayIdDetailedTiming>,
}

impl DeepView for DisplayIdBlock {
    type V = DisplayIdBlockView;

    open spec fn deep_view(&self) -> DisplayIdBlockView {
        DisplayIdBlockView {
            extension_index: self.extension_index,
            version_major: self.version_major,
            version_minor: self.version_minor,
            product_type: self.product_type,
            extension_count: self.extension_count,
            checksum_valid: self.checksum_valid,
            data_blocks: self.data_blocks@,
            detailed_timings: self.detailed_timings@,
        }
    }
}

#[derive(Debug, Clone, PartialEq, Eq)]
pub struct Cta861Block {
    pub extension_index: u8,
    pub revision: u8,
    pub dtd_offset: u8,
    pub checksum_valid: bool,
    pub data_blocks: Vec<CtaDataBlock>,
    pub detailed_timings: Vec<TimingDescriptor>,
    pub available_dtd_slots: usize,
}

pub struct Cta861BlockView {
    pub extension_index: u8,
    pub revision: u8,
    pub dtd_offset: u8,
    pub checksum_valid: bool,
    pub data_blocks: Seq<CtaDataBlockView>,
    pub detailed_timings: Seq<TimingDescriptor>,
    pub available_dtd_slots: usize,
}

impl DeepView for Cta861Block {
    type V = Cta861BlockView;

    open spec fn deep_view(&self) -> Cta861BlockView {
        Cta861BlockView {
            extension_index: self.extension_index,
            revision: self.revision,
            dtd_offset: self.dtd_offset,
            checksum_valid: self.checksum_valid,
            data_blocks: self.data_blocks.deep_view(),
            detailed_timings: self.detailed_timings@,
            available_dtd_slots: self.available_dtd_slots,
        }
    }
}

/// A parsed EDID together with the bytes it was parsed from.
#[derive(Debug, Clone, PartialEq, Eq)]
pub struct EdidData {
    pub raw: Vec<u8>,
    pub manufacturer_id: Option<String>,
    pub product_code: Option<u16>,
    pub serial_number: Option<u32>,
    pub monitor_name: Option<String>,
    pub descriptor_text: Vec<String>,
    pub established_timings: Vec<EstablishedTiming>,
    pub standard_timings: Vec<StandardTiming>,
    pub detailed_timings: Vec<TimingDescriptor>,
    pub cta_blocks: Vec<Cta861Block>,
    pub displayid_blocks: Vec<DisplayIdBlock>,
    pub extension_blocks: u8,
    pub checksum_valid: bool,
}

pub struct EdidDataView {
    pub raw: Seq<u8>,
    pub manufacturer_id: Option<Seq<char>>,
    pub product_code: Option<u16>,
    pub serial_number: Option<u32>,
    pub monitor_name: Option<Seq<char>>,
    pub descriptor_text: Seq<Seq<char>>,
    pub established_timings: Seq<EstablishedTiming>,
    pub standard_timings: Seq<StandardTiming>,
    pub detailed_timings: Seq<TimingDescriptor>,
    pub cta_blocks: Seq<Cta861BlockView>,
    pub displayid_blocks: Seq<DisplayIdBlockView>,
    pub extension_blocks: u8,
    pub checksum_valid: bool,
}

impl DeepView for EdidData {
    type V = EdidDataView;

    open spec fn deep_view(&self) -> EdidDataView {
        EdidDataView {
            raw: self.raw@,
            manufacturer_id: self.manufacturer_id.deep_view(),
            product_code: self.product_code,
            serial_number: self.serial_number,
            monitor_name: self.monitor_name.deep_view(),
            descriptor_text: self.descriptor_text.deep_view(),
            established_timings: self.established_timings@,
            standard_timings: self.standard_timings@,
            detailed_timings: self.detailed_timings@,
            cta_blocks: self.cta_blocks.deep_view(),
            displayid_blocks: self.displayid_blocks.deep_view(),
            extension_blocks: self.extension_blocks,
            checksum_valid: self.checksum_valid,
        }
    }
}

/// What an export writes out: the connector, the EDID file and the Hyprland rule.
#[derive(Debug, Clone, PartialEq, Eq)]
pub struct ExportPlan {
    pub connector: String,
    pub edid_file_name: String,
    pub hyprland_mode: String,
    pub hyprland_rule: String,
    pub position: String,
    pub scale: String,
}

impl ExportPlan {
    pub open spec fn spec_drm_kernel_parameter(&self) -> Seq<char> {
        "drm.edid_firmware="@ + self.connector@ + ":edid/"@ + self.edid_file_name@
    }

    pub fn drm_kernel_parameter(&self) -> (r: String)
        ensures
            r@ == self.spec_drm_kernel_parameter(),
    {
        let mut r = String::from_str("drm.edid_firmware=");
        push_str(&mut r, self.connector.as_str());
        push_str(&mut r, ":edid/");
        push_str(&mut r, self.edid_file_name.as_str());
        r
    }

    /// The Hyprland rule for the plan as it stands now:
    /// `monitor=CONNECTOR,MODE,POSITION,SCALE`.
    pub open spec fn spec_monitor_rule(&self) -> Seq<char> {
        "monitor="@ + self.connector@ + ","@ + self.hyprland_mode@ + ","@ + self.position@ + ","@
            + self.scale@
    }

    pub fn hyprland_monitor_rule(&self) -> (r: String)
        ensures
            r@ == self.spec_monitor_rule(),
    {
        let mut r = String::from_str("monitor=");
        push_str(&mut r, self.connector.as_str());
        push_str(&mut r, ",");
        push_str(&mut r, self.hyprland_mode.as_str());
        push_str(&mut r, ",");
        push_str(&mut r, self.position.as_str());
        push_str(&mut r, ",");
        push_str(&mut r, self.scale.as_str());
        r
    }
}

} // verus!
