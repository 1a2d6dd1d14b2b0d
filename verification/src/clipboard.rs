//! Copying a detailed timing and pasting it into a new one: what is copied,
//! which editor the paste opens, and what the status line says.
use crate::browser::ExtensionRow;
use crate::detailed_editor::EditorMode;
use crate::edid::LocatedDetailedTiming;
use crate::models::{DisplayIdDetailedTiming, TimingDescriptor};
use crate::text::{decimal, push_decimal, push_str};
use vstd::prelude::*;

verus! {

/// The status after copying `timing`.
pub open spec fn copied_status(timing: TimingDescriptor) -> Seq<char> {
    "Copied "@ + timing.spec_hyprland_mode() + ". Press p or Add to paste it into a new detailed timing."@
}

/// Copies the selected base detailed timing: the timing goes to the clipboard
/// and the draft; or why nothing was copied.
pub fn copy_selected_detailed(rows: &Vec<LocatedDetailedTiming>, selected: Option<usize>) -> (r: Result<
    (TimingDescriptor, String),
    String,
>)
    ensures
        match selected {
            None => r matches Err(m) && m@ == "Select a detailed timing before Copy."@,
            Some(i) => if i >= rows@.len() {
                r matches Err(m) && m@ == "Selected detailed timing no longer exists."@
            } else {
                r matches Ok((t, m)) && t == rows@[i as int].timing && m@ == copied_status(
                    rows@[i as int].timing,
                )
            },
        },
{
    let index = match selected {
        Some(i) => i,
        None => return Err(String::from_str("Select a detailed timing before Copy.")),
    };
    if index >= rows.len() {
        return Err(String::from_str("Selected detailed timing no longer exists."));
    }
    let timing = rows[index].timing;
    let mut m = String::from_str("Copied ");
    push_str(&mut m, timing.hyprland_mode().as_str());
    push_str(&mut m, ". Press p or Add to paste it into a new detailed timing.");
    Ok((timing, m))
}

/// The status after copying a CTA extension's detailed timing.
pub open spec fn copied_cta_status(extension_index: u8, slot: usize, timing: TimingDescriptor) -> Seq<char> {
    "Copied CTA extension "@ + decimal(extension_index as nat) + " slot "@ + decimal(slot as nat) + ": "@
        + timing.spec_hyprland_mode() + "."@
}

/// Copies the selected extension row when it is a filled CTA DTD slot.
pub fn copy_extension_dtd(row: Option<&ExtensionRow>) -> (r: Result<(TimingDescriptor, String), String>)
    ensures
        match row {
            Some(ExtensionRow::Dtd(slot)) => match slot.timing {
                Some(t) => r matches Ok((c, m)) && c == t && m@ == copied_cta_status(
                    slot.extension_index,
                    slot.slot,
                    t,
                ),
                None => r matches Err(m) && m@ == "Selected CTA DTD slot is empty."@,
            },
            _ => r matches Err(m) && m@ == "Select a detailed timing row before Copy."@,
        },
{
    match row {
        Some(ExtensionRow::Dtd(slot)) => match slot.timing {
            Some(t) => {
                let mut m = String::from_str("Copied CTA extension ");
                push_decimal(&mut m, slot.extension_index as u64);
                push_str(&mut m, " slot ");
                push_decimal(&mut m, slot.slot as u64);
                push_str(&mut m, ": ");
                push_str(&mut m, t.hyprland_mode().as_str());
                push_str(&mut m, ".");
                Ok((t, m))
            },
            None => Err(String::from_str("Selected CTA DTD slot is empty.")),
        },
        _ => Err(String::from_str("Select a detailed timing row before Copy.")),
    }
}

/// The status after copying a DisplayID detailed timing.
pub open spec fn copied_displayid_status(d: DisplayIdDetailedTiming) -> Seq<char> {
    "Copied DisplayID extension "@ + decimal(d.extension_index as nat) + " DTD "@ + decimal(
        d.descriptor_index as nat,
    ) + ": "@ + d.timing.spec_hyprland_mode() + "."@
}

/// Copies a DisplayID detailed timing, which is always filled.
pub fn copy_displayid_dtd(d: &DisplayIdDetailedTiming) -> (r: (TimingDescriptor, String))
    ensures
        r.0 == d.timing,
        r.1@ == copied_displayid_status(*d),
{
    let mut m = String::from_str("Copied DisplayID extension ");
    push_decimal(&mut m, d.extension_index as u64);
    push_str(&mut m, " DTD ");
    push_decimal(&mut m, d.descriptor_index as u64);
    push_str(&mut m, ": ");
    push_str(&mut m, d.timing.hyprland_mode().as_str());
    push_str(&mut m, ".");
    (d.timing, m)
}

/// What pasting does: the copied timing becomes the draft, an editor opens on
/// it when one can, and the status says which.
#[derive(Debug, Clone, PartialEq, Eq)]
pub struct Paste {
    pub draft: TimingDescriptor,
    pub editor: Option<EditorMode>,
    pub status: String,
}

/// Pastes the clipboard into a new detailed timing: in the base block, or,
/// when the extension pane has focus, into the free CTA slot given.
pub fn paste_detailed(
    clipboard: Option<TimingDescriptor>,
    extension_focus: bool,
    free_cta_slot: Option<(u8, usize)>,
) -> (r: Result<Paste, String>)
    ensures
        clipboard is None ==> (r matches Err(m) && m@
            == "No copied detailed timing. Select one and press c first."@),
        clipboard matches Some(t) ==> (r matches Ok(p) && p.draft == t && if !extension_focus {
            p.editor == Some(EditorMode::Add) && p.status@
                == "Pasting copied detailed timing into a new editable slot."@
        } else {
            match free_cta_slot {
                Some((e, s)) => p.editor == Some(EditorMode::AddCta { extension_index: e, slot: Some(s) })
                    && p.status@ == "Pasting copied detailed timing into the selected CTA slot."@,
                None => p.editor is None && p.status@ == "No free CTA extension DTD slot is available."@,
            }
        }),
{
    let timing = match clipboard {
        Some(t) => t,
        None => return Err(String::from_str("No copied detailed timing. Select one and press c first.")),
    };
    if !extension_focus {
        return Ok(
            Paste {
                draft: timing,
                editor: Some(EditorMode::Add),
                status: String::from_str("Pasting copied detailed timing into a new editable slot."),
            },
        );
    }
    match free_cta_slot {
        Some((e, s)) => Ok(
            Paste {
                draft: timing,
                editor: Some(EditorMode::AddCta { extension_index: e, slot: Some(s) }),
                status: String::from_str("Pasting copied detailed timing into the selected CTA slot."),
            },
        ),
        None => Ok(
            Paste {
                draft: timing,
                editor: None,
                status: String::from_str("No free CTA extension DTD slot is available."),
            },
        ),
    }
}

} // verus!
