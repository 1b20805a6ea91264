//! The decisions the app makes while it paints: which version of the artwork
//! to show, when to repaint, which tool button to offer, which hot spot the
//! DPI tool visits, and which import errors to report.
use vstd::prelude::*;
use crate::error::{Error, ErrorTypes};
use crate::icons::ICON_LOAD_ANIMATION_IN_MILLIS;
use crate::report_templates::{ReportStatus, ReportTypes};
use crate::tool_select::ToolSelection;

verus! {

/// The versions of the selected artwork that can be painted on the shirt.
#[derive(Debug, Clone, Copy, PartialEq, Eq, Structural)]
pub enum ArtLayer {
    Artwork,
    PartialTransparencyProblems,
    PartialTransparencyFixed,
    ThinLineProblems,
    BibOpaqueMask,
}

/// The version of the artwork to paint when `selected` is the active tool and
/// the tool's animation is at cycle `cycle`.
pub open spec fn spec_art_layer(selected: Option<ReportTypes>, cycle: u32) -> ArtLayer {
    match selected {
        Some(ReportTypes::PartialTransparency) => if cycle % 2 == 0 {
            ArtLayer::PartialTransparencyProblems
        } else {
            ArtLayer::PartialTransparencyFixed
        },
        Some(ReportTypes::Dpi) => ArtLayer::PartialTransparencyFixed,
        Some(ReportTypes::ThinLines) => if cycle % 2 == 0 {
            ArtLayer::ThinLineProblems
        } else {
            ArtLayer::Artwork
        },
        Some(ReportTypes::Bib) => if (cycle / 2) % 2 == 0 {
            ArtLayer::BibOpaqueMask
        } else {
            ArtLayer::Artwork
        },
        _ => ArtLayer::Artwork,
    }
}

/// The version of the artwork to paint: tools with two views alternate
/// between them cycle by cycle (the bib tool every two cycles).
pub fn art_layer_to_display(tool: &ToolSelection, cycle: u32) -> (layer: ArtLayer)
    ensures
        layer == spec_art_layer(tool.selected(), cycle),
{
    if tool.is_active(ReportTypes::PartialTransparency) {
        if cycle % 2 == 0 {
            ArtLayer::PartialTransparencyProblems
        } else {
            ArtLayer::PartialTransparencyFixed
        }
    } else if tool.is_active(ReportTypes::Dpi) {
        ArtLayer::PartialTransparencyFixed
    } else if tool.is_active(ReportTypes::ThinLines) {
        if cycle % 2 == 0 {
            ArtLayer::ThinLineProblems
        } else {
            ArtLayer::Artwork
        }
    } else if tool.is_active(ReportTypes::Bib) {
        if (cycle / 2) % 2 == 0 {
            ArtLayer::BibOpaqueMask
        } else {
            ArtLayer::Artwork
        }
    } else {
        ArtLayer::Artwork
    }
}

/// A report offers its tool only when it found a problem.
pub fn tool_button_shown(status: ReportStatus) -> (shown: bool)
    ensures
        shown == (status != ReportStatus::Pass && status != ReportStatus::Unknown),
{
    !(status == ReportStatus::Pass || status == ReportStatus::Unknown)
}

/// The delay before the next repaint, if one is needed: the smallest of the
/// notice panel's wait, the animation frame time when all reports are ready,
/// and the active tool's wait for its next cycle.
pub open spec fn spec_time_to_repaint(
    notice_wait: u32,
    all_reports_ready: bool,
    tool_wait: Option<u32>,
) -> Option<u32> {
    let t0 = notice_wait as int;
    let t1 = if all_reports_ready && 200 < t0 {
        200
    } else {
        t0
    };
    let t2 = match tool_wait {
        Some(w) => if w < t1 {
            w as int
        } else {
            t1
        },
        None => t1,
    };
    if t2 == u32::MAX {
        None
    } else {
        Some(t2 as u32)
    }
}

pub fn time_to_repaint(notice_wait: u32, all_reports_ready: bool, tool_wait: Option<u32>) -> (delay:
    Option<u32>)
    ensures
        delay == spec_time_to_repaint(notice_wait, all_reports_ready, tool_wait),
{
    let mut time_to_repaint: u32 = u32::MAX;
    if notice_wait < time_to_repaint {
        time_to_repaint = notice_wait;
    }
    if all_reports_ready && (ICON_LOAD_ANIMATION_IN_MILLIS as u32) < time_to_repaint {
        time_to_repaint = ICON_LOAD_ANIMATION_IN_MILLIS as u32;
    }
    match tool_wait {
        Some(w) => {
            if w < time_to_repaint {
                time_to_repaint = w;
            }
        },
        None => {},
    }
    if time_to_repaint != u32::MAX {
        Some(time_to_repaint)
    } else {
        None
    }
}

/// The hot spot the DPI tool shows: it moves to the next spot every ten cycles.
pub fn dpi_hot_spot_slot(cycles: u32, num_hot_spots: usize) -> (slot: usize)
    requires
        0 < num_hot_spots <= u32::MAX,
    ensures
        slot == ((cycles / 10) as int) % (num_hot_spots as int),
        slot < num_hot_spots,
{
    let cycle: u32 = cycles / 10;
    (cycle % (num_hot_spots as u32)) as usize
}

/// An import error is reported to the user unless the user cancelled the import.
pub fn should_report_error(e: &Error) -> (report: bool)
    ensures
        report == (e.spec_id() != ErrorTypes::FileImportAborted),
{
    e.id() != ErrorTypes::FileImportAborted
}

} // verus!
