//! The five artwork reports: how each metric maps to a status, and the text
//! shown with each report.
use vstd::prelude::*;
use vstd::string::StringExecFns;
use crate::artwork::ArtworkDependentData;
use crate::text::{decimal, decimal_string};

verus! {

#[derive(Debug, Clone, Copy, PartialEq, Eq, Structural)]
pub enum ReportStatus {
    Pass,
    Warn,
    Fail,
    Unknown,
}

#[derive(Debug, Clone, Copy, PartialEq, Eq, Structural)]
pub enum ReportTypes {
    Dpi,
    PartialTransparency,
    Bib,
    AreaUsed,
    ThinLines,
}

/// Status of the DPI report: below 200 fails, below 300 warns.
pub open spec fn spec_dpi_to_status(dpi: Option<u32>) -> ReportStatus {
    match dpi {
        None => ReportStatus::Unknown,
        Some(n) => if n <= 199 {
            ReportStatus::Fail
        } else if n <= 299 {
            ReportStatus::Warn
        } else {
            ReportStatus::Pass
        },
    }
}

/// Status of the partial transparency report: any flagged pixel fails.
pub open spec fn spec_bad_transparency_to_status(bad: Option<u32>) -> ReportStatus {
    match bad {
        None => ReportStatus::Unknown,
        Some(n) => if n == 0 {
            ReportStatus::Pass
        } else {
            ReportStatus::Fail
        },
    }
}

/// Status of the area used report: up to 50 percent fails, up to 90 percent warns.
pub open spec fn spec_area_used_to_status(area_used: Option<u32>) -> ReportStatus {
    match area_used {
        None => ReportStatus::Unknown,
        Some(n) => if n <= 50 {
            ReportStatus::Fail
        } else if n <= 90 {
            ReportStatus::Warn
        } else {
            ReportStatus::Pass
        },
    }
}

/// Status of the bib report: below 50 passes, below 75 warns.
pub open spec fn spec_opaque_to_status(opaque_area: Option<u32>) -> ReportStatus {
    match opaque_area {
        None => ReportStatus::Unknown,
        Some(n) => if n <= 49 {
            ReportStatus::Pass
        } else if n <= 74 {
            ReportStatus::Warn
        } else {
            ReportStatus::Fail
        },
    }
}

/// Status of the thin line report: any thin line fails.
pub open spec fn spec_thin_line_to_status(thin: Option<u32>) -> ReportStatus {
    match thin {
        None => ReportStatus::Unknown,
        Some(n) => if n == 0 {
            ReportStatus::Pass
        } else {
            ReportStatus::Fail
        },
    }
}

/// The status a report of type `report_type` gives a metric.
pub open spec fn spec_metric_to_status(report_type: ReportTypes, metric: Option<u32>) -> ReportStatus {
    match report_type {
        ReportTypes::Dpi => spec_dpi_to_status(metric),
        ReportTypes::AreaUsed => spec_area_used_to_status(metric),
        ReportTypes::PartialTransparency => spec_bad_transparency_to_status(metric),
        ReportTypes::Bib => spec_opaque_to_status(metric),
        ReportTypes::ThinLines => spec_thin_line_to_status(metric),
    }
}

pub fn dpi_to_status(dpi: Option<u32>) -> (s: ReportStatus)
    ensures
        s == spec_dpi_to_status(dpi),
{
    match dpi {
        None => ReportStatus::Unknown,
        Some(n) => if n <= 199 {
            ReportStatus::Fail
        } else if n <= 299 {
            ReportStatus::Warn
        } else {
            ReportStatus::Pass
        },
    }
}

pub fn bad_transparency_to_status(bad_transparency_pixels: Option<u32>) -> (s: ReportStatus)
    ensures
        s == spec_bad_transparency_to_status(bad_transparency_pixels),
{
    match bad_transparency_pixels {
        None => ReportStatus::Unknown,
        Some(n) => if n == 0 {
            ReportStatus::Pass
        } else {
            ReportStatus::Fail
        },
    }
}

pub fn area_used_to_status(area_used: Option<u32>) -> (s: ReportStatus)
    ensures
        s == spec_area_used_to_status(area_used),
{
    match area_used {
        None => ReportStatus::Unknown,
        Some(n) => if n <= 50 {
            ReportStatus::Fail
        } else if n <= 90 {
            ReportStatus::Warn
        } else {
            ReportStatus::Pass
        },
    }
}

pub fn opaque_to_status(opaque_area: Option<u32>) -> (s: ReportStatus)
    ensures
        s == spec_opaque_to_status(opaque_area),
{
    match opaque_area {
        None => ReportStatus::Unknown,
        Some(n) => if n <= 49 {
            ReportStatus::Pass
        } else if n <= 74 {
            ReportStatus::Warn
        } else {
            ReportStatus::Fail
        },
    }
}

pub fn thin_line_to_status(thin_lines: Option<u32>) -> (s: ReportStatus)
    ensures
        s == spec_thin_line_to_status(thin_lines),
{
    match thin_lines {
        None => ReportStatus::Unknown,
        Some(n) => if n == 0 {
            ReportStatus::Pass
        } else {
            ReportStatus::Fail
        },
    }
}

/// The bib score: the share of the printable area that the artwork covers
/// opaquely, from the area used and the artwork's opaque percentage. Unknown
/// until the artwork has been analysed.
pub fn compute_bib_score<I>(
    area_used: u32,
    art_dependent_data: Option<&ArtworkDependentData<I>>,
) -> (score: Option<u32>)
    requires
        art_dependent_data matches Some(d) ==> area_used * d.spec_bib_opaque_percent() <= u32::MAX,
    ensures
        score == match art_dependent_data {
            Some(d) => Some(((area_used * d.spec_bib_opaque_percent()) / 100) as u32),
            None => None::<u32>,
        },
{
    match art_dependent_data {
        Some(d) => {
            let bib_score = area_used * d.bib_opaque_percent() / 100;
            Some(bib_score)
        },
        None => None,
    }
}

/// The percentage of partially transparent pixels, once analysed.
pub fn compute_badtransparency_pixels<I>(
    art_dependent_data: Option<&ArtworkDependentData<I>>,
) -> (m: Option<u32>)
    ensures
        m == match art_dependent_data {
            Some(d) => Some(d.spec_partial_transparency_percent()),
            None => None::<u32>,
        },
{
    match art_dependent_data {
        Some(d) => Some(d.partial_transparency_percent()),
        None => None,
    }
}

/// The thin line percentage, once analysed.
pub fn compute_thin_line<I>(art_dependent_data: Option<&ArtworkDependentData<I>>) -> (m: Option<
    u32,
>)
    ensures
        m == match art_dependent_data {
            Some(d) => Some(d.spec_thin_line_percent()),
            None => None::<u32>,
        },
{
    match art_dependent_data {
        Some(d) => Some(d.thin_line_percent()),
        None => None,
    }
}

/// The metric of a report of type `report_type` on an artwork whose DPI is
/// `dpi` and whose share of the printable area is `area_used`: the area is
/// known at once, every other metric only once the artwork has been analysed.
pub open spec fn spec_generate_metric<I>(
    report_type: ReportTypes,
    dpi: u32,
    area_used: u32,
    art_dependent_data: Option<&ArtworkDependentData<I>>,
) -> Option<u32> {
    match report_type {
        ReportTypes::AreaUsed => Some(area_used),
        _ => match art_dependent_data {
            None => None,
            Some(d) => Some(
                match report_type {
                    ReportTypes::Dpi => dpi,
                    ReportTypes::Bib => ((area_used * d.spec_bib_opaque_percent()) / 100) as u32,
                    ReportTypes::ThinLines => d.spec_thin_line_percent(),
                    _ => d.spec_partial_transparency_percent(),
                },
            ),
        },
    }
}

/// The metric a report shows, from the artwork's DPI and area used and its
/// analysis data, if there is any yet.
pub fn generate_metric<I>(
    report_type: ReportTypes,
    dpi: u32,
    area_used: u32,
    art_dependent_data: Option<&ArtworkDependentData<I>>,
) -> (m: Option<u32>)
    requires
        report_type == ReportTypes::Bib ==> (art_dependent_data matches Some(d) ==> area_used
            * d.spec_bib_opaque_percent() <= u32::MAX),
    ensures
        m == spec_generate_metric(report_type, dpi, area_used, art_dependent_data),
{
    match report_type {
        ReportTypes::Dpi => match art_dependent_data {
            Some(_) => Some(dpi),
            None => None,
        },
        ReportTypes::AreaUsed => Some(area_used),
        ReportTypes::Bib => compute_bib_score(area_used, art_dependent_data),
        ReportTypes::ThinLines => compute_thin_line(art_dependent_data),
        ReportTypes::PartialTransparency => compute_badtransparency_pixels(art_dependent_data),
    }
}

/// A report's status is unknown exactly while its metric waits for the
/// artwork's analysis: never for the area used, and for every other report
/// exactly when there is no analysis data.
pub proof fn lemma_status_unknown_until_analysed<I>(
    report_type: ReportTypes,
    dpi: u32,
    area_used: u32,
    art_dependent_data: Option<&ArtworkDependentData<I>>,
)
    ensures
        (spec_metric_to_status(
            report_type,
            spec_generate_metric(report_type, dpi, area_used, art_dependent_data),
        ) == ReportStatus::Unknown) <==> (report_type != ReportTypes::AreaUsed
            && art_dependent_data is None),
{
}

/// The label of a report.
pub open spec fn report_label(t: ReportTypes) -> Seq<char> {
    match t {
        ReportTypes::Dpi => "DPI"@,
        ReportTypes::AreaUsed => "Area Used"@,
        ReportTypes::PartialTransparency => "Partial\nTransparency"@,
        ReportTypes::Bib => "Bib Score"@,
        ReportTypes::ThinLines => "Thin Lines"@,
    }
}

/// The explanation shown when hovering over a report.
pub open spec fn report_tip(t: ReportTypes) -> Seq<char> {
    match t {
        ReportTypes::Dpi => "Ideally, artwork for T-Shirts should be Print Quality - 300 DPI or more. Medium Quality (200 to 299 DPI) is probably okay. Below 200 DPI pixalation may be noticable."@,
        ReportTypes::AreaUsed => "Artwork is usually printed on an 11 inch by 14 inch area of the T-Shirt.  The report shows how much of that printable area the art is currently filling.  There's no rule that says art has to use all of the available area, but it's nice to know how much available area there is."@,
        ReportTypes::PartialTransparency => "The processed used to print T-Shirt artwork doesn't support partial transparency.  Either the artwork is being printed (100% transparecy) or the T-Shirt is showing through (0% transparency) - there's nothing in between.  For best results, fix partial transparency problems in your art package of choice."@,
        ReportTypes::Bib => "T-Shirt artwork shouldn't cover all the printable area.  The more area the artwork covers, the more the T-Shirt will feel like a pastic bib you'd put on a baby for meal time.  For best results the artwork have transparent areas where the T-Shirt will show through, and work with the T-Shirt color."@,
        ReportTypes::ThinLines => "The T-Shirt shouldn't have thin lines or small splotches of non-opaque artwork.  The concern is that the art won't survive the laundry"@,
    }
}

/// The explanation shown when hovering over a report's tool button.
pub open spec fn report_tool_tip(t: ReportTypes) -> Seq<char> {
    match t {
        ReportTypes::Dpi => "Show close ups of areas where artwork might look pixelly.\nTurn off the tool or move the T-Shirt to exit."@,
        ReportTypes::AreaUsed => "Show the maximum boundary of the printable area on the T-Shirt."@,
        ReportTypes::PartialTransparency => "Show areas of the artwork where there's partial transparency of some kind."@,
        ReportTypes::Bib => "TODO: have tool do something."@,
        ReportTypes::ThinLines => "Shows problem areas in the artwork."@,
    }
}

/// Whether a report's metric is a percentage.
pub open spec fn report_shows_percent(t: ReportTypes) -> bool {
    t != ReportTypes::Dpi
}

/// The texts of one report and the rule that turns its metric into a status.
pub struct ReportTemplate {
    pub label: String,
    pub report_tip: String,
    pub tool_tip: String,
    pub display_percent: bool,
    pub report_type: ReportTypes,
}

impl ReportTemplate {
    /// This is the template of a report of type `t`.
    pub open spec fn describes(&self, t: ReportTypes) -> bool {
        &&& self.label@ == report_label(t)
        &&& self.report_tip@ == report_tip(t)
        &&& self.tool_tip@ == report_tool_tip(t)
        &&& self.display_percent == report_shows_percent(t)
        &&& self.report_type == t
    }

    /// The text shown after the metric: a percent sign for percentages,
    /// nothing otherwise.
    pub fn postfix_string(&self) -> (s: String)
        ensures
            s@ == (if self.display_percent {
                seq!['%']
            } else {
                Seq::<char>::empty()
            }),
    {
        proof {
            reveal_strlit("%");
            reveal_strlit("");
        }
        if self.display_percent {
            String::from_str("%")
        } else {
            String::from_str("")
        }
    }

    /// The status of the report for a metric (unknown while the metric is).
    pub fn status(&self, metric: Option<u32>) -> (s: ReportStatus)
        ensures
            s == spec_metric_to_status(self.report_type, metric),
    {
        match self.report_type {
            ReportTypes::Dpi => dpi_to_status(metric),
            ReportTypes::AreaUsed => area_used_to_status(metric),
            ReportTypes::PartialTransparency => bad_transparency_to_status(metric),
            ReportTypes::Bib => opaque_to_status(metric),
            ReportTypes::ThinLines => thin_line_to_status(metric),
        }
    }

    /// The metric as text: its decimal value, or "???" while unknown.
    pub fn metric_text(&self, metric: Option<u32>) -> (s: String)
        ensures
            s@ == match metric {
                Some(n) => decimal(n as nat),
                None => seq!['?', '?', '?'],
            },
    {
        proof {
            reveal_strlit("???");
        }
        match metric {
            Some(n) => decimal_string(n),
            None => String::from_str("???"),
        }
    }
}

fn make_template(t: ReportTypes) -> (r: ReportTemplate)
    ensures
        r.describes(t),
{
    match t {
        ReportTypes::Dpi => ReportTemplate {
            label: String::from_str("DPI"),
            report_tip: String::from_str("Ideally, artwork for T-Shirts should be Print Quality - 300 DPI or more. Medium Quality (200 to 299 DPI) is probably okay. Below 200 DPI pixalation may be noticable."),
            tool_tip: String::from_str("Show close ups of areas where artwork might look pixelly.\nTurn off the tool or move the T-Shirt to exit."),
            display_percent: false,
            report_type: ReportTypes::Dpi,
        },
        ReportTypes::AreaUsed => ReportTemplate {
            label: String::from_str("Area Used"),
            report_tip: String::from_str("Artwork is usually printed on an 11 inch by 14 inch area of the T-Shirt.  The report shows how much of that printable area the art is currently filling.  There's no rule that says art has to use all of the available area, but it's nice to know how much available area there is."),
            tool_tip: String::from_str("Show the maximum boundary of the printable area on the T-Shirt."),
            display_percent: true,
            report_type: ReportTypes::AreaUsed,
        },
        ReportTypes::PartialTransparency => ReportTemplate {
            label: String::from_str("Partial\nTransparency"),
            report_tip: String::from_str("The processed used to print T-Shirt artwork doesn't support partial transparency.  Either the artwork is being printed (100% transparecy) or the T-Shirt is showing through (0% transparency) - there's nothing in between.  For best results, fix partial transparency problems in your art package of choice."),
            tool_tip: String::from_str("Show areas of the artwork where there's partial transparency of some kind."),
            display_percent: true,
            report_type: ReportTypes::PartialTransparency,
        },
        ReportTypes::Bib => ReportTemplate {
            label: String::from_str("Bib Score"),
            report_tip: String::from_str("T-Shirt artwork shouldn't cover all the printable area.  The more area the artwork covers, the more the T-Shirt will feel like a pastic bib you'd put on a baby for meal time.  For best results the artwork have transparent areas where the T-Shirt will show through, and work with the T-Shirt color."),
            tool_tip: String::from_str("TODO: have tool do something."),
            display_percent: true,
            report_type: ReportTypes::Bib,
        },
        ReportTypes::ThinLines => ReportTemplate {
            label: String::from_str("Thin Lines"),
            report_tip: String::from_str("The T-Shirt shouldn't have thin lines or small splotches of non-opaque artwork.  The concern is that the art won't survive the laundry"),
            tool_tip: String::from_str("Shows problem areas in the artwork."),
            display_percent: true,
            report_type: ReportTypes::ThinLines,
        },
    }
}

/// The templates of all five reports.
pub struct ReportTemplates {
    area_used_report: ReportTemplate,
    transparency_report: ReportTemplate,
    opaque_report: ReportTemplate,
    dpi_report: ReportTemplate,
    thin_lines_report: ReportTemplate,
}

impl ReportTemplates {
    /// The template for a report type.
    pub closed spec fn template(&self, t: ReportTypes) -> ReportTemplate {
        match t {
            ReportTypes::Dpi => self.dpi_report,
            ReportTypes::AreaUsed => self.area_used_report,
            ReportTypes::PartialTransparency => self.transparency_report,
            ReportTypes::Bib => self.opaque_report,
            ReportTypes::ThinLines => self.thin_lines_report,
        }
    }

    pub fn new() -> (r: Self)
        ensures
            forall|t: ReportTypes| #[trigger] r.template(t).describes(t),
    {
        let dpi_report = make_template(ReportTypes::Dpi);
        let area_used_report = make_template(ReportTypes::AreaUsed);
        let transparency_report = make_template(ReportTypes::PartialTransparency);
        let opaque_report = make_template(ReportTypes::Bib);
        let thin_lines_report = make_template(ReportTypes::ThinLines);
        Self { area_used_report, dpi_report, opaque_report, transparency_report, thin_lines_report }
    }

    pub fn report_type_to_template(&self, report_type: ReportTypes) -> (t: &ReportTemplate)
        ensures
            *t == self.template(report_type),
    {
        match report_type {
            ReportTypes::Dpi => &self.dpi_report,
            ReportTypes::AreaUsed => &self.area_used_report,
            ReportTypes::PartialTransparency => &self.transparency_report,
            ReportTypes::Bib => &self.opaque_report,
            ReportTypes::ThinLines => &self.thin_lines_report,
        }
    }
}

} // verus!
