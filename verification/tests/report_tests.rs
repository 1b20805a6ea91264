use tshirt_checker::artwork::{ArtEnum, ArtStorage, ArtworkDependentData};
use tshirt_checker::image_utils::HotSpot;
use tshirt_checker::report_templates::{
    area_used_to_status, bad_transparency_to_status, compute_badtransparency_pixels,
    compute_bib_score, compute_thin_line, dpi_to_status, generate_metric, opaque_to_status, thin_line_to_status,
    ReportStatus, ReportTemplates, ReportTypes,
};

#[test]
fn maps_metrics_to_statuses_at_the_thresholds() {
    assert!(dpi_to_status(None) == ReportStatus::Unknown);
    assert!(dpi_to_status(Some(199)) == ReportStatus::Fail);
    assert!(dpi_to_status(Some(200)) == ReportStatus::Warn);
    assert!(dpi_to_status(Some(299)) == ReportStatus::Warn);
    assert!(dpi_to_status(Some(300)) == ReportStatus::Pass);

    assert!(bad_transparency_to_status(None) == ReportStatus::Unknown);
    assert!(bad_transparency_to_status(Some(0)) == ReportStatus::Pass);
    assert!(bad_transparency_to_status(Some(1)) == ReportStatus::Fail);

    assert!(area_used_to_status(Some(50)) == ReportStatus::Fail);
    assert!(area_used_to_status(Some(51)) == ReportStatus::Warn);
    assert!(area_used_to_status(Some(90)) == ReportStatus::Warn);
    assert!(area_used_to_status(Some(91)) == ReportStatus::Pass);
    assert!(area_used_to_status(None) == ReportStatus::Unknown);

    assert!(opaque_to_status(Some(49)) == ReportStatus::Pass);
    assert!(opaque_to_status(Some(50)) == ReportStatus::Warn);
    assert!(opaque_to_status(Some(74)) == ReportStatus::Warn);
    assert!(opaque_to_status(Some(75)) == ReportStatus::Fail);
    assert!(opaque_to_status(None) == ReportStatus::Unknown);

    assert!(thin_line_to_status(Some(0)) == ReportStatus::Pass);
    assert!(thin_line_to_status(Some(3)) == ReportStatus::Fail);
    assert!(thin_line_to_status(None) == ReportStatus::Unknown);
}

fn sample_data() -> ArtworkDependentData<&'static str> {
    ArtworkDependentData::new(
        vec![HotSpot { strength: 200, x: 1, y: 2 }],
        3,
        "problems",
        "fixed",
        60,
        "mask",
        4,
        "thin",
    )
}

#[test]
fn computes_metrics_from_dependent_data() {
    let data = sample_data();
    assert_eq!(Some(45), compute_bib_score(75, Some(&data)));
    assert_eq!(None, compute_bib_score::<&str>(75, None));
    assert_eq!(Some(3), compute_badtransparency_pixels(Some(&data)));
    assert_eq!(None, compute_badtransparency_pixels::<&str>(None));
    assert_eq!(Some(4), compute_thin_line(Some(&data)));
    assert_eq!(None, compute_thin_line::<&str>(None));
}

#[test]
fn templates_describe_each_report() {
    let templates = ReportTemplates::new();
    let dpi = templates.report_type_to_template(ReportTypes::Dpi);
    assert_eq!("DPI", dpi.label);
    assert_eq!("", dpi.postfix_string());
    assert!(dpi.status(Some(250)) == ReportStatus::Warn);
    assert_eq!("250", dpi.metric_text(Some(250)));
    assert_eq!("???", dpi.metric_text(None));

    let area = templates.report_type_to_template(ReportTypes::AreaUsed);
    assert_eq!("Area Used", area.label);
    assert_eq!("%", area.postfix_string());
    assert!(area.status(Some(95)) == ReportStatus::Pass);

    let pt = templates.report_type_to_template(ReportTypes::PartialTransparency);
    assert_eq!("Partial\nTransparency", pt.label);
    assert!(pt.status(Some(0)) == ReportStatus::Pass);
    assert_eq!("0", pt.metric_text(Some(0)));

    let bib = templates.report_type_to_template(ReportTypes::Bib);
    assert_eq!("Bib Score", bib.label);
    assert!(bib.status(Some(80)) == ReportStatus::Fail);
    assert_eq!("4294967295", bib.metric_text(Some(u32::MAX)));

    let thin = templates.report_type_to_template(ReportTypes::ThinLines);
    assert_eq!("Thin Lines", thin.label);
    assert_eq!("Shows problem areas in the artwork.", thin.tool_tip);
    assert!(thin.status(None) == ReportStatus::Unknown);
}

#[test]
fn artwork_slots_keep_what_was_set() {
    let mut storage = ArtStorage::new("a0", "a1", "a2");
    assert_eq!("a1", *storage.get_art(ArtEnum::Artwork1));
    assert!(storage.get_dependent_data(ArtEnum::Artwork0).is_none());
    storage.set_art(ArtEnum::Artwork1, "new", Some(sample_data()));
    assert_eq!("new", *storage.get_art(ArtEnum::Artwork1));
    assert_eq!("a0", *storage.get_art(ArtEnum::Artwork0));
    assert_eq!("a2", *storage.get_art(ArtEnum::Artwork2));
    let data = storage.get_dependent_data(ArtEnum::Artwork1).unwrap();
    assert_eq!(60, data.bib_opaque_percent());
    assert_eq!("mask", *data.bib_opaque_mask());
    assert_eq!("problems", *data.partial_transparency_problems());
    assert_eq!("fixed", *data.partial_transparency_fixed());
    assert_eq!("thin", *data.thin_line_problems());
    assert_eq!(1, data.dpi_top_hot_spots().len());
    assert!(storage.get_dependent_data(ArtEnum::Artwork2).is_none());
}

#[test]
fn generates_each_report_metric_and_waits_for_analysis() {
    let data = sample_data();
    let all = [
        ReportTypes::Dpi,
        ReportTypes::AreaUsed,
        ReportTypes::Bib,
        ReportTypes::ThinLines,
        ReportTypes::PartialTransparency,
    ];
    assert_eq!(Some(250), generate_metric(ReportTypes::Dpi, 250, 75, Some(&data)));
    assert_eq!(Some(75), generate_metric(ReportTypes::AreaUsed, 250, 75, Some(&data)));
    assert_eq!(Some(45), generate_metric(ReportTypes::Bib, 250, 75, Some(&data)));
    assert_eq!(Some(4), generate_metric(ReportTypes::ThinLines, 250, 75, Some(&data)));
    assert_eq!(Some(3), generate_metric(ReportTypes::PartialTransparency, 250, 75, Some(&data)));
    let templates = ReportTemplates::new();
    for t in all {
        let waiting = generate_metric::<&str>(t, 250, 75, None);
        let status = templates.report_type_to_template(t).status(waiting);
        assert_eq!(t == ReportTypes::AreaUsed, status != ReportStatus::Unknown);
        let analysed = generate_metric(t, 250, 75, Some(&data));
        assert!(templates.report_type_to_template(t).status(analysed) != ReportStatus::Unknown);
    }
}
