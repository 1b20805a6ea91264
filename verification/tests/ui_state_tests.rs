use tshirt_checker::app::{
    art_layer_to_display, dpi_hot_spot_slot, should_report_error, time_to_repaint,
    tool_button_shown, ArtLayer,
};
use tshirt_checker::error::{Error, ErrorTypes};
use tshirt_checker::icons::{Icon, IconStorage};
use tshirt_checker::report_templates::{ReportStatus, ReportTypes};
use tshirt_checker::text::decimal_string;
use tshirt_checker::tool_select::ToolSelection;
use tshirt_checker::tshirt_storage::{TShirtColors, TShirtStorage};

#[test]
fn selects_and_deselects_tools() {
    let mut tools = ToolSelection::new(1000);
    assert!(!tools.is_active(ReportTypes::Dpi));
    tools.set(ReportTypes::Dpi, true, 2000);
    assert!(tools.is_active(ReportTypes::Dpi));
    assert!(!tools.is_active(ReportTypes::Bib));
    assert_eq!(1234, tools.time_since_selection(3234));
    assert_eq!(2, tools.get_cycles(3234));
    assert_eq!(267, tools.time_to_next_epoch(3234));
    assert_eq!(3, tools.get_cycles(3234 + 267));
    assert_eq!(501, tools.time_to_next_epoch(2000));
    tools.set(ReportTypes::Dpi, false, 5000);
    assert!(!tools.is_active(ReportTypes::Dpi));
    tools.set(ReportTypes::Bib, true, 5000);
    tools.reset();
    assert!(!tools.is_active(ReportTypes::Bib));
}

#[test]
fn animates_the_loading_icon() {
    let frames = ["f0", "f1", "f2", "f3", "f4", "f5", "f6", "f7", "f8", "f9", "f10", "f11"];
    let mut icons = IconStorage::new("pass", "warn", "fail", frames, "tool", "import", "fix", 0);
    assert_eq!("tool", *icons.get_loaded_image(Icon::Tool));
    assert_eq!("fix", *icons.get_loaded_image(Icon::FixPT));
    assert_eq!("import", *icons.get_loaded_image(Icon::Import));
    assert_eq!("f0", *icons.status_icon(ReportStatus::Unknown));
    assert_eq!("warn", *icons.status_icon(ReportStatus::Warn));
    assert_eq!("fail", *icons.status_icon(ReportStatus::Fail));
    assert_eq!("pass", *icons.status_icon(ReportStatus::Pass));
    icons.advance_cycle(180);
    assert_eq!("f0", *icons.load_animation());
    icons.advance_cycle(181);
    assert_eq!("f1", *icons.load_animation());
    let mut now = 181;
    for _ in 0..11 {
        now += 200;
        icons.advance_cycle(now);
    }
    assert_eq!("f0", *icons.load_animation());
}

#[test]
fn maps_shirt_colours_to_images() {
    let shirts = TShirtStorage::new("blue", "red", "dgreen", "burg", "dblue", "ddgreen");
    assert_eq!("red", *shirts.tshirt_enum_to_image(TShirtColors::Red));
    assert_eq!("burg", *shirts.tshirt_enum_to_image(TShirtColors::DRed));
    assert_eq!("dgreen", *shirts.tshirt_enum_to_image(TShirtColors::Green));
    assert_eq!("ddgreen", *shirts.tshirt_enum_to_image(TShirtColors::DGreen));
    assert_eq!("blue", *shirts.tshirt_enum_to_image(TShirtColors::Blue));
    assert_eq!("dblue", *shirts.tshirt_enum_to_image(TShirtColors::DBlue));
}

#[test]
fn chooses_the_artwork_layer_for_the_active_tool() {
    let mut tools = ToolSelection::new(0);
    assert_eq!(ArtLayer::Artwork, art_layer_to_display(&tools, 0));
    tools.set(ReportTypes::PartialTransparency, true, 0);
    assert_eq!(ArtLayer::PartialTransparencyProblems, art_layer_to_display(&tools, 2));
    assert_eq!(ArtLayer::PartialTransparencyFixed, art_layer_to_display(&tools, 3));
    tools.set(ReportTypes::Dpi, true, 0);
    assert_eq!(ArtLayer::PartialTransparencyFixed, art_layer_to_display(&tools, 0));
    tools.set(ReportTypes::ThinLines, true, 0);
    assert_eq!(ArtLayer::ThinLineProblems, art_layer_to_display(&tools, 0));
    assert_eq!(ArtLayer::Artwork, art_layer_to_display(&tools, 1));
    tools.set(ReportTypes::Bib, true, 0);
    assert_eq!(ArtLayer::BibOpaqueMask, art_layer_to_display(&tools, 1));
    assert_eq!(ArtLayer::Artwork, art_layer_to_display(&tools, 2));
    tools.set(ReportTypes::AreaUsed, true, 0);
    assert_eq!(ArtLayer::Artwork, art_layer_to_display(&tools, 2));
}

#[test]
fn schedules_repaints() {
    assert_eq!(None, time_to_repaint(u32::MAX, false, None));
    assert_eq!(Some(200), time_to_repaint(u32::MAX, true, None));
    assert_eq!(Some(100), time_to_repaint(100, true, None));
    assert_eq!(Some(37), time_to_repaint(5000, true, Some(37)));
    assert_eq!(Some(5000), time_to_repaint(5000, false, Some(6000)));
}

#[test]
fn offers_tools_only_for_problems() {
    assert!(!tool_button_shown(ReportStatus::Pass));
    assert!(!tool_button_shown(ReportStatus::Unknown));
    assert!(tool_button_shown(ReportStatus::Warn));
    assert!(tool_button_shown(ReportStatus::Fail));
}

#[test]
fn steps_through_hot_spots_every_ten_cycles() {
    assert_eq!(0, dpi_hot_spot_slot(9, 4));
    assert_eq!(1, dpi_hot_spot_slot(10, 4));
    assert_eq!(0, dpi_hot_spot_slot(45, 4));
    assert_eq!(0, dpi_hot_spot_slot(1000, 1));
}

#[test]
fn reports_every_error_but_a_cancelled_import() {
    let cancelled = Error::new(ErrorTypes::FileImportAborted, "Image Import cancelled by user");
    assert!(cancelled.id() == ErrorTypes::FileImportAborted);
    assert_eq!("Image Import cancelled by user", cancelled.msg());
    assert!(!should_report_error(&cancelled));
    let failed = Error::new(ErrorTypes::ImageLoadError, "bad png");
    assert!(failed.id() == ErrorTypes::ImageLoadError);
    assert_eq!("bad png", failed.msg());
    assert!(should_report_error(&failed));
}

#[test]
fn writes_numbers_in_decimal() {
    assert_eq!("0", decimal_string(0));
    assert_eq!("7", decimal_string(7));
    assert_eq!("10", decimal_string(10));
    assert_eq!("1024", decimal_string(1024));
    assert_eq!("4294967295", decimal_string(u32::MAX));
}
