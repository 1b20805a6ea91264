use tshirt_checker::artwork::analyse_artwork;
use tshirt_checker::error::ErrorTypes;
use tshirt_checker::image_utils::{hot_spots_from_heat_map, HotSpot};
use tshirt_checker::loaded_image::{heat_map_from_image, import_result};
use tshirt_checker::log::{AppLog, StringLog};
use tshirt_checker::{PixelImage, Rgba};

fn sample_artwork() -> PixelImage {
    PixelImage::new(
        [2, 2],
        vec![
            Rgba::new(0, 0, 0, 255),
            Rgba::new(255, 255, 255, 128),
            Rgba::new(10, 10, 10, 0),
            Rgba::new(0, 0, 0, 255),
        ],
    )
}

#[test]
fn analyses_artwork_pixels() {
    let art = sample_artwork();
    let analysis = analyse_artwork(&art);
    assert_eq!(25, analysis.partial_transparency_percent);
    assert_eq!(75, analysis.bib_opaque_percent);
    assert_eq!(
        vec![
            Rgba::new(0, 0, 0, 255),
            Rgba::new(255, 255, 255, 255),
            Rgba::new(10, 10, 10, 0),
            Rgba::new(0, 0, 0, 255),
        ],
        analysis.partial_transparency_fixed.pixels
    );
    assert_eq!(
        vec![
            Rgba::new(0, 0, 0, 255),
            Rgba::new(0, 0, 0, 255),
            Rgba::new(10, 10, 10, 0),
            Rgba::new(0, 0, 0, 255),
        ],
        analysis.partial_transparency_problems.pixels
    );
    assert_eq!([2, 2], analysis.partial_transparency_fixed.size);
    assert_eq!([2, 2], analysis.partial_transparency_problems.size);
    assert_eq!(vec![HotSpot { strength: 255, x: 0, y: 0 }], analysis.dpi_top_hot_spots);
    assert_eq!(hot_spots_from_heat_map(&heat_map_from_image(&art)), analysis.dpi_top_hot_spots);
}

#[test]
fn maps_decoder_results_to_import_results() {
    let image = sample_artwork();
    let kept = import_result(Ok(image.clone())).ok().expect("a decoded image is kept");
    assert_eq!(image.size, kept.size);
    assert_eq!(image.pixels, kept.pixels);
    let error = import_result(Err(String::from("bad header"))).err().expect("an error");
    assert_eq!(ErrorTypes::ImageLoadError, error.id());
    assert_eq!("bad header", error.msg());
}

#[test]
fn string_log_holds_every_message_followed_by_a_space() {
    let mut log = StringLog::default();
    assert_eq!("", log._get_all());
    for m in ["a", "bc", "", "d e"] {
        log.log(String::from(m));
    }
    assert_eq!("a bc  d e ", log._get_all());
    assert_eq!(log._get_all(), log._get_all());
}
