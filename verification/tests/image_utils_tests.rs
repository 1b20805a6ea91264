use tshirt_checker::image_utils::{
    blue_to_burg, blue_to_dblue, blue_to_ddgreen, blue_to_dgreen, blue_to_red,
    compute_bad_tpixels, compute_percent_opaque, correct_alpha_for_tshirt, flag_alpha_for_shirt,
    hot_spots_from_heat_map, HotSpot,
};
use tshirt_checker::loaded_image::{heat_map_from_image, heat_map_has_detail};
use tshirt_checker::{PixelImage, Rgba};

#[test]
fn recolours_shirt_pixels() {
    let c = Rgba::new(40, 44, 48, 200);
    assert_eq!(Rgba::new(46, 47, 40, 200), blue_to_red(&c));
    assert_eq!(Rgba::new(36, 31, 30, 200), blue_to_dgreen(&c));
    assert_eq!(Rgba::new(28, 27, 27, 200), blue_to_ddgreen(&c));
    assert_eq!(Rgba::new(33, 33, 33, 200), blue_to_dblue(&c));
    assert_eq!(Rgba::new(35, 36, 30, 200), blue_to_burg(&c));
    assert_eq!(Rgba::new(196, 199, 50, 255), blue_to_red(&Rgba::new(200, 100, 50, 255)));
}

#[test]
fn corrects_alpha_to_zero_or_full() {
    assert_eq!(Rgba::new(1, 2, 3, 0), correct_alpha_for_tshirt(&Rgba::new(1, 2, 3, 0)));
    assert_eq!(Rgba::new(1, 2, 3, 255), correct_alpha_for_tshirt(&Rgba::new(1, 2, 3, 1)));
    assert_eq!(Rgba::new(1, 2, 3, 255), correct_alpha_for_tshirt(&Rgba::new(1, 2, 3, 255)));
}

#[test]
fn flags_partially_transparent_pixels_by_inverting_them() {
    assert_eq!(Rgba::new(254, 253, 252, 255), flag_alpha_for_shirt(&Rgba::new(1, 2, 3, 128)));
    assert_eq!(Rgba::new(1, 2, 3, 0), flag_alpha_for_shirt(&Rgba::new(1, 2, 3, 0)));
    assert_eq!(Rgba::new(1, 2, 3, 255), flag_alpha_for_shirt(&Rgba::new(1, 2, 3, 255)));
}

#[test]
fn counts_percentages_rounding_up() {
    let img = [Rgba::new(0, 0, 0, 0), Rgba::new(0, 0, 0, 128), Rgba::new(0, 0, 0, 255)];
    assert_eq!(34, compute_bad_tpixels(&img));
    assert_eq!(67, compute_percent_opaque(&img));
    let clear = [Rgba::new(9, 9, 9, 0); 7];
    assert_eq!(0, compute_bad_tpixels(&clear));
    assert_eq!(0, compute_percent_opaque(&clear));
    let solid = [Rgba::new(9, 9, 9, 255); 7];
    assert_eq!(0, compute_bad_tpixels(&solid));
    assert_eq!(100, compute_percent_opaque(&solid));
}

#[test]
fn corrected_artwork_has_no_partial_transparency() {
    let img: Vec<Rgba> = (0..=255u8).map(|a| Rgba::new(a, 255 - a, 7, a)).collect();
    assert_eq!(100, compute_bad_tpixels(&img));
    let fixed: Vec<Rgba> = img.iter().map(correct_alpha_for_tshirt).collect();
    assert_eq!(0, compute_bad_tpixels(&fixed));
}

#[test]
fn maps_pixels_of_an_image() {
    let img = PixelImage::new([2, 1], vec![Rgba::new(1, 2, 3, 100), Rgba::new(4, 5, 6, 0)]);
    let fixed = img.map_pixels(|p: &Rgba| correct_alpha_for_tshirt(p));
    assert_eq!([2, 1], fixed.size);
    assert_eq!(vec![Rgba::new(1, 2, 3, 255), Rgba::new(4, 5, 6, 0)], fixed.pixels);
}

#[test]
fn builds_heat_maps_of_edges() {
    let tiny = PixelImage::new([2, 1], vec![Rgba::new(0, 0, 0, 255), Rgba::new(10, 0, 0, 255)]);
    assert!(heat_map_has_detail(&tiny));
    let heat = heat_map_from_image(&tiny);
    assert_eq!([1, 1], heat.size);
    assert_eq!(vec![Rgba::new(255, 255, 255, 255)], heat.pixels);

    let pixels: Vec<Rgba> = (0..130 * 70u32)
        .map(|i| Rgba::new(((i * 37) % 256) as u8, ((i * 91) % 256) as u8, ((i * 13) % 256) as u8, 255))
        .collect();
    let img = PixelImage::new([130, 70], pixels);
    let heat = heat_map_from_image(&img);
    assert_eq!([3, 2], heat.size);
    let levels: Vec<u8> = heat.pixels.iter().map(|p| p.r).collect();
    assert_eq!(vec![254, 255, 7, 24, 24, 0], levels);

    // A single bright pixel counts toward the cell of the position after it.
    let mut pixels = vec![Rgba::new(0, 0, 0, 255); 65 * 3];
    pixels[100] = Rgba::new(200, 0, 0, 255);
    let heat = heat_map_from_image(&PixelImage::new([65, 3], pixels));
    assert_eq!([2, 1], heat.size);
    assert_eq!(vec![Rgba::new(255, 255, 255, 255), Rgba::new(0, 0, 0, 255)], heat.pixels);
}

#[test]
fn flat_images_have_no_detail() {
    let flat = PixelImage::new([3, 2], vec![Rgba::new(5, 6, 7, 255); 6]);
    assert!(!heat_map_has_detail(&flat));
}

fn grey_map(levels: &[u8], w: usize, h: usize) -> PixelImage {
    PixelImage::new([w, h], levels.iter().map(|&v| Rgba::new(v, v, v, 255)).collect())
}

#[test]
fn picks_the_strongest_spread_out_hot_spots() {
    let levels: Vec<u8> = (0..25u32).map(|i| ((i * 37) % 11) as u8).collect();
    let spots = hot_spots_from_heat_map(&grey_map(&levels, 5, 5));
    let expected = vec![
        HotSpot { strength: 10, x: 3, y: 1 },
        HotSpot { strength: 10, x: 4, y: 3 },
        HotSpot { strength: 9, x: 0, y: 1 },
        HotSpot { strength: 9, x: 1, y: 3 },
    ];
    assert_eq!(expected, spots);

    let levels = [9, 9, 9, 9, 1, 2, 3, 4, 9, 0, 0, 9];
    let spots = hot_spots_from_heat_map(&grey_map(&levels, 4, 3));
    let positions: Vec<(usize, usize)> = spots.iter().map(|s| (s.x, s.y)).collect();
    assert_eq!(vec![(0, 0), (1, 0), (2, 0), (3, 0)], positions);
}

#[test]
fn skips_hot_spots_too_close_to_stronger_ones() {
    // On a 2x1 map the two cells are half the width apart: both are chosen.
    let spots = hot_spots_from_heat_map(&grey_map(&[3, 8], 2, 1));
    assert_eq!(vec![HotSpot { strength: 8, x: 1, y: 0 }, HotSpot { strength: 3, x: 0, y: 0 }], spots);
    // On a 9x1 map neighbours are a ninth apart: only every second cell is far enough.
    let spots = hot_spots_from_heat_map(&grey_map(&[5; 9], 9, 1));
    let xs: Vec<usize> = spots.iter().map(|s| s.x).collect();
    assert_eq!(vec![0, 2, 4, 6], xs);
    // An empty map has no hot spots.
    assert!(hot_spots_from_heat_map(&grey_map(&[], 0, 0)).is_empty());
}

#[test]
fn cells_exactly_a_fifth_apart_are_too_close() {
    // On a 5x1 map neighbours are exactly a fifth apart: the second is skipped.
    let spots = hot_spots_from_heat_map(&grey_map(&[9, 8, 0, 0, 0], 5, 1));
    let xs: Vec<usize> = spots.iter().map(|s| s.x).collect();
    assert_eq!(vec![0, 2, 4], xs);
}
