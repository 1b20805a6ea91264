use tshirt_checker::error::ErrorTypes;
use tshirt_checker::loaded_image::{decode_image, import_image};
use tshirt_checker::Rgba;

// A 3 x 2 RGBA PNG: red, blue, transparent / (1,2,3), (200,100,50), grey 9.
const TINY_PNG: [u8; 89] = [
    137, 80, 78, 71, 13, 10, 26, 10, 0, 0, 0, 13, 73, 72, 68, 82, 0, 0, 0, 3, 0, 0, 0, 2, 8, 6, 0,
    0, 0, 157, 116, 102, 26, 0, 0, 0, 32, 73, 68, 65, 84, 120, 156, 99, 248, 207, 192, 0, 66, 255,
    185, 68, 228, 24, 24, 24, 153, 152, 255, 159, 72, 49, 250, 207, 201, 201, 249, 31, 0, 113, 28,
    8, 181, 59, 120, 34, 153, 0, 0, 0, 0, 73, 69, 78, 68, 174, 66, 96, 130,
];

fn expected_pixels() -> Vec<Rgba> {
    vec![
        Rgba::new(255, 0, 0, 255),
        Rgba::new(0, 0, 255, 255),
        Rgba::new(0, 0, 0, 0),
        Rgba::new(1, 2, 3, 255),
        Rgba::new(200, 100, 50, 255),
        Rgba::new(9, 9, 9, 255),
    ]
}

#[test]
fn decodes_a_png_into_row_major_pixels() {
    let image = decode_image(&TINY_PNG).expect("a valid png");
    assert_eq!([3, 2], image.size);
    assert_eq!(expected_pixels(), image.pixels);
}

#[test]
fn imports_a_png_like_decoding_does() {
    let image = import_image(&TINY_PNG).expect("a valid png");
    assert_eq!([3, 2], image.size);
    assert_eq!(expected_pixels(), image.pixels);
}

#[test]
fn rejects_bytes_that_are_no_image() {
    let garbage = [1u8, 2, 3, 4, 5];
    let decoded = decode_image(&garbage);
    assert!(decoded.is_err());
    let error = import_image(&garbage).err().expect("an import error");
    assert_eq!(ErrorTypes::ImageLoadError, error.id());
    assert_eq!(decoded.err().unwrap(), error.msg());
    assert!(!error.msg().is_empty());
}
