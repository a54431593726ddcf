use prime_bitmap::bitmap::{create_bitmap_file_header, create_bitmap_info_header, encode_bitmap, padding_size, BitmapError};
use prime_bitmap::pixels::{map_pixels, Color};
use prime_bitmap::render::{bmp_file_name, prime_bitmap, Method, RenderError};
use prime_bitmap::classify::PoolError;

#[test]
fn mapper_substitutes_each_outcome() {
    let p = Color::new(255, 255, 255);
    let c = Color::new(1, 2, 3);
    let out = map_pixels(&vec![true, false], p, c);
    assert_eq!(out, vec![p, c]);
    assert!(map_pixels(&Vec::new(), p, c).is_empty());
}

#[test]
fn padding_per_width() {
    assert_eq!(padding_size(1), 1);
    assert_eq!(padding_size(2), 2);
    assert_eq!(padding_size(3), 3);
    assert_eq!(padding_size(4), 0);
    assert_eq!(padding_size(5), 1);
    assert_eq!(padding_size(u32::MAX), 3);
}

#[test]
fn two_by_one_is_sixty_two_bytes() {
    let px = vec![Color::new(1, 2, 3), Color::new(4, 5, 6)];
    let bytes = encode_bitmap(&px, 2, 1).unwrap();
    assert_eq!(bytes.len(), 62);
    assert_eq!(&bytes[54..62], &[3, 2, 1, 6, 5, 4, 0, 0]);
}

#[test]
fn one_by_one_composite_pixel_is_bgr_then_padding() {
    let px = map_pixels(&vec![false], Color::new(255, 255, 255), Color::new(10, 20, 30));
    let bytes = encode_bitmap(&px, 1, 1).unwrap();
    assert_eq!(bytes.len(), 58);
    assert_eq!(&bytes[54..58], &[30, 20, 10, 0]);
}

#[test]
fn encoding_twice_is_identical() {
    let px: Vec<Color> = (0..15u8).map(|i| Color::new(i, i * 2, i * 3)).collect();
    let a = encode_bitmap(&px, 5, 3).unwrap();
    let b = encode_bitmap(&px, 5, 3).unwrap();
    assert_eq!(a, b);
}

#[test]
fn headers_are_byte_exact() {
    let file = create_bitmap_file_header(1, 2, 2);
    assert_eq!(file, vec![66, 77, 62, 0, 0, 0, 0, 0, 0, 0, 54, 0, 0, 0]);
    let info = create_bitmap_info_header(0x0102, 0x030405);
    let mut expected = vec![40, 0, 0, 0, 5, 4, 3, 0, 2, 1, 0, 0, 1, 0, 24, 0];
    expected.extend(vec![0u8; 24]);
    assert_eq!(info, expected);
}

#[test]
fn rows_are_stored_bottom_up() {
    let px = vec![
        Color::new(1, 1, 1),
        Color::new(2, 2, 2),
        Color::new(3, 3, 3),
        Color::new(4, 4, 4),
    ];
    let bytes = encode_bitmap(&px, 2, 2).unwrap();
    assert_eq!(bytes.len(), 54 + 2 * 8);
    assert_eq!(&bytes[2..6], &[70, 0, 0, 0]);
    assert_eq!(&bytes[18..26], &[2, 0, 0, 0, 2, 0, 0, 0]);
    assert_eq!(&bytes[54..], &[3, 3, 3, 4, 4, 4, 0, 0, 1, 1, 1, 2, 2, 2, 0, 0]);
}

#[test]
fn width_four_needs_no_padding() {
    let px = vec![Color::new(9, 8, 7); 4];
    let bytes = encode_bitmap(&px, 4, 1).unwrap();
    assert_eq!(bytes.len(), 66);
    assert_eq!(&bytes[54..57], &[7, 8, 9]);
}

#[test]
fn zero_dimension_is_refused() {
    assert_eq!(encode_bitmap(&Vec::new(), 0, 3), Err(BitmapError::ZeroDimension));
    assert_eq!(encode_bitmap(&Vec::new(), 3, 0), Err(BitmapError::ZeroDimension));
}

#[test]
fn pixel_count_mismatch_is_refused() {
    let px = vec![Color::new(0, 0, 0); 3];
    assert_eq!(encode_bitmap(&px, 2, 2), Err(BitmapError::PixelCountMismatch));
}

#[test]
fn whole_image_of_primes() {
    let p = Color::new(255, 0, 0);
    let c = Color::new(0, 0, 255);
    let bytes = prime_bitmap(3, 2, p, c, Method::NaiveSequential, 1).unwrap();
    assert_eq!(bytes.len(), 54 + 2 * 12);
    // bottom row holds 4, 5, 6; top row 1, 2, 3
    assert_eq!(&bytes[54..66], &[255, 0, 0, 0, 0, 255, 255, 0, 0, 0, 0, 0]);
    assert_eq!(&bytes[66..78], &[255, 0, 0, 0, 0, 255, 0, 0, 255, 0, 0, 0]);
    for m in [Method::OptimizedSequential, Method::NaiveParallel, Method::OptimizedParallel] {
        assert_eq!(prime_bitmap(3, 2, p, c, m, 4).unwrap(), bytes);
    }
}

#[test]
fn too_many_pixels_is_refused() {
    let p = Color::new(1, 1, 1);
    assert_eq!(
        prime_bitmap(70000, 70000, p, p, Method::NaiveSequential, 1),
        Err(RenderError::TooManyPixels)
    );
}

#[test]
fn parallel_without_workers_is_refused() {
    let p = Color::new(1, 1, 1);
    assert_eq!(
        prime_bitmap(2, 2, p, p, Method::OptimizedParallel, 0),
        Err(RenderError::Pool(PoolError::NoWorkers))
    );
    assert!(prime_bitmap(2, 2, p, p, Method::OptimizedSequential, 0).is_ok());
}

#[test]
fn zero_sized_image_is_refused() {
    let p = Color::new(1, 1, 1);
    assert_eq!(
        prime_bitmap(0, 5, p, p, Method::NaiveSequential, 1),
        Err(RenderError::Bitmap(BitmapError::ZeroDimension))
    );
}

#[test]
fn method_codes() {
    assert_eq!(Method::from_code(1), Method::OptimizedParallel);
    assert_eq!(Method::from_code(2), Method::NaiveParallel);
    assert_eq!(Method::from_code(3), Method::OptimizedSequential);
    assert_eq!(Method::from_code(4), Method::NaiveSequential);
    assert_eq!(Method::from_code(0), Method::OptimizedParallel);
    assert_eq!(Method::from_code(200), Method::OptimizedParallel);
}

#[test]
fn file_names_end_with_bmp() {
    assert_eq!(bmp_file_name("output.bmp"), "output.bmp");
    assert_eq!(bmp_file_name("output"), "output.bmp");
    assert_eq!(bmp_file_name(".bmp"), ".bmp.bmp");
    assert_eq!(bmp_file_name("a.png"), "a.png.bmp");
    assert_eq!(bmp_file_name(""), ".bmp");
}
