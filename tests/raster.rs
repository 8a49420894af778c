use raytracer::{assemble_rows, ppm_document, write_color_to_string, ImageSize, Rgb, ShapeError};

fn px(r: u8, g: u8, b: u8) -> Rgb {
    Rgb { r, g, b }
}

#[test]
fn image_height_is_kept_when_positive() {
    let s = ImageSize::new(400, 225);
    assert_eq!(s.width, 400);
    assert_eq!(s.height, 225);
}

#[test]
fn image_height_is_at_least_one() {
    assert_eq!(ImageSize::new(10, 0).height, 1);
    assert_eq!(ImageSize::new(10, -7).height, 1);
}

#[test]
fn image_height_saturates_at_u32_max() {
    assert_eq!(ImageSize::new(1, 1i64 << 40).height, u32::MAX);
}

#[test]
fn size_of_image_is_width_times_height() {
    assert_eq!(ImageSize::new(400, 225).size_of_image(), 90000);
    let big = ImageSize { width: u32::MAX, height: u32::MAX };
    assert_eq!(big.size_of_image(), (u32::MAX as u64) * (u32::MAX as u64));
}

#[test]
fn rows_are_joined_top_row_first() {
    let size = ImageSize::new(2, 3);
    let rows = vec![
        vec![px(1, 1, 1), px(2, 2, 2)],
        vec![px(3, 3, 3), px(4, 4, 4)],
        vec![px(5, 5, 5), px(6, 6, 6)],
    ];
    let out = assemble_rows(size, &rows).unwrap();
    let expected: Vec<Rgb> = (1..=6u8).map(|v| px(v, v, v)).collect();
    assert_eq!(out, expected);
}

#[test]
fn a_missing_row_is_refused() {
    let size = ImageSize::new(1, 2);
    let rows = vec![vec![px(0, 0, 0)]];
    assert_eq!(assemble_rows(size, &rows), Err(ShapeError::RowCount));
}

#[test]
fn a_short_row_is_named() {
    let size = ImageSize::new(2, 3);
    let rows = vec![
        vec![px(0, 0, 0), px(0, 0, 0)],
        vec![px(0, 0, 0)],
        vec![px(0, 0, 0)],
    ];
    assert_eq!(assemble_rows(size, &rows), Err(ShapeError::RowWidth { row: 1 }));
}

#[test]
fn pixel_line_is_three_decimals() {
    let mut s = String::new();
    write_color_to_string(&mut s, px(0, 0, 0));
    assert_eq!(s, "0 0 0\n");
    write_color_to_string(&mut s, px(255, 128, 7));
    assert_eq!(s, "0 0 0\n255 128 7\n");
}

#[test]
fn pixel_line_has_no_leading_zeros() {
    let mut s = String::from("x");
    write_color_to_string(&mut s, px(10, 100, 9));
    assert_eq!(s, "x10 100 9\n");
}

#[test]
fn ppm_document_has_header_and_row_breaks() {
    let size = ImageSize::new(2, 2);
    let pixels = vec![px(0, 0, 0), px(1, 2, 3), px(255, 255, 255), px(40, 50, 60)];
    let text = ppm_document(size, &pixels);
    assert_eq!(
        text,
        "P3\n2 2\n255\n0 0 0\n1 2 3\n\n255 255 255\n40 50 60\n\n"
    );
}

#[test]
fn ppm_header_of_large_image() {
    let size = ImageSize::new(1, 1);
    let text = ppm_document(size, &vec![px(9, 99, 199)]);
    assert_eq!(text, "P3\n1 1\n255\n9 99 199\n\n");
    let size = ImageSize::new(1234567, 1);
    let row: Vec<Rgb> = vec![px(0, 0, 0); 1234567];
    let text = ppm_document(size, &row);
    assert!(text.starts_with("P3\n1234567 1\n255\n0 0 0\n"));
    assert!(text.ends_with("0 0 0\n\n"));
}
