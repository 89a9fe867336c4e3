use rewms::codec::{bin_index, transcode_image, transcode_raster};

/// The 250-entry table of little-endian value words for a range, computed
/// exactly as the serving process computes it: bin `b` (1-based) maps to the
/// 32-bit float `b * (max - min) / 249 + min`.
fn bin_words(min: f64, max: f64) -> Vec<u32> {
    let minf = min as f32;
    let step = (max as f32 - minf) / 249.0;
    (1..=250u32)
        .map(|b| u32::from_le_bytes((b as f32 * step + minf).to_le_bytes()))
        .collect()
}

#[test]
fn bin_index_matches_reference_binning() {
    // ceil((r / 255) / (1 / 250)) for a few known points.
    assert_eq!(bin_index(128), 126);
    assert_eq!(bin_index(1), 1);
    assert_eq!(bin_index(255), 250);
    assert_eq!(bin_index(51), 50);
    // The integer form agrees with the floating-point form everywhere.
    for r in 1..=255u32 {
        let float_form = ((r as f32 / 255.0) / (1.0 / 250.0)).ceil() as u32;
        assert_eq!(bin_index(r as u8) as u32, float_form, "red value {r}");
    }
}

#[test]
fn transparent_pixel_maps_to_zero_bytes() {
    let bins = bin_words(1.08, 2.02);
    let mut data = vec![200u8, 17, 91, 0];
    transcode_raster(&mut data, &bins);
    assert_eq!(data, vec![0u8, 0, 0, 0]);
}

#[test]
fn nodata_pixel_maps_to_all_ones() {
    let bins = bin_words(1.08, 2.02);
    let mut data = vec![0u8, 55, 77, 255];
    transcode_raster(&mut data, &bins);
    assert_eq!(data, vec![255u8, 255, 255, 255]);
}

#[test]
fn pixel_value_matches_reference_scaling() {
    // min = 1.08, max = 2.02: step = 0.94 / 249, red = 128 falls in bin
    // ceil(125.49) = 126, so the value is 126 * step + 1.08, about 1.5556.
    let bins = bin_words(1.08, 2.02);
    let mut data = vec![128u8, 0, 0, 255];
    transcode_raster(&mut data, &bins);

    let minf = 1.08f64 as f32;
    let step = (2.02f64 as f32 - minf) / 249.0;
    let expected = 126.0f32 * step + minf;
    assert!((expected - 1.5556).abs() < 0.0005);
    assert_eq!(data, expected.to_le_bytes().to_vec());
}

#[test]
fn codec_is_pure() {
    let bins = bin_words(0.0, 10.0);
    let original: Vec<u8> = (0..64u8).collect();
    let mut first = original.clone();
    let mut second = original.clone();
    transcode_raster(&mut first, &bins);
    transcode_raster(&mut second, &bins);
    assert_eq!(first, second);
}

fn png_of(width: u32, height: u32, data: Vec<u8>) -> Vec<u8> {
    let img = image::RgbaImage::from_raw(width, height, data).unwrap();
    let mut w = std::io::Cursor::new(Vec::new());
    img.write_to(&mut w, image::ImageOutputFormat::Png).unwrap();
    w.into_inner()
}

fn rgba_of(png: &[u8]) -> (u32, u32, Vec<u8>) {
    let img = image::load_from_memory(png).unwrap().to_rgba8();
    (img.width(), img.height(), img.into_raw())
}

#[test]
fn transcode_image_round_trip() {
    let bins = bin_words(1.08, 2.02);
    let pixels: Vec<u8> = vec![
        128, 0, 0, 255, // bin 126
        0, 9, 9, 255, // reserved no-data bin
        77, 1, 2, 0, // transparent
        255, 3, 3, 255, // bin 250
    ];
    let png = png_of(2, 2, pixels);
    let out = transcode_image(&png, &bins).expect("transcoding should succeed");

    let (w, h, data) = rgba_of(&out);
    assert_eq!((w, h), (2, 2));
    let minf = 1.08f64 as f32;
    let step = (2.02f64 as f32 - minf) / 249.0;
    assert_eq!(data[0..4], (126.0f32 * step + minf).to_le_bytes());
    assert_eq!(data[4..8], [255, 255, 255, 255]);
    assert_eq!(data[8..12], [0, 0, 0, 0]);
    assert_eq!(data[12..16], (250.0f32 * step + minf).to_le_bytes());
}

#[test]
fn transcode_image_twice_is_byte_identical() {
    let bins = bin_words(0.5, 7.5);
    let png = png_of(1, 2, vec![10, 0, 0, 255, 200, 0, 0, 255]);
    let first = transcode_image(&png, &bins).unwrap();
    let second = transcode_image(&png, &bins).unwrap();
    assert_eq!(first, second);
}

#[test]
fn transcode_image_rejects_garbage() {
    let bins = bin_words(0.0, 1.0);
    let garbage = vec![1u8, 2, 3, 4, 5];
    assert_eq!(
        transcode_image(&garbage, &bins),
        Err(rewms::error::WmsError::ImageError)
    );
}
