use dsh_lite::base64::{base64_decode, base64_encode};
use dsh_lite::image_preproc::{
    blend, flatten, preprocess, preprocess_all, preprocess_with_options, settle_block,
};
use dsh_lite::json::parse_json;
use dsh_lite::read_image::{detect_media_type, media_type_for, read_image_file, ReadImageTool};
use dsh_lite::types::ImageBlock;

fn png(width: u32, height: u32, alpha: u8) -> ImageBlock {
    let mut picture = image::RgbaImage::new(width, height);
    for (x, y, p) in picture.enumerate_pixels_mut() {
        *p = image::Rgba([(x % 256) as u8, (y % 256) as u8, 128, alpha]);
    }
    let mut bytes: Vec<u8> = vec![];
    image::DynamicImage::ImageRgba8(picture)
        .write_to(&mut std::io::Cursor::new(&mut bytes), image::ImageFormat::Png)
        .unwrap();
    ImageBlock { media_type: "image/png".into(), data: base64_encode(&bytes) }
}

fn picture_of(block: &ImageBlock) -> image::DynamicImage {
    image::load_from_memory(&base64_decode(&block.data).unwrap()).unwrap()
}

#[test]
fn base64_is_that_of_the_standard() {
    for (bytes, text) in [
        ("", ""),
        ("f", "Zg=="),
        ("fo", "Zm8="),
        ("foo", "Zm9v"),
        ("foob", "Zm9vYg=="),
        ("fooba", "Zm9vYmE="),
        ("foobar", "Zm9vYmFy"),
    ] {
        assert_eq!(base64_encode(&bytes.as_bytes().to_vec()), text);
        assert_eq!(base64_decode(text), Ok(bytes.as_bytes().to_vec()));
    }
    let all: Vec<u8> = (0..=255).collect();
    assert_eq!(base64_decode(&base64_encode(&all)), Ok(all));
}

#[test]
fn wrong_base64_is_refused() {
    assert_eq!(base64_decode("Zg="), Err("invalid base64 length: 3".to_string()));
    assert_eq!(base64_decode("!!!!"), Err("invalid base64 character".to_string()));
    assert_eq!(base64_decode("Zm\n9v \r"), Ok(b"foo".to_vec()));
}

#[test]
fn blending_is_that_of_single_precision() {
    for sample in 0..=255u8 {
        for a in 0..=255u8 {
            let alpha = a as f32 / 255.0;
            let expected = (sample as f32 * alpha + 255.0 * (1.0 - alpha)) as u8;
            assert_eq!(blend(sample, a), expected, "{sample} {a}");
        }
    }
}

#[test]
fn transparent_samples_become_white() {
    assert_eq!(flatten(&vec![1, 2, 3, 0, 4, 5, 6, 255]), vec![255, 255, 255, 4, 5, 6]);
}

#[test]
fn a_large_picture_is_made_smaller() {
    let out = preprocess_with_options(&png(300, 150, 255), 100, 80);
    assert_eq!(out.media_type, "image/jpeg");
    let picture = picture_of(&out);
    assert_eq!((picture.width(), picture.height()), (100, 50));
}

#[test]
fn the_proportion_stays() {
    for (width, height, expected) in
        [(150, 300, (50, 100)), (301, 100, (100, 33)), (1000, 2, (100, 1)), (200, 200, (100, 100))]
    {
        let picture = picture_of(&preprocess_with_options(&png(width, height, 255), 100, 80));
        assert_eq!((picture.width(), picture.height()), expected);
    }
}

#[test]
fn other_formats_are_read() {
    let mut bytes: Vec<u8> = vec![];
    image::DynamicImage::new_rgb8(120, 60)
        .write_to(&mut std::io::Cursor::new(&mut bytes), image::ImageFormat::Bmp)
        .unwrap();
    let block = ImageBlock { media_type: "image/bmp".into(), data: base64_encode(&bytes) };
    assert_eq!(preprocess_with_options(&block, 40, 80).media_type, "image/jpeg");
}

#[test]
fn decoders_from_elsewhere_take_no_part() {
    let mut bytes: Vec<u8> = vec![];
    image::DynamicImage::new_rgb8(90, 30)
        .write_to(&mut std::io::Cursor::new(&mut bytes), image::ImageFormat::Bmp)
        .unwrap();
    image::hooks::register_format_detection_hook("nothing".into(), b"BM", None);
    assert!(image::load_from_memory(&bytes).is_err());
    let block = ImageBlock { media_type: "image/bmp".into(), data: base64_encode(&bytes) };
    let picture = picture_of(&preprocess_with_options(&block, 30, 80));
    assert_eq!((picture.width(), picture.height()), (30, 10));
}

#[test]
fn gray_pictures_are_encoded() {
    for gray in [image::DynamicImage::new_luma8(80, 40), image::DynamicImage::new_luma_a8(80, 40)] {
        let mut bytes: Vec<u8> = vec![];
        gray.write_to(&mut std::io::Cursor::new(&mut bytes), image::ImageFormat::Png).unwrap();
        let block = ImageBlock { media_type: "image/png".into(), data: base64_encode(&bytes) };
        let out = preprocess_with_options(&block, 20, 80);
        assert_eq!(out.media_type, "image/jpeg");
        assert_eq!((picture_of(&out).width(), picture_of(&out).height()), (20, 10));
    }
}

#[test]
fn spacing_in_base64_does_not_count() {
    assert_eq!(base64_decode(" Zm9v\r\nYm Fy\n"), base64_decode("Zm9vYmFy"));
    assert_eq!(base64_decode(" Zg =\n"), base64_decode("Zg="));
}

#[test]
fn a_moving_picture_stays_as_it_is() {
    let mut block = png(300, 150, 255);
    block.media_type = "image/gif".into();
    assert_eq!(preprocess_with_options(&block, 100, 80).data, block.data);
}

#[test]
fn a_small_picture_stays_as_it_is() {
    let block = png(60, 40, 255);
    let out = preprocess_with_options(&block, 100, 80);
    assert_eq!((out.media_type.as_str(), out.data.as_str()), ("image/png", block.data.as_str()));
    assert_eq!(preprocess(&block).data, block.data);
}

#[test]
fn a_transparent_picture_is_laid_on_white() {
    let out = preprocess_with_options(&png(300, 150, 0), 100, 90);
    let pixel = picture_of(&out).to_rgb8().get_pixel(50, 25).0;
    assert!(pixel.iter().all(|s| *s > 250), "{pixel:?}");
}

#[test]
fn quality_changes_the_size() {
    let block = png(600, 600, 255);
    let fine = preprocess_with_options(&block, 300, 95).data.len();
    let coarse = preprocess_with_options(&block, 300, 10).data.len();
    assert!(coarse < fine, "{coarse} {fine}");
}

#[test]
fn what_is_no_picture_stays_as_it_is() {
    let broken = ImageBlock { media_type: "image/png".into(), data: "Zm9v".into() };
    assert_eq!(preprocess(&broken).data, "Zm9v");
    let no_base64 = ImageBlock { media_type: "image/png".into(), data: "!".into() };
    assert_eq!(preprocess(&no_base64).data, "!");
    let both = preprocess_all(&vec![broken, no_base64]);
    assert_eq!(both.len(), 2);
}

#[test]
fn a_block_is_kept_or_replaced() {
    let block = ImageBlock { media_type: "image/png".into(), data: "x".into() };
    assert_eq!(settle_block(&block, &None).data, "x");
    let jpeg = settle_block(&block, &Some(b"foo".to_vec()));
    assert_eq!((jpeg.media_type.as_str(), jpeg.data.as_str()), ("image/jpeg", "Zm9v"));
}

#[test]
fn the_kind_of_a_picture_is_in_its_name() {
    assert_eq!(detect_media_type("A/B.PNG"), "image/png");
    assert_eq!(detect_media_type("b.jpeg"), "image/jpeg");
    assert_eq!(detect_media_type("b.webp"), "image/webp");
    assert_eq!(media_type_for("c.gif"), "image/gif");
    assert_eq!(media_type_for("c.bmp"), "image/bmp");
    assert_eq!(media_type_for("c"), "image/jpeg");
}

#[test]
fn a_picture_file_is_shown() {
    let result = read_image_file("p.png", Ok(b"foo".to_vec()));
    assert!(!result.is_error);
    assert_eq!(result.content, "Image loaded from p.png (3 bytes, image/png → image/png)");
    assert_eq!(result.images[0].data, "Zm9v");
    let missing = read_image_file("p.png", Err("gone".into()));
    assert!(missing.is_error && missing.images.is_empty());
    assert!(read_image_file("", Ok(vec![])).is_error);
    assert_eq!(ReadImageTool {}.prepare(&parse_json("{\"path\":\"x\"}").unwrap()), "x");
}
