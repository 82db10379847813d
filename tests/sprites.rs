use base64::Engine;
use image::{ImageFormat, Rgba, RgbaImage};
use prefab_scene::fields::Number;
use prefab_scene::sprite::{
    atlas_sprite_info, crop_image_from_bytes, crop_window_for, direct_sprite_info, encode_data_uri,
    flip_rect_y, get_image_dimensions, image_to_base64, optimize_image_bytes, parse_sprite_asset,
    pixel_count, CropError, Rect,
};

fn png_of(img: &RgbaImage) -> Vec<u8> {
    let mut buf = std::io::Cursor::new(Vec::new());
    img.write_to(&mut buf, ImageFormat::Png).unwrap();
    buf.into_inner()
}

fn solid(w: u32, h: u32, c: [u8; 4]) -> Vec<u8> {
    png_of(&RgbaImage::from_pixel(w, h, Rgba(c)))
}

/// Top rows red, bottom rows blue.
fn two_band(w: u32, h: u32, split: u32) -> Vec<u8> {
    let img = RgbaImage::from_fn(w, h, |_, y| if y < split { Rgba([255, 0, 0, 255]) } else { Rgba([0, 0, 255, 255]) });
    png_of(&img)
}

fn decode_payload(uri: &str, prefix: &str) -> image::RgbaImage {
    assert!(uri.starts_with(prefix));
    let bytes = base64::engine::general_purpose::STANDARD.decode(&uri[prefix.len()..]).unwrap();
    image::load_from_memory(&bytes).unwrap().to_rgba8()
}

#[test]
fn direct_image_round_trip_keeps_size_and_colors() {
    let bytes = solid(4, 3, [10, 200, 30, 255]);
    let info = direct_sprite_info("Assets/hero.png", &bytes).unwrap();
    assert_eq!(info.rect.x, Number::Int(0));
    assert_eq!(info.rect.y, Number::Int(0));
    assert_eq!(info.rect.width, Number::Int(4));
    assert_eq!(info.rect.height, Number::Int(3));
    assert_eq!(info.offset.x, Number::Int(0));
    let img = decode_payload(info.base64.as_deref().unwrap(), "data:image/png;base64,");
    assert_eq!(img.dimensions(), (4, 3));
    assert!(img.pixels().all(|p| *p == Rgba([10, 200, 30, 255])));
}

#[test]
fn direct_jpg_path_gets_jpeg_mime_and_other_paths_none() {
    let bytes = solid(2, 2, [0, 0, 0, 255]);
    let uri = image_to_base64("a/b.jpg", &bytes).unwrap();
    assert!(uri.starts_with("data:image/jpeg;base64,"));
    assert_eq!(image_to_base64("a/b.asset", &bytes), None);
    assert!(direct_sprite_info("a/b.asset", &bytes).is_none());
    assert!(direct_sprite_info("a/b.png", b"not an image").is_none());
}

#[test]
fn data_uri_encodes_base64() {
    assert_eq!(encode_data_uri("image/png", b"Man").unwrap(), "data:image/png;base64,TWFu");
    assert_eq!(encode_data_uri("text/plain", b"").unwrap(), "data:text/plain;base64,");
}

#[test]
fn image_dimensions_of_decoded_bytes() {
    let r = get_image_dimensions(&solid(7, 5, [1, 2, 3, 255])).unwrap();
    assert_eq!(r.width, Number::Int(7));
    assert_eq!(r.height, Number::Int(5));
    assert!(get_image_dimensions(b"").is_none());
}

#[test]
fn coordinate_conversion_flips_from_bottom() {
    assert_eq!(flip_rect_y(100, 10, 30), Some(60));
    assert_eq!(flip_rect_y(100, 70, 30), Some(0));
    assert_eq!(flip_rect_y(100, 71, 30), None);
    let rect = Rect { x: Number::Int(10), y: Number::Int(10), width: Number::Int(20), height: Number::Int(30) };
    assert_eq!(crop_window_for(100, 100, &rect), Some((10, 60, 20, 30)));
    let real = Rect {
        x: Number::Real("10.9".to_string()),
        y: Number::Real("10".to_string()),
        width: Number::Real("20.5".to_string()),
        height: Number::Int(30),
    };
    assert_eq!(crop_window_for(100, 100, &real), Some((10, 60, 20, 30)));
}

#[test]
fn crop_window_rejects_empty_and_outside_rects() {
    let r = |x: i64, y: i64, w: i64, h: i64| Rect {
        x: Number::Int(x),
        y: Number::Int(y),
        width: Number::Int(w),
        height: Number::Int(h),
    };
    assert_eq!(crop_window_for(100, 100, &r(0, 0, 0, 10)), None);
    assert_eq!(crop_window_for(100, 100, &r(0, 0, 10, 0)), None);
    assert_eq!(crop_window_for(100, 100, &r(95, 0, 10, 10)), None);
    assert_eq!(crop_window_for(100, 100, &r(0, 95, 10, 10)), None);
    assert_eq!(crop_window_for(100, 100, &r(0, 0, 100, 100)), Some((0, 0, 100, 100)));
    let exp = Rect { x: Number::Real("1e2".to_string()), y: Number::Int(0), width: Number::Int(1), height: Number::Int(1) };
    assert_eq!(crop_window_for(100, 100, &exp), None);
}

#[test]
fn pixel_counts_truncate_toward_zero() {
    assert_eq!(pixel_count(&Number::Int(-5)), Some(0));
    assert_eq!(pixel_count(&Number::Int(5_000_000_000)), None);
    assert_eq!(pixel_count(&Number::Int(4294967295)), Some(u32::MAX));
    assert_eq!(pixel_count(&Number::Real("12.99".to_string())), Some(12));
    assert_eq!(pixel_count(&Number::Real("-0.5".to_string())), Some(0));
    assert_eq!(pixel_count(&Number::Real(".5".to_string())), Some(0));
    assert_eq!(pixel_count(&Number::Real("7.".to_string())), Some(7));
    assert_eq!(pixel_count(&Number::Real("+3".to_string())), Some(3));
    assert_eq!(pixel_count(&Number::Real("99999999999999999999999".to_string())), None);
    assert_eq!(pixel_count(&Number::Real("4294967296.5".to_string())), None);
    assert_eq!(pixel_count(&Number::Real(".".to_string())), None);
    assert_eq!(pixel_count(&Number::Real("1.2.3".to_string())), None);
    assert_eq!(pixel_count(&Number::Real("inf".to_string())), None);
}

const SPRITE_ASSET: &str = "%YAML 1.1
%TAG !u! tag:unity3d.com,2011:
--- !u!213 &21300000
Sprite:
  m_Name: hero_0
  m_Rect:
    serializedVersion: 2
    x: 64
    y: 32
    width: 3
    height: 4
  m_Offset: {x: 0.5, y: -1}
  m_RD:
    serializedVersion: 3
    texture: {fileID: 2800000, guid: 0123abcd, type: 3}
    textureRect:
      serializedVersion: 2
      x: 2
      y: 1
      width: 3
      height: 4
";

#[test]
fn sprite_asset_is_read_after_its_directives_and_header() {
    let a = parse_sprite_asset(SPRITE_ASSET).unwrap();
    assert_eq!(a.sprite.rect.x, Number::Int(64));
    assert_eq!(a.sprite.offset.x, Number::Real("0.5".to_string()));
    assert_eq!(a.sprite.offset.y, Number::Int(-1));
    assert_eq!(a.sprite.rd.texture.guid.as_deref(), Some("0123abcd"));
    assert_eq!(a.sprite.rd.texture.file_id, 2800000);
    assert_eq!(a.sprite.rd.texture_rect.height, Number::Int(4));
    assert!(parse_sprite_asset("a: 1\n").is_none());
}

#[test]
fn atlas_entry_is_cut_from_the_bottom_counted_rect() {
    let a = parse_sprite_asset(SPRITE_ASSET).unwrap();
    // 10 rows: rows 0..5 red, rows 5..10 blue; the rect spans rows 5..9 from the top.
    let texture = two_band(10, 10, 5);
    let info = atlas_sprite_info(&a, &texture).unwrap();
    assert_eq!(info.rect.x, Number::Int(64));
    assert_eq!(info.rect.width, Number::Int(3));
    assert_eq!(info.offset.x, Number::Real("0.5".to_string()));
    let img = decode_payload(info.base64.as_deref().unwrap(), "data:image/png;base64,");
    assert_eq!(img.dimensions(), (3, 4));
    assert!(img.pixels().all(|p| *p == Rgba([0, 0, 255, 255])));
    // Too small a texture for the rect, and bytes that are no image.
    assert!(atlas_sprite_info(&a, &two_band(4, 4, 2)).is_none());
    assert!(atlas_sprite_info(&a, b"nope").is_none());
}

#[test]
fn crop_from_bytes_counts_y_from_the_bottom() {
    let bytes = two_band(8, 10, 6);
    let out = crop_image_from_bytes(&bytes, 1, 0, 2, 4).unwrap();
    assert_eq!(&out[..8], &[137, 80, 78, 71, 13, 10, 26, 10]);
    let img = image::load_from_memory(&out).unwrap().to_rgba8();
    assert_eq!(img.dimensions(), (2, 4));
    assert!(img.pixels().all(|p| *p == Rgba([0, 0, 255, 255])));
    let top = crop_image_from_bytes(&bytes, 0, 6, 8, 4).unwrap();
    let img = image::load_from_memory(&top).unwrap().to_rgba8();
    assert!(img.pixels().all(|p| *p == Rgba([255, 0, 0, 255])));
}

#[test]
fn crop_errors_name_their_cause() {
    let bytes = solid(8, 10, [1, 1, 1, 255]);
    assert_eq!(crop_image_from_bytes(b"junk", 0, 0, 1, 1), Err(CropError::Decode));
    assert_eq!(crop_image_from_bytes(&bytes, 8, 0, 1, 1), Err(CropError::InvalidRegion));
    assert_eq!(crop_image_from_bytes(&bytes, 0, 10, 1, 1), Err(CropError::InvalidRegion));
    assert_eq!(crop_image_from_bytes(&bytes, 0, 0, 0, 1), Err(CropError::InvalidRegion));
    assert_eq!(crop_image_from_bytes(&bytes, 0, 0, 1, 0), Err(CropError::InvalidRegion));
    assert_eq!(crop_image_from_bytes(&bytes, 0, 5, 1, 6), Err(CropError::ExceedsHeight));
    assert_eq!(crop_image_from_bytes(&bytes, 5, 0, 4, 1), Err(CropError::ExceedsWidth));
}

#[test]
fn optimize_reencodes_as_png() {
    let bytes = solid(3, 2, [9, 8, 7, 255]);
    let out = optimize_image_bytes(&bytes).unwrap();
    let img = image::load_from_memory(&out).unwrap().to_rgba8();
    assert_eq!(img.dimensions(), (3, 2));
    assert!(img.pixels().all(|p| *p == Rgba([9, 8, 7, 255])));
    assert_eq!(optimize_image_bytes(b"x"), Err(CropError::Decode));
}

#[test]
fn crop_of_the_documented_window_starts_at_row_sixty() {
    // A 40 x 100 image whose pixel (i, j) encodes its own coordinates.
    let img = RgbaImage::from_fn(40, 100, |i, j| Rgba([i as u8, j as u8, 7, 255]));
    let out = crop_image_from_bytes(&png_of(&img), 10, 10, 20, 30).unwrap();
    let got = image::load_from_memory(&out).unwrap().to_rgba8();
    assert_eq!(got.dimensions(), (20, 30));
    for j in 0..30 {
        for i in 0..20 {
            assert_eq!(*got.get_pixel(i, j), Rgba([(10 + i) as u8, (60 + j) as u8, 7, 255]));
        }
    }
}
