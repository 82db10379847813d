//! Sprite extraction: image payloads, crop windows and atlas cut-outs.
use vstd::prelude::*;
use vstd::string::StringExecFns;
use base64::Engine;
use unity_yaml_rust::Yaml;
use crate::fields::{asset_ref_of, number_of, read_asset_ref, read_number, Number};
use crate::hierarchy::{SpriteInfo, SpriteRectInfo, Vector2};
use crate::strings::{ends_with_text, has_suffix};
use crate::text::{decimal_parts, decimal_whole, digits_value};
use crate::value::{field_of, Value};
use crate::yaml::{
    converts, lemma_converts_decodable, lemma_converts_unique, load_documents, yaml_load, yaml_to_json,
};

verus! {

/// The width and height of the image that some bytes hold, when they decode.
pub uninterp spec fn decoded_size(bytes: Seq<u8>) -> Option<(u32, u32)>;

/// The PNG file of the RGBA pixels of the window `(x, y, w, h)`, `y` counted
/// from the top, of the image that some bytes hold.
pub uninterp spec fn png_crop(bytes: Seq<u8>, x: u32, y: u32, w: u32, h: u32) -> Option<Seq<u8>>;

/// The PNG file of the RGBA pixels of the image that some bytes hold.
pub uninterp spec fn png_rgba(bytes: Seq<u8>) -> Option<Seq<u8>>;

/// The standard, padded base64 text of some bytes.
pub uninterp spec fn base64_text(bytes: Seq<u8>) -> Seq<char>;

/// Relies on `image::load_from_memory`: the format is guessed from the bytes,
/// and the size is that of the decoded image.
#[verifier::external_body]
fn decode_size(bytes: &[u8]) -> (r: Option<(u32, u32)>)
    ensures
        r == decoded_size(bytes@),
{
    match image::load_from_memory(bytes) {
        Ok(img) => Some((img.width(), img.height())),
        Err(_) => None,
    }
}

/// Relies on `image::load_from_memory`, `DynamicImage::to_rgba8`,
/// `imageops::crop_imm` and `DynamicImage::write_to` with `ImageFormat::Png`:
/// the window's pixels, copied as they are, encoded as PNG. A `Vec` never
/// holds more than `isize::MAX` bytes.
#[verifier::external_body]
fn crop_to_png(bytes: &[u8], x: u32, y: u32, w: u32, h: u32) -> (r: Option<Vec<u8>>)
    ensures
        r matches Some(b) ==> png_crop(bytes@, x, y, w, h) == Some(b@) && b@.len() <= usize::MAX / 2,
        r is None ==> png_crop(bytes@, x, y, w, h) is None,
{
    let rgba = image::load_from_memory(bytes).ok()?.to_rgba8();
    let cropped = image::DynamicImage::ImageRgba8(image::imageops::crop_imm(&rgba, x, y, w, h).to_image());
    let mut buf = std::io::Cursor::new(Vec::new());
    cropped.write_to(&mut buf, image::ImageFormat::Png).ok()?;
    Some(buf.into_inner())
}

/// Relies on `image::load_from_memory`, `DynamicImage::to_rgba8` and
/// `DynamicImage::write_to` with `ImageFormat::Png`: the image's pixels as
/// eight-bit RGBA, encoded as PNG.
#[verifier::external_body]
fn rgba_to_png(bytes: &[u8]) -> (r: Option<Vec<u8>>)
    ensures
        r matches Some(b) ==> png_rgba(bytes@) == Some(b@),
        r is None ==> png_rgba(bytes@) is None,
{
    let rgba = image::DynamicImage::ImageRgba8(image::load_from_memory(bytes).ok()?.to_rgba8());
    let mut buf = std::io::Cursor::new(Vec::new());
    rgba.write_to(&mut buf, image::ImageFormat::Png).ok()?;
    Some(buf.into_inner())
}

/// Relies on `base64::engine::general_purpose::STANDARD.encode`: padded
/// base64, four characters for every three bytes begun.
#[verifier::external_body]
fn base64_encode(bytes: &[u8]) -> (r: String)
    requires
        bytes@.len() <= usize::MAX / 2,
    ensures
        r@ == base64_text(bytes@),
        r@.len() == 4 * ((bytes@.len() + 2) / 3),
{
    base64::engine::general_purpose::STANDARD.encode(bytes)
}

/// `data:<mime>;base64,<payload>`.
pub open spec fn data_uri_text(mime: Seq<char>, payload: Seq<char>) -> Seq<char> {
    "data:"@ + mime + ";base64,"@ + payload
}

/// Builds a data URI from a MIME type and a base64 payload.
pub fn data_uri(mime: &str, payload: &str) -> (r: String)
    ensures
        r@ == data_uri_text(mime@, payload@),
{
    let mut out = String::from_str("data:");
    out.append(mime);
    out.append(";base64,");
    out.append(payload);
    out
}

/// The base64 data URI of some bytes of the given MIME type.
pub fn encode_data_uri(mime: &str, bytes: &[u8]) -> (r: Option<String>)
    ensures
        bytes@.len() <= usize::MAX / 2 <==> r is Some,
        r matches Some(u) ==> u@ == data_uri_text(mime@, base64_text(bytes@)),
{
    if bytes.len() > usize::MAX / 2 {
        return None;
    }
    let b = base64_encode(bytes);
    Some(data_uri(mime, b.as_str()))
}

/// A path that names a raster image the library embeds as it is.
pub open spec fn is_direct_image(path: Seq<char>) -> bool {
    has_suffix(path, ".png"@) || has_suffix(path, ".jpg"@)
}

/// The MIME type of a direct image path.
pub open spec fn mime_of(path: Seq<char>) -> Seq<char> {
    if has_suffix(path, ".png"@) {
        "image/png"@
    } else {
        "image/jpeg"@
    }
}

/// Whether a resolved sprite path is a raster image rather than a sprite asset.
pub fn direct_image_path(path: &str) -> (r: bool)
    ensures
        r == is_direct_image(path@),
{
    ends_with_text(path, ".png") || ends_with_text(path, ".jpg")
}

/// The embeddable payload of a raster image file: its bytes as a data URI,
/// `None` for a path that is not a `.png` or `.jpg`.
pub fn image_to_base64(path: &str, bytes: &[u8]) -> (r: Option<String>)
    ensures
        r is Some <==> is_direct_image(path@) && bytes@.len() <= usize::MAX / 2,
        r matches Some(u) ==> u@ == data_uri_text(mime_of(path@), base64_text(bytes@)),
{
    if !direct_image_path(path) {
        return None;
    }
    if ends_with_text(path, ".png") {
        encode_data_uri("image/png", bytes)
    } else {
        encode_data_uri("image/jpeg", bytes)
    }
}

/// The rect of a whole image of the given size.
pub open spec fn full_rect(w: u32, h: u32) -> SpriteRectInfo {
    SpriteRectInfo {
        x: Number::Int(0),
        y: Number::Int(0),
        width: Number::Int(w as i64),
        height: Number::Int(h as i64),
    }
}

/// The rect `{0, 0, width, height}` of the image that some bytes hold.
pub fn get_image_dimensions(bytes: &[u8]) -> (r: Option<SpriteRectInfo>)
    ensures
        r matches Some(x) ==> decoded_size(bytes@) matches Some((w, h)) && x == full_rect(w, h),
        r is None ==> decoded_size(bytes@) is None,
{
    match decode_size(bytes) {
        Some((w, h)) => Some(
            SpriteRectInfo {
                x: Number::Int(0),
                y: Number::Int(0),
                width: Number::Int(w as i64),
                height: Number::Int(h as i64),
            },
        ),
        None => None,
    }
}

/// The sprite that a raster image file makes: the file itself as payload, the
/// whole image as rect, and no offset.
pub fn direct_sprite_info(path: &str, bytes: &[u8]) -> (r: Option<SpriteInfo>)
    ensures
        r is Some <==> is_direct_image(path@) && decoded_size(bytes@) is Some,
        r matches Some(i) ==> {
            &&& decoded_size(bytes@) matches Some((w, h)) && i.rect == full_rect(w, h)
            &&& i.offset == (Vector2 { x: Number::Int(0), y: Number::Int(0) })
            &&& bytes@.len() <= usize::MAX / 2 ==> (i.base64 matches Some(u) && u@ == data_uri_text(
                mime_of(path@),
                base64_text(bytes@),
            ))
        },
{
    if !direct_image_path(path) {
        return None;
    }
    let base64 = image_to_base64(path, bytes);
    match get_image_dimensions(bytes) {
        Some(rect) => Some(
            SpriteInfo { base64, rect, offset: Vector2 { x: Number::Int(0), y: Number::Int(0) } },
        ),
        None => None,
    }
}

/// A rectangle as the document writes it.
#[derive(Debug, Clone, PartialEq)]
pub struct Rect {
    pub x: Number,
    pub y: Number,
    pub width: Number,
    pub height: Number,
}

/// A reference to another file's object: `fileID`, `guid` and `type`.
#[derive(Debug, Clone, PartialEq)]
pub struct FileReference {
    pub file_id: i64,
    pub guid: Option<String>,
    pub file_type: Option<i64>,
}

/// Where a sprite's pixels lie: the texture and the rectangle within it.
#[derive(Debug, Clone, PartialEq)]
pub struct RenderData {
    pub texture: FileReference,
    pub texture_rect: Rect,
}

/// The fields of a sprite that extraction reads.
#[derive(Debug, Clone, PartialEq)]
pub struct Sprite {
    pub rect: Rect,
    pub offset: Vector2,
    pub rd: RenderData,
}

/// A sprite asset file's sprite record.
#[derive(Debug, Clone, PartialEq)]
pub struct SpriteAsset {
    pub sprite: Sprite,
}

pub open spec fn rect_of(f: Option<Value>) -> Option<Rect> {
    match f {
        None => Some(
            Rect { x: Number::Int(0), y: Number::Int(0), width: Number::Int(0), height: Number::Int(0) },
        ),
        Some(v) => if v is Object {
            match (
                number_of(field_of(v, "x"@)),
                number_of(field_of(v, "y"@)),
                number_of(field_of(v, "width"@)),
                number_of(field_of(v, "height"@)),
            ) {
                (Some(x), Some(y), Some(width), Some(height)) => Some(Rect { x, y, width, height }),
                _ => None,
            }
        } else {
            None
        },
    }
}

pub open spec fn vector2_of(f: Option<Value>) -> Option<Vector2> {
    match f {
        None => Some(Vector2 { x: Number::Int(0), y: Number::Int(0) }),
        Some(v) => if v is Object {
            match (number_of(field_of(v, "x"@)), number_of(field_of(v, "y"@))) {
                (Some(x), Some(y)) => Some(Vector2 { x, y }),
                _ => None,
            }
        } else {
            None
        },
    }
}

pub open spec fn file_reference_of(f: Option<Value>) -> Option<FileReference> {
    match asset_ref_of(f) {
        Some(c) => Some(FileReference { file_id: c.file_id, guid: c.guid, file_type: c.m_controller_type }),
        None => None,
    }
}

pub open spec fn render_data_of(f: Option<Value>) -> Option<RenderData> {
    match f {
        Some(v) => if v is Object {
            match (file_reference_of(field_of(v, "texture"@)), rect_of(field_of(v, "textureRect"@))) {
                (Some(texture), Some(texture_rect)) => Some(RenderData { texture, texture_rect }),
                _ => None,
            }
        } else {
            None
        },
        None => None,
    }
}

/// The sprite asset that a value tree describes: a mapping whose `Sprite`
/// holds `m_Rect`, `m_Offset` and the render data `m_RD`.
pub open spec fn sprite_asset_of(v: Value) -> Option<SpriteAsset> {
    if v is Object {
        match field_of(v, "Sprite"@) {
            Some(s) => if s is Object {
                match (
                    rect_of(field_of(s, "m_Rect"@)),
                    vector2_of(field_of(s, "m_Offset"@)),
                    render_data_of(field_of(s, "m_RD"@)),
                ) {
                    (Some(rect), Some(offset), Some(rd)) => Some(
                        SpriteAsset { sprite: Sprite { rect, offset, rd } },
                    ),
                    _ => None,
                }
            } else {
                None
            },
            None => None,
        }
    } else {
        None
    }
}

pub fn read_rect(m: &Value, key: &str) -> (r: Option<Rect>)
    ensures
        r == rect_of(field_of(*m, key@)),
{
    match m.field(key) {
        None => Some(
            Rect { x: Number::Int(0), y: Number::Int(0), width: Number::Int(0), height: Number::Int(0) },
        ),
        Some(v) => match v {
            Value::Object(_) => match (
                read_number(v, "x"),
                read_number(v, "y"),
                read_number(v, "width"),
                read_number(v, "height"),
            ) {
                (Some(x), Some(y), Some(width), Some(height)) => Some(Rect { x, y, width, height }),
                _ => None,
            },
            _ => None,
        },
    }
}

pub fn read_vector2(m: &Value, key: &str) -> (r: Option<Vector2>)
    ensures
        r == vector2_of(field_of(*m, key@)),
{
    match m.field(key) {
        None => Some(Vector2 { x: Number::Int(0), y: Number::Int(0) }),
        Some(v) => match v {
            Value::Object(_) => match (read_number(v, "x"), read_number(v, "y")) {
                (Some(x), Some(y)) => Some(Vector2 { x, y }),
                _ => None,
            },
            _ => None,
        },
    }
}

impl SpriteAsset {
    pub fn from_value(v: &Value) -> (r: Option<SpriteAsset>)
        ensures
            r == sprite_asset_of(*v),
    {
        match v {
            Value::Object(_) => {},
            _ => {
                return None;
            },
        }
        let s = match v.field("Sprite") {
            Some(s) => s,
            None => {
                return None;
            },
        };
        match s {
            Value::Object(_) => {},
            _ => {
                return None;
            },
        }
        let rd = match s.field("m_RD") {
            Some(rdv) => match rdv {
                Value::Object(_) => match (read_asset_ref(rdv, "texture"), read_rect(rdv, "textureRect")) {
                    (Some(c), Some(texture_rect)) => Some(
                        RenderData {
                            texture: FileReference {
                                file_id: c.file_id,
                                guid: c.guid,
                                file_type: c.m_controller_type,
                            },
                            texture_rect,
                        },
                    ),
                    _ => None,
                },
                _ => None,
            },
            None => None,
        };
        match (read_rect(s, "m_Rect"), read_vector2(s, "m_Offset"), rd) {
            (Some(rect), Some(offset), Some(rd)) => Some(SpriteAsset { sprite: Sprite { rect, offset, rd } }),
            _ => None,
        }
    }
}

/// Position of the document that holds the sprite record in a sprite asset
/// file: the loader hands out the two directive lines and the record's header
/// line as documents of their own before it.
pub const SPRITE_DOCUMENT: usize = 3;

/// The sprite asset that a sprite asset file's text describes, read from its
/// document at position `SPRITE_DOCUMENT`.
pub open spec fn asset_text_holds(text: Seq<char>, a: SpriteAsset) -> bool {
    exists|docs: Seq<Yaml>, v: Value|
        yaml_load(text) == Some(docs) && docs.len() > SPRITE_DOCUMENT && #[trigger] converts(
            docs[SPRITE_DOCUMENT as int],
            v,
            text.len() as nat,
        ) && sprite_asset_of(v) == Some(a)
}

/// Parses the text of a sprite asset file.
pub fn parse_sprite_asset(text: &str) -> (r: Option<SpriteAsset>)
    ensures
        r matches Some(a) ==> asset_text_holds(text@, a),
        r is None ==> forall|a: SpriteAsset| !asset_text_holds(text@, a),
{
    let cs = crate::text::chars_of(text);
    let n = cs.len();
    let docs = match load_documents(text) {
        Some(d) => d,
        None => {
            return None;
        },
    };
    assert(yaml_load(text@) == Some(docs@));
    if docs.len() <= SPRITE_DOCUMENT {
        return None;
    }
    match yaml_to_json(&docs[SPRITE_DOCUMENT], n) {
        Ok(v) => {
            let r = SpriteAsset::from_value(&v);
            assert(converts(docs@[SPRITE_DOCUMENT as int], v, text@.len() as nat));
            proof {
                if r is None {
                    assert forall|a: SpriteAsset| !asset_text_holds(text@, a) by {
                        if asset_text_holds(text@, a) {
                            let w = choose|w: Value|
                                #[trigger] converts(docs@[SPRITE_DOCUMENT as int], w, text@.len() as nat)
                                    && sprite_asset_of(w) == Some(a);
                            lemma_converts_unique(docs@[SPRITE_DOCUMENT as int], v, w, text@.len() as nat);
                        }
                    }
                }
            }
            r
        },
        Err(_) => {
            proof {
                assert forall|a: SpriteAsset| !asset_text_holds(text@, a) by {
                    if asset_text_holds(text@, a) {
                        let w = choose|w: Value|
                            #[trigger] converts(docs@[SPRITE_DOCUMENT as int], w, text@.len() as nat)
                                && sprite_asset_of(w) == Some(a);
                        lemma_converts_decodable(docs@[SPRITE_DOCUMENT as int], w, text@.len() as nat);
                    }
                }
            }
            None
        },
    }
}

/// The whole pixels that a number stands for, cut toward zero, negative
/// values to zero; `None` for a value beyond `u32::MAX` or a real that is not
/// a plain decimal.
pub open spec fn pixels_of(n: Number) -> Option<u32> {
    match n {
        Number::Int(i) => if i < 0 {
            Some(0)
        } else if i <= u32::MAX {
            Some(i as u32)
        } else {
            None
        },
        Number::Real(s) => match decimal_parts(s@) {
            Some((neg, ip)) => if neg {
                Some(0)
            } else if digits_value(ip) <= u32::MAX {
                Some(digits_value(ip) as u32)
            } else {
                None
            },
            None => None,
        },
    }
}

pub fn pixel_count(n: &Number) -> (r: Option<u32>)
    ensures
        r == pixels_of(*n),
{
    match n {
        Number::Int(i) => {
            if *i < 0 {
                Some(0)
            } else if *i > 4294967295i64 {
                None
            } else {
                Some(*i as u32)
            }
        },
        Number::Real(s) => match decimal_whole(s.as_str()) {
            None => None,
            Some((true, _)) => Some(0),
            Some((false, Some(v))) => {
                if v > 4294967295u64 {
                    None
                } else {
                    Some(v as u32)
                }
            },
            Some((false, None)) => None,
        },
    }
}

/// The top edge, counted from the image's top, of a rectangle whose bottom
/// edge lies `y` above the image's bottom.
pub open spec fn flipped_y(image_height: u32, y: u32, height: u32) -> Option<u32> {
    if y + height <= image_height {
        Some((image_height - y - height) as u32)
    } else {
        None
    }
}

/// Moves a rectangle's origin from the bottom edge of the image to its top.
pub fn flip_rect_y(image_height: u32, y: u32, height: u32) -> (r: Option<u32>)
    ensures
        r == flipped_y(image_height, y, height),
{
    if y > image_height || height > image_height - y {
        None
    } else {
        Some(image_height - y - height)
    }
}

/// The pixel window `(x, top, width, height)` of a texture rect in an image of
/// the given size, or `None` when it is empty, runs past the image, or is not
/// written in plain numbers.
pub open spec fn crop_window(w: u32, h: u32, rect: Rect) -> Option<(u32, u32, u32, u32)> {
    match (pixels_of(rect.x), pixels_of(rect.y), pixels_of(rect.width), pixels_of(rect.height)) {
        (Some(x), Some(y), Some(cw), Some(ch)) => if cw > 0 && ch > 0 && x + cw <= w {
            match flipped_y(h, y, ch) {
                Some(top) => Some((x, top, cw, ch)),
                None => None,
            }
        } else {
            None
        },
        _ => None,
    }
}

pub fn crop_window_for(w: u32, h: u32, rect: &Rect) -> (r: Option<(u32, u32, u32, u32)>)
    ensures
        r == crop_window(w, h, *rect),
{
    match (pixel_count(&rect.x), pixel_count(&rect.y), pixel_count(&rect.width), pixel_count(&rect.height)) {
        (Some(x), Some(y), Some(cw), Some(ch)) => {
            if cw > 0 && ch > 0 && x <= w && cw <= w - x {
                match flip_rect_y(h, y, ch) {
                    Some(top) => Some((x, top, cw, ch)),
                    None => None,
                }
            } else {
                None
            }
        },
        _ => None,
    }
}

impl Rect {
    pub fn duplicate(&self) -> (r: Rect)
        ensures
            r == *self,
    {
        Rect {
            x: self.x.duplicate(),
            y: self.y.duplicate(),
            width: self.width.duplicate(),
            height: self.height.duplicate(),
        }
    }
}

/// The rect info of a sprite's declared rect.
pub open spec fn rect_info(r: Rect) -> SpriteRectInfo {
    SpriteRectInfo { x: r.x, y: r.y, width: r.width, height: r.height }
}

/// The sprite that an atlas entry cuts out of its texture: the texture rect's
/// pixels, with the rect's `y` counted from the texture's bottom, as a PNG
/// data URI, with the sprite's own declared rect and offset. `None` when the
/// texture does not decode, the crop window is empty or runs past the
/// texture, or encoding fails.
pub fn atlas_sprite_info(asset: &SpriteAsset, texture: &[u8]) -> (r: Option<SpriteInfo>)
    ensures
        match decoded_size(texture@) {
            None => r is None,
            Some((w, h)) => match crop_window(w, h, asset.sprite.rd.texture_rect) {
                None => r is None,
                Some((x, top, cw, ch)) => match png_crop(texture@, x, top, cw, ch) {
                    Some(b) => r matches Some(i) && {
                        &&& i.base64 matches Some(u) && u@ == data_uri_text("image/png"@, base64_text(b))
                        &&& i.rect == rect_info(asset.sprite.rect)
                        &&& i.offset == asset.sprite.offset
                    },
                    None => r is None,
                },
            },
        },
{
    let (w, h) = match decode_size(texture) {
        Some(size) => size,
        None => {
            return None;
        },
    };
    let (x, top, cw, ch) = match crop_window_for(w, h, &asset.sprite.rd.texture_rect) {
        Some(win) => win,
        None => {
            return None;
        },
    };
    let png = match crop_to_png(texture, x, top, cw, ch) {
        Some(b) => b,
        None => {
            return None;
        },
    };
    let uri = match encode_data_uri("image/png", png.as_slice()) {
        Some(u) => u,
        None => {
            return None;
        },
    };
    let r = &asset.sprite.rect;
    Some(
        SpriteInfo {
            base64: Some(uri),
            rect: SpriteRectInfo {
                x: r.x.duplicate(),
                y: r.y.duplicate(),
                width: r.width.duplicate(),
                height: r.height.duplicate(),
            },
            offset: asset.sprite.offset.duplicate(),
        },
    )
}


/// Why an image could not be cropped.
#[derive(PartialEq, Eq, Structural, Clone, Copy, Debug)]
pub enum CropError {
    /// The bytes do not decode as an image.
    Decode,
    /// The origin lies outside the image, or the size is zero.
    InvalidRegion,
    /// The rectangle runs past the image's top.
    ExceedsHeight,
    /// The rectangle runs past the image's right edge.
    ExceedsWidth,
    /// The cut-out could not be encoded.
    Encode,
}

/// The image-space top of a crop rectangle whose `y` counts from the bottom,
/// or why the rectangle does not fit an image of the given size.
pub open spec fn crop_check(w: u32, h: u32, x: u32, y: u32, cw: u32, ch: u32) -> Result<u32, CropError> {
    if x >= w || y >= h || cw == 0 || ch == 0 {
        Err(CropError::InvalidRegion)
    } else if y + ch > h {
        Err(CropError::ExceedsHeight)
    } else if x + cw > w {
        Err(CropError::ExceedsWidth)
    } else {
        Ok((h - y - ch) as u32)
    }
}

/// Cuts the rectangle `(x, y, width, height)`, with `y` counted from the
/// image's bottom, out of an encoded image, pixel for pixel, and encodes it as
/// an RGBA PNG.
pub fn crop_image_from_bytes(image_bytes: &[u8], x: u32, y: u32, width: u32, height: u32) -> (r: Result<
    Vec<u8>,
    CropError,
>)
    ensures
        decoded_size(image_bytes@) is None ==> r == Err::<Vec<u8>, CropError>(CropError::Decode),
        decoded_size(image_bytes@) matches Some((w, h)) ==> match crop_check(w, h, x, y, width, height) {
            Err(e) => r == Err::<Vec<u8>, CropError>(e),
            Ok(top) => match png_crop(image_bytes@, x, top, width, height) {
                Some(b) => r matches Ok(out) && out@ == b,
                None => r == Err::<Vec<u8>, CropError>(CropError::Encode),
            },
        },
{
    let (w, h) = match decode_size(image_bytes) {
        Some(size) => size,
        None => {
            return Err(CropError::Decode);
        },
    };
    if x >= w || y >= h || width == 0 || height == 0 {
        return Err(CropError::InvalidRegion);
    }
    if height > h - y {
        return Err(CropError::ExceedsHeight);
    }
    let top = h - y - height;
    if width > w - x {
        return Err(CropError::ExceedsWidth);
    }
    match crop_to_png(image_bytes, x, top, width, height) {
        Some(b) => Ok(b),
        None => Err(CropError::Encode),
    }
}

/// Re-encodes an image as an RGBA PNG.
pub fn optimize_image_bytes(image_bytes: &[u8]) -> (r: Result<Vec<u8>, CropError>)
    ensures
        decoded_size(image_bytes@) is None ==> r == Err::<Vec<u8>, CropError>(CropError::Decode),
        decoded_size(image_bytes@) is Some ==> match png_rgba(image_bytes@) {
            Some(b) => r matches Ok(out) && out@ == b,
            None => r == Err::<Vec<u8>, CropError>(CropError::Encode),
        },
{
    if decode_size(image_bytes).is_none() {
        return Err(CropError::Decode);
    }
    match rgba_to_png(image_bytes) {
        Some(b) => Ok(b),
        None => Err(CropError::Encode),
    }
}

} // verus!
