//! Naming and decoding for exporting hero images to files.
use vstd::prelude::*;
use vstd::string::StringExecFns;
use base64::Engine;
use crate::text::{chars_of, push_char};

verus! {

/// One hero to export, with its avatar and skin images as base64 payloads.
#[derive(Debug, Clone, PartialEq)]
pub struct BulkExportHero {
    pub id: String,
    pub name: String,
    pub avatar: Option<String>,
    pub skins: Option<Vec<BulkExportSkin>>,
}

/// One skin image of a hero.
#[derive(Debug, Clone, PartialEq)]
pub struct BulkExportSkin {
    pub skin_id: String,
    pub color_id: Option<String>,
    pub image_data: String,
}

/// Progress of a bulk export, as reported to the front end.
#[derive(Debug, Clone, PartialEq)]
pub struct ExportProgress {
    pub current_hero: String,
    pub current_hero_index: usize,
    pub total_heroes: usize,
    pub current_item: String,
    pub current_item_index: usize,
    pub total_items: usize,
    pub completed: bool,
    pub error: Option<String>,
}

/// The bytes that a base64 text decodes to, when it is valid.
pub uninterp spec fn base64_bytes(text: Seq<char>) -> Option<Seq<u8>>;

/// Relies on `base64::engine::general_purpose::STANDARD.decode`: the bytes of
/// a padded base64 text, or nothing when the text is not valid base64.
#[verifier::external_body]
fn base64_decode(text: &str) -> (r: Option<Vec<u8>>)
    ensures
        r matches Some(b) ==> base64_bytes(text@) == Some(b@),
        r is None ==> base64_bytes(text@) is None,
{
    base64::engine::general_purpose::STANDARD.decode(text).ok()
}

/// A character kept as it is in a file name.
pub open spec fn keeps_char(c: char) -> bool {
    ('a' <= c && c <= 'z') || ('A' <= c && c <= 'Z') || ('0' <= c && c <= '9') || c == '-' || c == '_'
}

/// A name made safe for the file system: every character other than an ASCII
/// letter, digit, `-` or `_` becomes `_`.
pub open spec fn sanitized(name: Seq<char>) -> Seq<char> {
    name.map_values(|c: char| if keeps_char(c) { c } else { '_' })
}

/// Makes a name safe for use in a file name.
pub fn sanitize_file_name(name: &str) -> (r: String)
    ensures
        r@ == sanitized(name@),
{
    let cs = chars_of(name);
    let mut out = String::new();
    let mut i: usize = 0;
    while i < cs.len()
        invariant
            cs@ == name@,
            0 <= i <= cs@.len(),
            out@ == sanitized(cs@.subrange(0, i as int)),
        decreases cs@.len() - i,
    {
        let c = cs[i];
        let keep = ('a' <= c && c <= 'z') || ('A' <= c && c <= 'Z') || ('0' <= c && c <= '9') || c == '-'
            || c == '_';
        if keep {
            push_char(&mut out, c);
        } else {
            push_char(&mut out, '_');
        }
        assert(sanitized(cs@.subrange(0, i + 1)) =~= sanitized(cs@.subrange(0, i as int)).push(
            if keeps_char(c) { c } else { '_' },
        ));
        i = i + 1;
    }
    assert(cs@.subrange(0, i as int) =~= cs@);
    out
}

/// The payload of a PNG data URI; other texts are taken as they are.
pub open spec fn payload_text(data: Seq<char>) -> Seq<char> {
    if data.len() >= 22 && data.subrange(0, 22) == "data:image/png;base64,"@ {
        data.subrange(22, data.len() as int)
    } else {
        data
    }
}

/// Drops a `data:image/png;base64,` prefix.
pub fn strip_png_data_prefix(data: &str) -> (r: String)
    ensures
        r@ == payload_text(data@),
{
    let cs = chars_of(data);
    let prefix = chars_of("data:image/png;base64,");
    proof {
        reveal_strlit("data:image/png;base64,");
    }
    let prefixed = crate::text::starts_with_chars(&cs, &prefix);
    let from: usize = if prefixed { 22 } else { 0 };
    let mut out = String::new();
    let mut i: usize = from;
    while i < cs.len()
        invariant
            cs@ == data@,
            from <= i <= cs@.len(),
            out@ == cs@.subrange(from as int, i as int),
        decreases cs@.len() - i,
    {
        push_char(&mut out, cs[i]);
        assert(out@ =~= cs@.subrange(from as int, i + 1));
        i = i + 1;
    }
    if !prefixed {
        assert(out@ =~= data@);
    }
    out
}

/// The image bytes of a base64 payload, with or without its PNG data-URI prefix.
pub fn decode_image_payload(data: &str) -> (r: Option<Vec<u8>>)
    ensures
        r matches Some(b) ==> base64_bytes(payload_text(data@)) == Some(b@),
        r is None ==> base64_bytes(payload_text(data@)) is None,
{
    let clean = strip_png_data_prefix(data);
    base64_decode(clean.as_str())
}

/// `skin_<id>` or `skin_<id>_<color>`.
pub open spec fn skin_info_text(skin_id: Seq<char>, color: Option<Seq<char>>) -> Seq<char> {
    match color {
        Some(c) => "skin_"@ + skin_id + "_"@ + c,
        None => "skin_"@ + skin_id,
    }
}

/// Names a skin image: its id and, if given, its color.
pub fn skin_info(skin_id: &str, color_id: &Option<String>) -> (r: String)
    ensures
        r@ == skin_info_text(
            skin_id@,
            match color_id {
                Some(c) => Some(c@),
                None => None,
            },
        ),
{
    let mut s = String::from_str("skin_");
    s.append(skin_id);
    match color_id {
        Some(c) => {
            s.append("_");
            s.append(c.as_str());
        },
        None => {},
    }
    s
}

/// `<dir>/<name>_avatar.png` for a sanitized hero name.
pub fn avatar_path(dir: &str, hero_name: &str) -> (r: String)
    ensures
        r@ == dir@ + "/"@ + sanitized(hero_name@) + "_avatar.png"@,
{
    let s = sanitize_file_name(hero_name);
    let mut out = String::from_str(dir);
    out.append("/");
    out.append(s.as_str());
    out.append("_avatar.png");
    out
}

/// `<dir>/<name>_<skin info>.png` for a sanitized hero name.
pub fn skin_path(dir: &str, hero_name: &str, info: &str) -> (r: String)
    ensures
        r@ == dir@ + "/"@ + sanitized(hero_name@) + "_"@ + info@ + ".png"@,
{
    let s = sanitize_file_name(hero_name);
    let mut out = String::from_str(dir);
    out.append("/");
    out.append(s.as_str());
    out.append("_");
    out.append(info);
    out.append(".png");
    out
}

/// `<dir>/<name>_<id>`: the folder of one hero in a bulk export.
pub fn hero_dir(dir: &str, hero_name: &str, hero_id: &str) -> (r: String)
    ensures
        r@ == dir@ + "/"@ + sanitized(hero_name@) + "_"@ + hero_id@,
{
    let s = sanitize_file_name(hero_name);
    let mut out = String::from_str(dir);
    out.append("/");
    out.append(s.as_str());
    out.append("_");
    out.append(hero_id);
    out
}

} // verus!
