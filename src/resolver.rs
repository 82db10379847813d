//! Resolving a guid to an asset file: which sidecar metadata files to search,
//! in what order, how a sidecar declares a guid, and which file it describes.
use vstd::prelude::*;
use vstd::string::StringExecFns;
use crate::records::{PrefabElement, Record};
use crate::strings::{drop_last_chars, ends_with_text, has_suffix};
use crate::text::{chars_of, lines_of, split_lines};
use crate::value::same_chars;

verus! {

/// The search patterns for sidecar files, in search order: the unit image
/// folders first, then the whole asset tree.
pub open spec fn meta_pattern_texts(project: Seq<char>, ext: Seq<char>) -> Seq<Seq<char>> {
    seq![
        project + "/Assets/00_Unit/#Image/**/*."@ + ext + ".meta"@,
        project + "/Assets/00_Unit/#Image/**/*.meta"@,
        project + "/Assets/00_Unit/SpriteAtlas/**/*.meta"@,
        project + "/Assets/**/*."@ + ext + ".meta"@,
        project + "/Assets/**/*.meta"@,
    ]
}

fn joined3(a: &str, b: &str, c: &str) -> (r: String)
    ensures
        r@ == a@ + b@ + c@,
{
    let mut s = String::from_str(a);
    s.append(b);
    s.append(c);
    s
}

/// The glob patterns of the sidecar files that may describe an asset with
/// extension `extension` under project root `project`, in search order.
pub fn meta_patterns(project: &str, extension: &str) -> (r: Vec<String>)
    ensures
        r@.map_values(|s: String| s@) == meta_pattern_texts(project@, extension@),
{
    let mut out: Vec<String> = Vec::new();
    let mut p0 = joined3(project, "/Assets/00_Unit/#Image/**/*.", extension);
    p0.append(".meta");
    out.push(p0);
    out.push(String::from_str(project).concat("/Assets/00_Unit/#Image/**/*.meta"));
    out.push(String::from_str(project).concat("/Assets/00_Unit/SpriteAtlas/**/*.meta"));
    let mut p3 = joined3(project, "/Assets/**/*.", extension);
    p3.append(".meta");
    out.push(p3);
    out.push(String::from_str(project).concat("/Assets/**/*.meta"));
    assert(out@.map_values(|s: String| s@) =~= meta_pattern_texts(project@, extension@));
    out
}

/// A sidecar's text declares `guid`: one of its lines is `guid: <guid>`.
pub open spec fn declares_guid(content: Seq<char>, guid: Seq<char>) -> bool {
    lines_of(content).contains("guid: "@ + guid)
}

/// Whether a sidecar's text declares `guid`.
pub fn meta_declares_guid(content: &str, guid: &str) -> (r: bool)
    ensures
        r == declares_guid(content@, guid@),
{
    let needle = String::from_str("guid: ").concat(guid);
    let target = chars_of(needle.as_str());
    let lines = split_lines(&chars_of(content));
    let ghost lv = lines@.map_values(|l: Vec<char>| l@);
    let mut i: usize = 0;
    while i < lines.len()
        invariant
            0 <= i <= lines@.len(),
            lv == lines@.map_values(|l: Vec<char>| l@),
            lv == lines_of(content@),
            target@ == "guid: "@ + guid@,
            forall|j: int| 0 <= j < i ==> lv[j] != target@,
        decreases lines@.len() - i,
    {
        if same_chars(&lines[i], &target) {
            assert(lv[i as int] == target@);
            return true;
        }
        i = i + 1;
    }
    false
}

/// The file that a sidecar describes: its path without the `.meta` suffix.
pub open spec fn described_path(meta: Seq<char>) -> Option<Seq<char>> {
    if has_suffix(meta, ".meta"@) && meta.len() > 5 {
        Some(meta.subrange(0, meta.len() - 5))
    } else {
        None
    }
}

/// The path of the file that a sidecar describes.
pub fn asset_path_of_meta(meta_path: &str) -> (r: Option<String>)
    ensures
        r matches Some(p) ==> described_path(meta_path@) == Some(p@),
        r is None ==> described_path(meta_path@) is None,
{
    proof {
        reveal_strlit(".meta");
    }
    if ends_with_text(meta_path, ".meta") && crate::text::chars_of(meta_path).len() > 5 {
        Some(drop_last_chars(meta_path, 5))
    } else {
        None
    }
}

/// The extensions tried, in order, when resolving a sprite guid.
pub fn sprite_extensions() -> (r: Vec<&'static str>)
    ensures
        r@.map_values(|s: &str| s@) == seq!["asset"@, "png"@, "jpg"@],
{
    let v = vec!["asset", "png", "jpg"];
    assert(v@.map_values(|s: &str| s@) =~= seq!["asset"@, "png"@, "jpg"@]);
    v
}

/// The extensions tried, in order, when resolving a texture guid.
pub fn texture_extensions() -> (r: Vec<&'static str>)
    ensures
        r@.map_values(|s: &str| s@) == seq!["png"@, "jpg"@],
{
    let v = vec!["png", "jpg"];
    assert(v@.map_values(|s: &str| s@) =~= seq!["png"@, "jpg"@]);
    v
}

/// The guid that the sprite renderer of record `e` names, if any.
pub open spec fn sprite_guid_of(e: PrefabElement) -> Option<Seq<char>> {
    match e.record {
        Record::SpriteRenderer(sr) => match sr.m_sprite.guid {
            Some(g) => Some(g@),
            None => None,
        },
        _ => None,
    }
}

/// Some record among the first `n` names sprite guid `g`.
pub open spec fn named_among(els: Seq<PrefabElement>, n: int, g: Seq<char>) -> bool {
    exists|i: int| 0 <= i < n && sprite_guid_of(#[trigger] els[i]) == Some(g)
}

/// The sprite guids that the renderers of a record set name, each once, in
/// order of first appearance.
pub fn sprite_guids(els: &Vec<PrefabElement>) -> (r: Vec<String>)
    ensures
        forall|i: int| 0 <= i < els@.len() && sprite_guid_of(#[trigger] els@[i]) is Some ==> exists|k: int|
            0 <= k < r@.len() && sprite_guid_of(els@[i]) == Some(#[trigger] r@[k]@),
        forall|k: int| 0 <= k < r@.len() ==> named_among(els@, els@.len() as int, #[trigger] r@[k]@),
        forall|k: int, l: int| 0 <= k < l < r@.len() ==> r@[k]@ != r@[l]@,
{
    let mut out: Vec<String> = Vec::new();
    let mut i: usize = 0;
    while i < els.len()
        invariant
            0 <= i <= els@.len(),
            forall|j: int| 0 <= j < i && sprite_guid_of(#[trigger] els@[j]) is Some ==> exists|k: int|
                0 <= k < out@.len() && sprite_guid_of(els@[j]) == Some(#[trigger] out@[k]@),
            forall|k: int| 0 <= k < out@.len() ==> named_among(els@, i as int, #[trigger] out@[k]@),
            forall|k: int, l: int| 0 <= k < l < out@.len() ==> out@[k]@ != out@[l]@,
        decreases els@.len() - i,
    {
        if let Record::SpriteRenderer(sr) = &els[i].record {
            if let Some(g) = &sr.m_sprite.guid {
                let mut seen = false;
                let mut k: usize = 0;
                while k < out.len()
                    invariant
                        0 <= k <= out@.len(),
                        seen ==> exists|m: int| 0 <= m < out@.len() && out@[m]@ == g@,
                        !seen ==> forall|m: int| 0 <= m < k ==> out@[m]@ != g@,
                    decreases out@.len() - k,
                {
                    if out[k] == *g {
                        seen = true;
                    }
                    k = k + 1;
                }
                if !seen {
                    let ghost before = out@;
                    out.push(g.clone());
                    assert(out@[out@.len() - 1]@ == g@);
                    assert forall|kk: int| 0 <= kk < out@.len() implies named_among(els@, i + 1, #[trigger] out@[kk]@) by {
                        if kk == out@.len() - 1 {
                            assert(sprite_guid_of(els@[i as int]) == Some(out@[kk]@));
                        } else {
                            assert(out@[kk] == before[kk]);
                            assert(named_among(els@, i as int, before[kk]@));
                        }
                    }
                    assert forall|j: int| 0 <= j < i && sprite_guid_of(#[trigger] els@[j]) is Some implies exists|kk: int|
                        0 <= kk < out@.len() && sprite_guid_of(els@[j]) == Some(#[trigger] out@[kk]@) by {
                        let kk = choose|kk: int| 0 <= kk < before.len() && sprite_guid_of(els@[j]) == Some(#[trigger] before[kk]@);
                        assert(out@[kk] == before[kk]);
                    }
                } else {
                    assert(sprite_guid_of(els@[i as int]) == Some(g@));
                    assert forall|kk: int| 0 <= kk < out@.len() implies named_among(els@, i + 1, #[trigger] out@[kk]@) by {
                        assert(named_among(els@, i as int, out@[kk]@));
                    }
                }
            } else {
                assert forall|kk: int| 0 <= kk < out@.len() implies named_among(els@, i + 1, #[trigger] out@[kk]@) by {
                    assert(named_among(els@, i as int, out@[kk]@));
                }
            }
        } else {
            assert forall|kk: int| 0 <= kk < out@.len() implies named_among(els@, i + 1, #[trigger] out@[kk]@) by {
                assert(named_among(els@, i as int, out@[kk]@));
            }
        }
        i = i + 1;
    }
    out
}

} // verus!
