//! Decisions of the package acquisition step: which archive entries to keep,
//! the version a package file names, and what the download tool reports.
use vstd::prelude::*;
use vstd::string::StringExecFns;
use crate::asset_crop::{index_from, trimmed, trim_chars};
use crate::strings::{contains_chars, contains_text, ends_with_text, has_suffix};
use crate::text::{chars_of, has_prefix, push_char, starts_with_chars};

verus! {

/// The part a file plays in a split package.
#[derive(PartialEq, Eq, Structural, Clone, Copy, Debug)]
pub enum ApkRole {
    /// `base_assets.apk`, which holds the game's assets.
    BaseAssets,
    /// A `config.*.apk`, whose `lib` folder is merged into the assets.
    Config,
    /// Anything else, removed before extraction.
    Other,
}

pub open spec fn apk_role_of(name: Seq<char>) -> ApkRole {
    if name == "base_assets.apk"@ {
        ApkRole::BaseAssets
    } else if has_prefix(name, "config."@) && has_suffix(name, ".apk"@) {
        ApkRole::Config
    } else {
        ApkRole::Other
    }
}

/// The part that the file `name` of an unpacked package plays.
pub fn apk_role(name: &str) -> (r: ApkRole)
    ensures
        r == apk_role_of(name@),
{
    let cs = chars_of(name);
    let base = chars_of("base_assets.apk");
    if crate::value::same_chars(&cs, &base) {
        return ApkRole::BaseAssets;
    }
    if starts_with_chars(&cs, &chars_of("config.")) && ends_with_text(name, ".apk") {
        ApkRole::Config
    } else {
        ApkRole::Other
    }
}

/// The text between the first and the second `@` of a package file's stem:
/// `<app_id>@<version>`.
pub open spec fn version_of_stem(stem: Seq<char>) -> Option<Seq<char>> {
    let a = index_from(stem, '@', 0);
    if a >= stem.len() {
        None
    } else {
        Some(stem.subrange(a + 1, index_from(stem, '@', a + 1)))
    }
}

fn at_index(s: &Vec<char>, c: char, from: usize) -> (r: usize)
    requires
        from <= s@.len(),
    ensures
        r == index_from(s@, c, from as int),
        from <= r <= s@.len(),
{
    let mut i: usize = from;
    while i < s.len() && s[i] != c
        invariant
            from <= i <= s@.len(),
            index_from(s@, c, from as int) == index_from(s@, c, i as int),
        decreases s@.len() - i,
    {
        i = i + 1;
    }
    i
}

fn string_of(s: &Vec<char>, a: usize, b: usize) -> (r: String)
    requires
        a <= b <= s@.len(),
    ensures
        r@ == s@.subrange(a as int, b as int),
{
    let mut out = String::new();
    let mut k: usize = a;
    while k < b
        invariant
            a <= k <= b <= s@.len(),
            out@ == s@.subrange(a as int, k as int),
        decreases b - k,
    {
        push_char(&mut out, s[k]);
        assert(out@ =~= s@.subrange(a as int, k + 1));
        k = k + 1;
    }
    out
}

/// The version that a package file's stem names.
pub fn package_version(stem: &str) -> (r: Option<String>)
    ensures
        r matches Some(v) ==> version_of_stem(stem@) == Some(v@),
        r is None ==> version_of_stem(stem@) is None,
{
    let cs = chars_of(stem);
    let a = at_index(&cs, '@', 0);
    if a >= cs.len() {
        return None;
    }
    let b = at_index(&cs, '@', a + 1);
    Some(string_of(&cs, a + 1, b))
}

/// `<app>@<version>`, or the app id alone.
pub fn download_target(app_name: &str, version: &Option<String>) -> (r: String)
    ensures
        r@ == match version {
            Some(v) => app_name@ + "@"@ + v@,
            None => app_name@,
        },
{
    let mut s = String::from_str(app_name);
    match version {
        Some(v) => {
            s.append("@");
            s.append(v.as_str());
        },
        None => {},
    }
    s
}

/// The short name of an operating system the asset extractor is built for.
pub open spec fn os_short_name_of(os: Seq<char>) -> Option<Seq<char>> {
    if os == "windows"@ {
        Some("win"@)
    } else if os == "linux"@ {
        Some("linux"@)
    } else {
        None
    }
}

pub fn os_short_name(os: &str) -> (r: Option<String>)
    ensures
        r matches Some(s) ==> os_short_name_of(os@) == Some(s@),
        r is None ==> os_short_name_of(os@) is None,
{
    let cs = chars_of(os);
    if crate::value::same_chars(&cs, &chars_of("windows")) {
        Some(String::from_str("win"))
    } else if crate::value::same_chars(&cs, &chars_of("linux")) {
        Some(String::from_str("linux"))
    } else {
        None
    }
}

/// Where the asset extractor lies below the working directory.
pub fn asset_ripper_path(cwd: &str, os_short: &str) -> (r: String)
    ensures
        r@ == cwd@ + "/binaries/asset-ripper/"@ + os_short@ + "-x64/AssetRipper.GUI.Free"@,
{
    let mut s = String::from_str(cwd);
    s.append("/binaries/asset-ripper/");
    s.append(os_short);
    s.append("-x64/AssetRipper.GUI.Free");
    s
}

/// Whether a character is numeric, as `char::is_numeric` says.
pub uninterp spec fn numeric_char(c: char) -> bool;

/// Relies on `char::is_numeric`: the Unicode numeric categories.
#[verifier::external_body]
fn is_numeric(c: char) -> (r: bool)
    ensures
        r == numeric_char(c),
{
    c.is_numeric()
}

/// A listed item that names a version: not empty, with a digit, and not part
/// of the tool's own wording.
pub open spec fn is_version_item(v: Seq<char>) -> bool {
    &&& v.len() > 0
    &&& exists|i: int| 0 <= i < v.len() && numeric_char(#[trigger] v[i])
    &&& !contains_text(v, "Versions"@)
    &&& !contains_text(v, "available"@)
}

fn has_numeric(v: &Vec<char>) -> (r: bool)
    ensures
        r == exists|i: int| 0 <= i < v@.len() && numeric_char(#[trigger] v@[i]),
{
    let mut i: usize = 0;
    while i < v.len()
        invariant
            0 <= i <= v@.len(),
            forall|j: int| 0 <= j < i ==> !numeric_char(#[trigger] v@[j]),
        decreases v@.len() - i,
    {
        if is_numeric(v[i]) {
            return true;
        }
        i = i + 1;
    }
    false
}

/// Whether a trimmed list item names a version.
pub fn version_item(v: &Vec<char>) -> (r: bool)
    ensures
        r == is_version_item(v@),
{
    v.len() > 0 && has_numeric(v) && !contains_chars(v, &chars_of("Versions")) && !contains_chars(
        v,
        &chars_of("available"),
    )
}

/// The position of the first `| ` at or after `i`.
pub open spec fn bar_from(t: Seq<char>, i: int) -> Option<int>
    decreases t.len() - i,
{
    if i < 0 || i + 1 >= t.len() {
        None
    } else if t[i] == '|' && t[i + 1] == ' ' {
        Some(i)
    } else {
        bar_from(t, i + 1)
    }
}

/// The pieces of `s` from position `i` on, split at each `, `; `cur` is the
/// piece read so far.
pub open spec fn pieces_from(s: Seq<char>, i: int, cur: Seq<char>) -> Seq<Seq<char>>
    decreases s.len() - i,
{
    if i < 0 || i >= s.len() {
        seq![cur]
    } else if i + 1 < s.len() && s[i] == ',' && s[i + 1] == ' ' {
        seq![cur] + pieces_from(s, i + 2, seq![])
    } else {
        pieces_from(s, i + 1, cur.push(s[i]))
    }
}

/// The trimmed pieces among the first `n` that name versions.
pub open spec fn versions_among(pieces: Seq<Seq<char>>, n: int) -> Seq<Seq<char>>
    decreases n,
{
    if n <= 0 || n > pieces.len() {
        seq![]
    } else if is_version_item(trimmed(pieces[n - 1])) {
        versions_among(pieces, n - 1).push(trimmed(pieces[n - 1]))
    } else {
        versions_among(pieces, n - 1)
    }
}

/// The versions that the download tool lists: with line breaks read as
/// spaces, the `, `-separated items after the first `| `.
pub open spec fn listed_versions(out: Seq<char>) -> Seq<Seq<char>> {
    let t = out.map_values(|c: char| if c == '\n' { ' ' } else { c });
    match bar_from(t, 0) {
        Some(p) => {
            let pieces = pieces_from(t, p + 2, seq![]);
            versions_among(pieces, pieces.len() as int)
        },
        None => seq![],
    }
}

/// Reads the version list out of the download tool's output.
pub fn parse_versions(output: &str) -> (r: Vec<String>)
    ensures
        r@.map_values(|s: String| s@) == listed_versions(output@),
{
    let raw = chars_of(output);
    let mut t: Vec<char> = Vec::new();
    let mut i: usize = 0;
    while i < raw.len()
        invariant
            0 <= i <= raw@.len(),
            t@ == raw@.subrange(0, i as int).map_values(|c: char| if c == '\n' { ' ' } else { c }),
        decreases raw@.len() - i,
    {
        let c = raw[i];
        t.push(if c == '\n' { ' ' } else { c });
        assert(t@ =~= raw@.subrange(0, i + 1).map_values(|c: char| if c == '\n' { ' ' } else { c }));
        i = i + 1;
    }
    assert(raw@.subrange(0, i as int) =~= raw@);
    let ghost tv = t@;
    assert(tv == output@.map_values(|c: char| if c == '\n' { ' ' } else { c }));
    let mut p: usize = 0;
    loop
        invariant
            tv == t@,
            tv == output@.map_values(|c: char| if c == '\n' { ' ' } else { c }),
            0 <= p <= t@.len(),
            bar_from(tv, 0) == bar_from(tv, p as int),
        ensures
            p + 1 < t@.len(),
            bar_from(tv, 0) == Some(p as int),
        decreases t@.len() - p,
    {
        if t.len() - p < 2 {
            return Vec::new();
        }
        if t[p] == '|' && t[p + 1] == ' ' {
            break;
        }
        p = p + 1;
    }
    let mut pieces: Vec<Vec<char>> = Vec::new();
    let mut cur: Vec<char> = Vec::new();
    let mut k: usize = p + 2;
    while k < t.len()
        invariant
            tv == t@,
            tv == output@.map_values(|c: char| if c == '\n' { ' ' } else { c }),
            bar_from(tv, 0) == Some(p as int),
            p + 2 <= k <= t@.len(),
            pieces@.map_values(|l: Vec<char>| l@) + pieces_from(tv, k as int, cur@) == pieces_from(
                tv,
                p + 2,
                seq![],
            ),
        decreases t@.len() - k,
    {
        let ghost before = pieces@.map_values(|l: Vec<char>| l@);
        if k + 1 < t.len() && t[k] == ',' && t[k + 1] == ' ' {
            let ghost whole = cur@;
            pieces.push(cur);
            cur = Vec::new();
            assert(pieces@.map_values(|l: Vec<char>| l@) =~= before.push(whole));
            assert(before + pieces_from(tv, k as int, whole) =~= before.push(whole) + pieces_from(
                tv,
                k + 2,
                seq![],
            ));
            k = k + 2;
        } else {
            cur.push(t[k]);
            k = k + 1;
        }
    }
    let ghost before = pieces@.map_values(|l: Vec<char>| l@);
    let ghost last = cur@;
    pieces.push(cur);
    assert(pieces@.map_values(|l: Vec<char>| l@) =~= before + pieces_from(tv, k as int, last));
    let ghost pv = pieces@.map_values(|l: Vec<char>| l@);
    let mut out: Vec<String> = Vec::new();
    let mut j: usize = 0;
    while j < pieces.len()
        invariant
            pv == pieces@.map_values(|l: Vec<char>| l@),
            pv == pieces_from(tv, p + 2, seq![]),
            tv == output@.map_values(|c: char| if c == '\n' { ' ' } else { c }),
            bar_from(tv, 0) == Some(p as int),
            0 <= j <= pieces@.len(),
            out@.map_values(|s: String| s@) == versions_among(pv, j as int),
        decreases pieces@.len() - j,
    {
        assert(pv[j as int] == pieces@[j as int]@);
        let v = trim_chars(&pieces[j]);
        if version_item(&v) {
            let ghost before_out = out@.map_values(|s: String| s@);
            let sv = string_of(&v, 0, v.len());
            assert(v@.subrange(0, v@.len() as int) =~= v@);
            out.push(sv);
            assert(out@.map_values(|s: String| s@) =~= before_out.push(trimmed(pv[j as int])));
        }
        j = j + 1;
    }
    out
}

} // verus!
