//! Reading a sprite's crop rectangle out of a sprite asset's text, line by line.
use vstd::prelude::*;
use crate::strings::{contains_chars, contains_text};
use crate::text::{chars_of, has_prefix, is_space, lines_of, split_lines, starts_with_chars, truncated_u32, truncate_decimal, push_char};

verus! {

/// A crop rectangle in whole pixels.
#[derive(Debug, Clone, PartialEq)]
pub struct AssetCropInfo {
    pub x: u32,
    pub y: u32,
    pub width: u32,
    pub height: u32,
}

/// Why no crop rectangle was found.
#[derive(PartialEq, Eq, Structural, Clone, Copy, Debug)]
pub enum AssetParseError {
    /// No rect with a non-zero width and height was found.
    NoDimensions,
}

/// The first position at or after `i` that is not white space, or the length.
pub open spec fn first_solid(s: Seq<char>, i: int) -> int
    decreases s.len() - i,
{
    if i < 0 || i >= s.len() {
        s.len() as int
    } else if !is_space(s[i]) {
        i
    } else {
        first_solid(s, i + 1)
    }
}

/// The end of `s[..j]` without its trailing white space.
pub open spec fn solid_end(s: Seq<char>, j: int) -> int
    decreases j,
{
    if j <= 0 || j > s.len() {
        0
    } else if !is_space(s[j - 1]) {
        j
    } else {
        solid_end(s, j - 1)
    }
}

/// `s` without white space at either end.
pub open spec fn trimmed(s: Seq<char>) -> Seq<char> {
    let a = first_solid(s, 0);
    let b = solid_end(s, s.len() as int);
    if a < b {
        s.subrange(a, b)
    } else {
        seq![]
    }
}

/// The first position of `c` at or after `i`, or the length.
pub open spec fn index_from(s: Seq<char>, c: char, i: int) -> int
    decreases s.len() - i,
{
    if i < 0 || i >= s.len() {
        s.len() as int
    } else if s[i] == c {
        i
    } else {
        index_from(s, c, i + 1)
    }
}

/// The text between the first and the second colon of a line (or its end).
pub open spec fn second_piece(s: Seq<char>) -> Option<Seq<char>> {
    let a = index_from(s, ':', 0);
    if a >= s.len() {
        None
    } else {
        Some(s.subrange(a + 1, index_from(s, ':', a + 1)))
    }
}

/// The whole-pixel value a `key: value` line gives, zero when there is none.
pub open spec fn line_value(line: Seq<char>) -> u32 {
    match second_piece(line) {
        Some(p) => match truncated_u32(trimmed(p)) {
            Some(v) => v,
            None => 0,
        },
        None => 0,
    }
}

/// The rectangle as the up to nine lines after a rect line at `i` set it:
/// `x:`, `y:` and `width:` lines set their value, a `height:` line sets its
/// value and ends the block.
pub open spec fn scan_block(ts: Seq<Seq<char>>, i: int, j: int, st: (u32, u32, u32, u32)) -> (u32, u32, u32, u32)
    decreases 10 - j,
{
    if j >= 10 || j < 1 || i < 0 || i + j >= ts.len() {
        st
    } else {
        let nl = ts[i + j];
        if has_prefix(nl, "x:"@) {
            scan_block(ts, i, j + 1, (line_value(nl), st.1, st.2, st.3))
        } else if has_prefix(nl, "y:"@) {
            scan_block(ts, i, j + 1, (st.0, line_value(nl), st.2, st.3))
        } else if has_prefix(nl, "width:"@) {
            scan_block(ts, i, j + 1, (st.0, st.1, line_value(nl), st.3))
        } else if has_prefix(nl, "height:"@) {
            (st.0, st.1, st.2, line_value(nl))
        } else {
            scan_block(ts, i, j + 1, st)
        }
    }
}

/// A trimmed line that opens a rect block.
pub open spec fn opens_rect(t: Seq<char>) -> bool {
    contains_text(t, "m_Rect:"@) || contains_text(t, "rect:"@)
}

/// The rectangle after reading the trimmed lines from `i` on.
pub open spec fn scan_lines(ts: Seq<Seq<char>>, i: int, st: (u32, u32, u32, u32)) -> (u32, u32, u32, u32)
    decreases ts.len() - i,
{
    if i < 0 || i >= ts.len() {
        st
    } else {
        scan_lines(ts, i + 1, if opens_rect(ts[i]) { scan_block(ts, i, 1, st) } else { st })
    }
}

/// The crop rectangle that a sprite asset's text gives.
pub open spec fn asset_crop_of(content: Seq<char>) -> Result<(u32, u32, u32, u32), AssetParseError> {
    let ts = lines_of(content).map_values(|l: Seq<char>| trimmed(l));
    let st = scan_lines(ts, 0, (0, 0, 0, 0));
    if st.2 == 0 || st.3 == 0 {
        Err(AssetParseError::NoDimensions)
    } else {
        Ok(st)
    }
}

/// `s` without white space at either end.
pub fn trim_chars(s: &Vec<char>) -> (r: Vec<char>)
    ensures
        r@ == trimmed(s@),
{
    let mut a: usize = 0;
    while a < s.len() && crate::text::space_char(s[a])
        invariant
            0 <= a <= s@.len(),
            first_solid(s@, 0) == first_solid(s@, a as int),
        decreases s@.len() - a,
    {
        a = a + 1;
    }
    let mut b: usize = s.len();
    while b > 0 && crate::text::space_char(s[b - 1])
        invariant
            0 <= b <= s@.len(),
            solid_end(s@, s@.len() as int) == solid_end(s@, b as int),
        decreases b,
    {
        b = b - 1;
    }
    let mut out: Vec<char> = Vec::new();
    if a < b {
        let mut k: usize = a;
        while k < b
            invariant
                a <= k <= b <= s@.len(),
                out@ == s@.subrange(a as int, k as int),
            decreases b - k,
        {
            out.push(s[k]);
            assert(out@ =~= s@.subrange(a as int, k + 1));
            k = k + 1;
        }
    } else {
        assert(out@ =~= seq![]);
    }
    out
}

fn index_of(s: &Vec<char>, c: char, from: usize) -> (r: usize)
    requires
        from <= s@.len(),
    ensures
        r == index_from(s@, c, from as int),
        from <= r <= s@.len(),
{
    let mut i: usize = from;
    while i < s.len() && s[i] != c
        invariant
            from <= i <= s@.len(),
            index_from(s@, c, from as int) == index_from(s@, c, i as int),
        decreases s@.len() - i,
    {
        i = i + 1;
    }
    i
}

/// The whole-pixel value of a `key: value` line.
pub fn parse_line_value(line: &Vec<char>) -> (r: u32)
    ensures
        r == line_value(line@),
{
    let a = index_of(line, ':', 0);
    if a >= line.len() {
        return 0;
    }
    let b = index_of(line, ':', a + 1);
    let mut piece: Vec<char> = Vec::new();
    let mut k: usize = a + 1;
    while k < b
        invariant
            a + 1 <= k <= b <= line@.len(),
            piece@ == line@.subrange(a + 1, k as int),
        decreases b - k,
    {
        piece.push(line[k]);
        assert(piece@ =~= line@.subrange(a + 1, k + 1));
        k = k + 1;
    }
    let t = trim_chars(&piece);
    let mut text = String::new();
    let mut m: usize = 0;
    while m < t.len()
        invariant
            0 <= m <= t@.len(),
            text@ == t@.subrange(0, m as int),
        decreases t@.len() - m,
    {
        push_char(&mut text, t[m]);
        assert(text@ =~= t@.subrange(0, m + 1));
        m = m + 1;
    }
    assert(t@.subrange(0, m as int) =~= t@);
    match truncate_decimal(text.as_str()) {
        Some(v) => v,
        None => 0,
    }
}

fn prefixed(line: &Vec<char>, p: &str) -> (r: bool)
    ensures
        r == has_prefix(line@, p@),
{
    starts_with_chars(line, &chars_of(p))
}

fn scan_block_exec(ts: &Vec<Vec<char>>, i: usize, st: (u32, u32, u32, u32)) -> (r: (u32, u32, u32, u32))
    requires
        i < ts@.len(),
    ensures
        r == scan_block(ts@.map_values(|l: Vec<char>| l@), i as int, 1, st),
{
    let ghost tv = ts@.map_values(|l: Vec<char>| l@);
    let mut cur = st;
    let mut j: usize = 1;
    while j < 10
        invariant
            i < ts@.len(),
            tv == ts@.map_values(|l: Vec<char>| l@),
            1 <= j <= 10,
            scan_block(tv, i as int, 1, st) == scan_block(tv, i as int, j as int, cur),
        decreases 10 - j,
    {
        if j >= ts.len() - i {
            return cur;
        }
        let nl = &ts[i + j];
        assert(tv[i + j] == nl@);
        if prefixed(nl, "x:") {
            cur = (parse_line_value(nl), cur.1, cur.2, cur.3);
        } else if prefixed(nl, "y:") {
            cur = (cur.0, parse_line_value(nl), cur.2, cur.3);
        } else if prefixed(nl, "width:") {
            cur = (cur.0, cur.1, parse_line_value(nl), cur.3);
        } else if prefixed(nl, "height:") {
            return (cur.0, cur.1, cur.2, parse_line_value(nl));
        }
        j = j + 1;
    }
    cur
}

/// Reads a sprite's crop rectangle from a sprite asset's text: after each line
/// holding `m_Rect:` or `rect:`, the next lines starting with `x:`, `y:`,
/// `width:` and `height:` give its values. Fails when width or height stays zero.
pub fn parse_asset_file(asset_content: &str) -> (r: Result<AssetCropInfo, AssetParseError>)
    ensures
        match asset_crop_of(asset_content@) {
            Ok((x, y, w, h)) => r == Ok::<AssetCropInfo, AssetParseError>(
                AssetCropInfo { x, y, width: w, height: h },
            ),
            Err(e) => r == Err::<AssetCropInfo, AssetParseError>(e),
        },
{
    let cs = chars_of(asset_content);
    let lines = split_lines(&cs);
    let ghost lv = lines@.map_values(|l: Vec<char>| l@);
    let mut ts: Vec<Vec<char>> = Vec::new();
    let mut i: usize = 0;
    while i < lines.len()
        invariant
            0 <= i <= lines@.len(),
            lv == lines@.map_values(|l: Vec<char>| l@),
            ts@.map_values(|l: Vec<char>| l@) == lv.subrange(0, i as int).map_values(|l: Seq<char>| trimmed(l)),
        decreases lines@.len() - i,
    {
        let t = trim_chars(&lines[i]);
        let ghost before = ts@.map_values(|l: Vec<char>| l@);
        ts.push(t);
        assert(ts@.map_values(|l: Vec<char>| l@) =~= before.push(trimmed(lv[i as int])));
        assert(lv.subrange(0, i + 1).map_values(|l: Seq<char>| trimmed(l)) =~= lv.subrange(0, i as int).map_values(
            |l: Seq<char>| trimmed(l),
        ).push(trimmed(lv[i as int])));
        i = i + 1;
    }
    assert(lv.subrange(0, i as int) =~= lv);
    let ghost tv = ts@.map_values(|l: Vec<char>| l@);
    let m_rect = chars_of("m_Rect:");
    let rect = chars_of("rect:");
    let mut st: (u32, u32, u32, u32) = (0, 0, 0, 0);
    let mut k: usize = 0;
    while k < ts.len()
        invariant
            tv == ts@.map_values(|l: Vec<char>| l@),
            m_rect@ == "m_Rect:"@,
            rect@ == "rect:"@,
            0 <= k <= ts@.len(),
            scan_lines(tv, 0, (0, 0, 0, 0)) == scan_lines(tv, k as int, st),
        decreases ts@.len() - k,
    {
        assert(tv[k as int] == ts@[k as int]@);
        if contains_chars(&ts[k], &m_rect) || contains_chars(&ts[k], &rect) {
            st = scan_block_exec(&ts, k, st);
        }
        k = k + 1;
    }
    if st.2 == 0 || st.3 == 0 {
        Err(AssetParseError::NoDimensions)
    } else {
        Ok(AssetCropInfo { x: st.0, y: st.1, width: st.2, height: st.3 })
    }
}

} // verus!
