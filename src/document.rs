//! Splitting a document into its records' headers and bodies.
use vstd::prelude::*;
use crate::records::{project_record, record_from, record_ok, PrefabElement};
use crate::value::Value;
use crate::yaml::{body_decodes_to, decode_body, lemma_body_decodes_unique};
use crate::text::{
    chars_of, has_prefix, i64_literal, lines_of, parse_i64, push_char, split_lines, split_tokens,
    starts_with_chars, strip_amps, strip_ampersands, tokens_of,
};

verus! {

/// The text that starts every record header line.
pub open spec fn header_marker() -> Seq<char> {
    seq!['-', '-', '-', ' ', '!', 'u', '!']
}

/// A line that opens a record, well formed or not.
pub open spec fn is_header_line(line: Seq<char>) -> bool {
    has_prefix(line, header_marker())
}

/// The id that a header line declares: the line has exactly three tokens and
/// the third, without its leading ampersands, is an `i64`.
pub open spec fn header_id(line: Seq<char>) -> Option<i64> {
    let toks = tokens_of(line);
    if toks.len() == 3 {
        i64_literal(strip_amps(toks[2]))
    } else {
        None
    }
}

/// Lines joined with line feeds between them.
pub open spec fn join_lines(ls: Seq<Seq<char>>) -> Seq<char>
    decreases ls.len(),
{
    if ls.len() == 0 {
        seq![]
    } else if ls.len() == 1 {
        ls[0]
    } else {
        join_lines(ls.drop_last()) + seq!['\n'] + ls.last()
    }
}

/// The record that an open header and the body lines read after it make.
pub open spec fn close(open: Option<(i64, Seq<Seq<char>>)>) -> Seq<(i64, Seq<char>)> {
    match open {
        Some((id, body)) => seq![(id, join_lines(body))],
        None => seq![],
    }
}

/// The records of `lines` from line `i` on, `open` being the record whose
/// body is being read, if any. A well-formed header opens a record; a
/// malformed one opens none, and the lines up to the next header are dropped.
pub open spec fn records_from(
    lines: Seq<Seq<char>>,
    i: int,
    open: Option<(i64, Seq<Seq<char>>)>,
) -> Seq<(i64, Seq<char>)>
    decreases lines.len() - i,
{
    if i < 0 || i >= lines.len() {
        close(open)
    } else if is_header_line(lines[i]) {
        close(open) + records_from(
            lines,
            i + 1,
            match header_id(lines[i]) {
                Some(id) => Some((id, seq![])),
                None => None,
            },
        )
    } else {
        records_from(
            lines,
            i + 1,
            match open {
                Some((id, body)) => Some((id, body.push(lines[i]))),
                None => None,
            },
        )
    }
}

/// The id and body text of each record of a document, in document order.
pub open spec fn raw_records(text: Seq<char>) -> Seq<(i64, Seq<char>)> {
    records_from(lines_of(text), 0, None)
}

/// One record of a document: the id its header declares and its body text.
#[derive(Debug, Clone, PartialEq)]
pub struct RawRecord {
    pub id: i64,
    pub body: String,
}

impl RawRecord {
    pub open spec fn model(self) -> (i64, Seq<char>) {
        (self.id, self.body@)
    }
}

/// The id declared by a header line, if it is well formed.
pub fn parse_header(line: &Vec<char>) -> (r: Option<i64>)
    ensures
        r == header_id(line@),
{
    let toks = split_tokens(line);
    assert(toks@.len() == tokens_of(line@).len());
    if toks.len() != 3 {
        return None;
    }
    assert(toks@[2]@ == tokens_of(line@)[2]);
    let digits = strip_ampersands(&toks[2]);
    parse_i64(&digits)
}

/// Joins lines with line feeds between them.
pub fn join_with_newlines(ls: &Vec<Vec<char>>) -> (r: String)
    ensures
        r@ == join_lines(ls@.map_values(|l: Vec<char>| l@)),
{
    let ghost lv = ls@.map_values(|l: Vec<char>| l@);
    let mut out = String::new();
    let mut i: usize = 0;
    while i < ls.len()
        invariant
            0 <= i <= ls@.len(),
            lv == ls@.map_values(|l: Vec<char>| l@),
            out@ == join_lines(lv.subrange(0, i as int)),
        decreases ls@.len() - i,
    {
        let ghost start = out@;
        if i > 0 {
            push_char(&mut out, '\n');
        }
        let line = &ls[i];
        let mut j: usize = 0;
        while j < line.len()
            invariant
                0 <= j <= line@.len(),
                out@ == start + (if i > 0 { seq!['\n'] } else { seq![] }) + line@.subrange(0, j as int),
            decreases line@.len() - j,
        {
            push_char(&mut out, line[j]);
            assert(line@.subrange(0, j + 1) =~= line@.subrange(0, j as int).push(line@[j as int]));
            j = j + 1;
        }
        assert(line@.subrange(0, j as int) =~= line@);
        let ghost p = lv.subrange(0, i + 1);
        assert(p.drop_last() =~= lv.subrange(0, i as int));
        assert(p.last() == line@);
        if i == 0 {
            assert(out@ =~= line@);
        } else {
            assert(out@ =~= start + seq!['\n'] + line@);
        }
        i = i + 1;
    }
    assert(lv.subrange(0, i as int) =~= lv);
    out
}

/// Splits a document into records at its header lines. A header whose id is
/// not an integer, or that does not have three tokens, is skipped together
/// with the lines that follow it up to the next header.
pub fn split_records(text: &str) -> (r: Vec<RawRecord>)
    ensures
        r@.map_values(|x: RawRecord| x.model()) == raw_records(text@),
{
    let chars = chars_of(text);
    let lines = split_lines(&chars);
    let ghost lv = lines@.map_values(|l: Vec<char>| l@);
    let marker: Vec<char> = vec!['-', '-', '-', ' ', '!', 'u', '!'];
    assert(marker@ =~= header_marker());
    let mut out: Vec<RawRecord> = Vec::new();
    let mut open_id: Option<i64> = None;
    let mut body: Vec<Vec<char>> = Vec::new();
    let mut i: usize = 0;
    while i < lines.len()
        invariant
            lv == lines@.map_values(|l: Vec<char>| l@),
            lv == lines_of(text@),
            marker@ == header_marker(),
            0 <= i <= lines@.len(),
            out@.map_values(|x: RawRecord| x.model()) + records_from(
                lv,
                i as int,
                match open_id {
                    Some(id) => Some((id, body@.map_values(|l: Vec<char>| l@))),
                    None => None,
                },
            ) == raw_records(text@),
        decreases lines@.len() - i,
    {
        let ghost before = out@.map_values(|x: RawRecord| x.model());
        let ghost open = match open_id {
            Some(id) => Some((id, body@.map_values(|l: Vec<char>| l@))),
            None => None,
        };
        assert(lines@[i as int]@ == lv[i as int]);
        if starts_with_chars(&lines[i], &marker) {
            match open_id {
                Some(id) => {
                    let text_of_body = join_with_newlines(&body);
                    out.push(RawRecord { id, body: text_of_body });
                    assert(out@.map_values(|x: RawRecord| x.model()) =~= before + close(open));
                },
                None => {
                    assert(before =~= before + close(open));
                },
            }
            open_id = parse_header(&lines[i]);
            body = Vec::new();
            assert(body@.map_values(|l: Vec<char>| l@) =~= seq![]);
            assert(before + records_from(lv, i as int, open) =~= before + close(open) + records_from(
                lv,
                i + 1,
                match header_id(lv[i as int]) {
                    Some(id) => Some((id, seq![])),
                    None => None,
                },
            ));
        } else {
            if open_id.is_some() {
                let ghost bv = body@.map_values(|l: Vec<char>| l@);
                body.push(lines[i].clone());
                assert(body@.map_values(|l: Vec<char>| l@) =~= bv.push(lv[i as int]));
            }
        }
        i = i + 1;
    }
    let ghost before = out@.map_values(|x: RawRecord| x.model());
    match open_id {
        Some(id) => {
            let text_of_body = join_with_newlines(&body);
            out.push(RawRecord { id, body: text_of_body });
            assert(out@.map_values(|x: RawRecord| x.model()) =~= before + records_from(
                lv,
                i as int,
                Some((id, body@.map_values(|l: Vec<char>| l@))),
            ));
        },
        None => {
            assert(before =~= before + records_from(lv, i as int, None));
        },
    }
    out
}

/// `e` is what the raw record `raw` decodes and projects to.
pub open spec fn element_decoded(raw: (i64, Seq<char>), e: PrefabElement) -> bool {
    e.id == raw.0 && exists|v: Value| #[trigger] body_decodes_to(raw.1, v) && record_from(v, e.record)
}

/// `idx` picks, in increasing order, for each element of `es` the raw record
/// it came from.
pub open spec fn picks(raws: Seq<(i64, Seq<char>)>, es: Seq<PrefabElement>, idx: Seq<int>) -> bool {
    &&& idx.len() == es.len()
    &&& forall|k: int| 0 <= k < idx.len() ==> 0 <= #[trigger] idx[k] < raws.len()
    &&& forall|k: int, l: int| 0 <= k < l < idx.len() ==> idx[k] < idx[l]
    &&& forall|k: int| 0 <= k < idx.len() ==> element_decoded(raws[#[trigger] idx[k]], es[k])
}

/// The raw record's body decodes to a value tree that projects onto a record.
pub open spec fn keeps(raw: (i64, Seq<char>)) -> bool {
    exists|v: Value| #[trigger] body_decodes_to(raw.1, v) && record_ok(v)
}

/// A record picked before raw record `j` has `j`'s id.
pub open spec fn id_taken(raws: Seq<(i64, Seq<char>)>, idx: Seq<int>, j: int) -> bool {
    exists|k: int| 0 <= k < idx.len() && #[trigger] idx[k] < j && raws[idx[k]].0 == raws[j].0
}

/// Whether one of `els` has id `id`.
pub fn id_in(els: &Vec<PrefabElement>, id: i64) -> (r: bool)
    ensures
        r == exists|m: int| 0 <= m < els@.len() && (#[trigger] els@[m]).id == id,
{
    let mut i: usize = 0;
    while i < els.len()
        invariant
            0 <= i <= els@.len(),
            forall|m: int| 0 <= m < i ==> (#[trigger] els@[m]).id != id,
        decreases els@.len() - i,
    {
        if els[i].id == id {
            return true;
        }
        i = i + 1;
    }
    false
}

/// Parses a document into its typed records, in document order. A record
/// whose header is malformed, whose body does not decode, whose body does not
/// project onto its kind, or whose id an earlier record already has, is
/// skipped; the others are kept.
pub fn read_prefab(text: &str) -> (r: Vec<PrefabElement>)
    ensures
        exists|idx: Seq<int>|
            {
                &&& picks(raw_records(text@), r@, idx)
                &&& forall|j: int|
                    0 <= j < raw_records(text@).len() ==> (idx.contains(j) <==> (keeps(
                        raw_records(text@)[j],
                    ) && !id_taken(raw_records(text@), idx, j)))
            },
        forall|k: int, l: int| 0 <= k < l < r@.len() ==> r@[k].id != r@[l].id,
{
    let raws = split_records(text);
    let ghost rv = raws@.map_values(|x: RawRecord| x.model());
    let mut out: Vec<PrefabElement> = Vec::new();
    let ghost mut idx: Seq<int> = seq![];
    let mut i: usize = 0;
    while i < raws.len()
        invariant
            rv == raws@.map_values(|x: RawRecord| x.model()),
            rv == raw_records(text@),
            0 <= i <= raws@.len(),
            picks(rv, out@, idx),
            forall|k: int| 0 <= k < idx.len() ==> #[trigger] idx[k] < i,
            forall|j: int| 0 <= j < i ==> (idx.contains(j) <==> (keeps(rv[j]) && !id_taken(rv, idx, j))),
            forall|k: int, l: int| 0 <= k < l < out@.len() ==> out@[k].id != out@[l].id,
        decreases raws@.len() - i,
    {
        assert(rv[i as int] == raws@[i as int].model());
        let ghost before_idx = idx;
        match decode_body(raws[i].body.as_str()) {
            Some(v) => {
                match project_record(&v) {
                    Some(rec) => {
                        let e = PrefabElement { id: raws[i].id, record: rec };
                        assert(body_decodes_to(rv[i as int].1, v) && record_from(v, e.record));
                        assert(record_ok(v));
                        assert(keeps(rv[i as int]));
                        let dup = id_in(&out, raws[i].id);
                        proof {
                            assert forall|m: int| 0 <= m < out@.len() implies (#[trigger] out@[m]).id == rv[idx[m]].0 by {
                                assert(element_decoded(rv[idx[m]], out@[m]));
                            }
                            if dup {
                                let m = choose|m: int| 0 <= m < out@.len() && (#[trigger] out@[m]).id == raws@[i as int].id;
                                assert(idx[m] < i);
                                assert(id_taken(rv, idx, i as int));
                            } else {
                                assert(!id_taken(rv, idx, i as int)) by {
                                    if id_taken(rv, idx, i as int) {
                                        let k = choose|k: int| 0 <= k < idx.len() && #[trigger] idx[k] < i && rv[idx[k]].0 == rv[i as int].0;
                                        assert(out@[k].id == raws@[i as int].id);
                                    }
                                }
                            }
                        }
                        if !dup {
                            out.push(e);
                            proof {
                                idx = idx.push(i as int);
                                assert forall|k: int| 0 <= k < idx.len() implies element_decoded(
                                    rv[#[trigger] idx[k]],
                                    out@[k],
                                ) by {
                                    if k < idx.len() - 1 {
                                        assert(out@[k] == out@.drop_last()[k]);
                                    }
                                }
                                assert(idx[idx.len() - 1] == i);
                                assert forall|j: int| 0 <= j < i + 1 implies (idx.contains(j) <==> (keeps(rv[j])
                                    && !id_taken(rv, idx, j))) by {
                                    assert(id_taken(rv, idx, j) == id_taken(rv, before_idx, j)) by {
                                        if id_taken(rv, idx, j) {
                                            let k = choose|k: int| 0 <= k < idx.len() && #[trigger] idx[k] < j && rv[idx[k]].0 == rv[j].0;
                                            if k == idx.len() - 1 {
                                                assert(idx[k] == i);
                                            } else {
                                                assert(before_idx[k] == idx[k]);
                                            }
                                        }
                                        if id_taken(rv, before_idx, j) {
                                            let k = choose|k: int| 0 <= k < before_idx.len() && #[trigger] before_idx[k] < j && rv[before_idx[k]].0 == rv[j].0;
                                            assert(idx[k] == before_idx[k]);
                                        }
                                    }
                                    if j < i {
                                        if before_idx.contains(j) {
                                            let k = choose|k: int| 0 <= k < before_idx.len() && before_idx[k] == j;
                                            assert(idx[k] == j);
                                        }
                                        if idx.contains(j) {
                                            let k = choose|k: int| 0 <= k < idx.len() && idx[k] == j;
                                            assert(k < before_idx.len());
                                            assert(before_idx[k] == j);
                                        }
                                    } else {
                                        assert(idx.contains(i as int));
                                    }
                                }
                                assert forall|k: int, l: int| 0 <= k < l < out@.len() implies out@[k].id != out@[l].id by {
                                    if l == out@.len() - 1 {
                                        assert(out@[k] == out@.drop_last()[k]);
                                    } else {
                                        assert(out@[k] == out@.drop_last()[k]);
                                        assert(out@[l] == out@.drop_last()[l]);
                                    }
                                }
                            }
                        } else {
                            proof {
                                assert(!idx.contains(i as int));
                            }
                        }
                    },
                    None => {
                        proof {
                            assert forall|w: Value| #[trigger] body_decodes_to(rv[i as int].1, w) implies !record_ok(w) by {
                                lemma_body_decodes_unique(rv[i as int].1, v, w);
                            }
                            assert(!keeps(rv[i as int]));
                            assert(!idx.contains(i as int));
                        }
                    },
                }
            },
            None => {
                proof {
                    assert(!keeps(rv[i as int]));
                    assert(!idx.contains(i as int));
                }
            },
        }
        i = i + 1;
    }
    out
}

} // verus!
