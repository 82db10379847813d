//! Reading typed fields out of a decoded mapping. A missing field takes its
//! default; a field of the wrong shape makes the read fail.
use vstd::prelude::*;
use crate::value::{field_of, Items, Value};

verus! {

/// A number as the document writes it: an integer, or a real kept as its
/// literal text.
#[derive(Debug, Clone, PartialEq)]
pub enum Number {
    Int(i64),
    Real(String),
}

/// A reference to a record of the same document by its id.
#[derive(Debug, Clone, PartialEq)]
pub struct MAvatar {
    pub file_id: i64,
}

/// A reference that may point into another file, named by its `guid`.
#[derive(Debug, Clone, PartialEq)]
pub struct MController {
    pub file_id: i64,
    pub guid: Option<String>,
    pub m_controller_type: Option<i64>,
}

pub open spec fn int_of(f: Option<Value>) -> Option<i64> {
    match f {
        None => Some(0),
        Some(Value::Int(i)) => Some(i),
        _ => None,
    }
}

pub open spec fn opt_int_of(f: Option<Value>) -> Option<Option<i64>> {
    match f {
        None => Some(None),
        Some(Value::Null) => Some(None),
        Some(Value::Int(i)) => Some(Some(i)),
        _ => None,
    }
}

pub open spec fn number_of(f: Option<Value>) -> Option<Number> {
    match f {
        None => Some(Number::Int(0)),
        Some(Value::Int(i)) => Some(Number::Int(i)),
        Some(Value::Real(s)) => Some(Number::Real(s)),
        _ => None,
    }
}

pub open spec fn opt_number_of(f: Option<Value>) -> Option<Option<Number>> {
    match f {
        None => Some(None),
        Some(Value::Null) => Some(None),
        Some(Value::Int(i)) => Some(Some(Number::Int(i))),
        Some(Value::Real(s)) => Some(Some(Number::Real(s))),
        _ => None,
    }
}

/// Text: a missing or null field is empty, a real keeps its literal text.
pub open spec fn text_of(f: Option<Value>) -> Option<Seq<char>> {
    match f {
        None => Some(seq![]),
        Some(Value::Null) => Some(seq![]),
        Some(Value::Text(s)) => Some(s@),
        Some(Value::Real(s)) => Some(s@),
        _ => None,
    }
}

/// Optional text: a missing or null field is absent.
pub open spec fn opt_text_of(f: Option<Value>) -> Option<Option<String>> {
    match f {
        None => Some(None),
        Some(Value::Null) => Some(None),
        Some(Value::Text(s)) => Some(Some(s)),
        Some(Value::Real(s)) => Some(Some(s)),
        _ => None,
    }
}

/// A same-file reference: a mapping whose `fileID` is an integer.
pub open spec fn ref_of(f: Option<Value>) -> Option<MAvatar> {
    match f {
        None => Some(MAvatar { file_id: 0 }),
        Some(v) => if v is Object {
            match int_of(field_of(v, "fileID"@)) {
                Some(id) => Some(MAvatar { file_id: id }),
                None => None,
            }
        } else {
            None
        },
    }
}

/// A reference with an optional `guid` and `type`.
pub open spec fn asset_ref_of(f: Option<Value>) -> Option<MController> {
    match f {
        None => Some(MController { file_id: 0, guid: None, m_controller_type: None }),
        Some(v) => if v is Object {
            match (
                int_of(field_of(v, "fileID"@)),
                opt_text_of(field_of(v, "guid"@)),
                opt_int_of(field_of(v, "type"@)),
            ) {
                (Some(id), Some(g), Some(t)) => Some(
                    MController { file_id: id, guid: g, m_controller_type: t },
                ),
                _ => None,
            }
        } else {
            None
        },
    }
}

pub fn read_int(m: &Value, key: &str) -> (r: Option<i64>)
    ensures
        r == int_of(field_of(*m, key@)),
{
    match m.field(key) {
        None => Some(0),
        Some(Value::Int(i)) => Some(*i),
        _ => None,
    }
}

pub fn read_opt_int(m: &Value, key: &str) -> (r: Option<Option<i64>>)
    ensures
        r == opt_int_of(field_of(*m, key@)),
{
    match m.field(key) {
        None => Some(None),
        Some(Value::Null) => Some(None),
        Some(Value::Int(i)) => Some(Some(*i)),
        _ => None,
    }
}

pub fn read_number(m: &Value, key: &str) -> (r: Option<Number>)
    ensures
        r == number_of(field_of(*m, key@)),
{
    match m.field(key) {
        None => Some(Number::Int(0)),
        Some(Value::Int(i)) => Some(Number::Int(*i)),
        Some(Value::Real(s)) => Some(Number::Real(s.clone())),
        _ => None,
    }
}

pub fn read_opt_number(m: &Value, key: &str) -> (r: Option<Option<Number>>)
    ensures
        r == opt_number_of(field_of(*m, key@)),
{
    match m.field(key) {
        None => Some(None),
        Some(Value::Null) => Some(None),
        Some(Value::Int(i)) => Some(Some(Number::Int(*i))),
        Some(Value::Real(s)) => Some(Some(Number::Real(s.clone()))),
        _ => None,
    }
}

pub fn read_text(m: &Value, key: &str) -> (r: Option<String>)
    ensures
        r matches Some(s) ==> text_of(field_of(*m, key@)) == Some(s@),
        r is None ==> text_of(field_of(*m, key@)) is None,
{
    match m.field(key) {
        None => Some(String::new()),
        Some(Value::Null) => Some(String::new()),
        Some(Value::Text(s)) => Some(s.clone()),
        Some(Value::Real(s)) => Some(s.clone()),
        _ => None,
    }
}

pub fn read_opt_text(m: &Value, key: &str) -> (r: Option<Option<String>>)
    ensures
        r == opt_text_of(field_of(*m, key@)),
{
    match m.field(key) {
        None => Some(None),
        Some(Value::Null) => Some(None),
        Some(Value::Text(s)) => Some(Some(s.clone())),
        Some(Value::Real(s)) => Some(Some(s.clone())),
        _ => None,
    }
}

/// Reads a same-file reference held by `f`.
pub fn ref_value(f: Option<&Value>) -> (r: Option<MAvatar>)
    ensures
        r == ref_of(
            match f {
                Some(v) => Some(*v),
                None => None,
            },
        ),
{
    match f {
        None => Some(MAvatar { file_id: 0 }),
        Some(v) => match v {
            Value::Object(_) => match read_int(v, "fileID") {
                Some(id) => Some(MAvatar { file_id: id }),
                None => None,
            },
            _ => None,
        },
    }
}

pub fn read_ref(m: &Value, key: &str) -> (r: Option<MAvatar>)
    ensures
        r == ref_of(field_of(*m, key@)),
{
    ref_value(m.field(key))
}

pub fn read_asset_ref(m: &Value, key: &str) -> (r: Option<MController>)
    ensures
        r == asset_ref_of(field_of(*m, key@)),
{
    match m.field(key) {
        None => Some(MController { file_id: 0, guid: None, m_controller_type: None }),
        Some(v) => match v {
            Value::Object(_) => match (
                read_int(v, "fileID"),
                read_opt_text(v, "guid"),
                read_opt_int(v, "type"),
            ) {
                (Some(id), Some(g), Some(t)) => Some(
                    MController { file_id: id, guid: g, m_controller_type: t },
                ),
                _ => None,
            },
            _ => None,
        },
    }
}

/// An entry of a component list: a mapping holding a `component` reference.
#[derive(Debug, Clone, PartialEq)]
pub struct MComponent {
    pub component: MAvatar,
}

/// The ids of the first `n` references of a list.
pub open spec fn refs_from(items: Seq<Value>, n: nat) -> Option<Seq<i64>>
    decreases n,
{
    if n == 0 {
        Some(seq![])
    } else if n > items.len() {
        None
    } else {
        match (refs_from(items, (n - 1) as nat), ref_of(Some(items[n - 1]))) {
            (Some(p), Some(a)) => Some(p.push(a.file_id)),
            _ => None,
        }
    }
}

/// The ids of a list of references; a missing or null list is empty.
pub open spec fn ref_list_of(f: Option<Value>) -> Option<Seq<i64>> {
    match f {
        None => Some(seq![]),
        Some(Value::Null) => Some(seq![]),
        Some(Value::List(vs)) => refs_from(vs.seq(), vs.seq().len()),
        _ => None,
    }
}

/// The reference that one component entry holds.
pub open spec fn component_of(item: Value) -> Option<MAvatar> {
    if item is Object {
        ref_of(field_of(item, "component"@))
    } else {
        None
    }
}

/// The ids of the first `n` component entries of a list.
pub open spec fn components_from(items: Seq<Value>, n: nat) -> Option<Seq<i64>>
    decreases n,
{
    if n == 0 {
        Some(seq![])
    } else if n > items.len() {
        None
    } else {
        match (components_from(items, (n - 1) as nat), component_of(items[n - 1])) {
            (Some(p), Some(a)) => Some(p.push(a.file_id)),
            _ => None,
        }
    }
}

/// The ids of a component list; a missing or null list is empty.
pub open spec fn component_list_of(f: Option<Value>) -> Option<Seq<i64>> {
    match f {
        None => Some(seq![]),
        Some(Value::Null) => Some(seq![]),
        Some(Value::List(vs)) => components_from(vs.seq(), vs.seq().len()),
        _ => None,
    }
}

pub open spec fn ids_of(refs: Seq<MAvatar>) -> Seq<i64> {
    refs.map_values(|a: MAvatar| a.file_id)
}

pub open spec fn component_ids(cs: Seq<MComponent>) -> Seq<i64> {
    cs.map_values(|c: MComponent| c.component.file_id)
}

proof fn lemma_refs_fail(items: Seq<Value>, k: nat, n: nat)
    requires
        k <= n <= items.len(),
        refs_from(items, k) is None,
    ensures
        refs_from(items, n) is None,
    decreases n,
{
    if n > k {
        lemma_refs_fail(items, k, (n - 1) as nat);
    }
}

proof fn lemma_components_fail(items: Seq<Value>, k: nat, n: nat)
    requires
        k <= n <= items.len(),
        components_from(items, k) is None,
    ensures
        components_from(items, n) is None,
    decreases n,
{
    if n > k {
        lemma_components_fail(items, k, (n - 1) as nat);
    }
}

pub fn read_ref_list(m: &Value, key: &str) -> (r: Option<Vec<MAvatar>>)
    ensures
        r matches Some(l) ==> ref_list_of(field_of(*m, key@)) == Some(ids_of(l@)),
        r is None ==> ref_list_of(field_of(*m, key@)) is None,
{
    match m.field(key) {
        None => Some(Vec::new()),
        Some(Value::Null) => Some(Vec::new()),
        Some(Value::List(vs)) => {
            let ghost all = vs.seq();
            let mut out: Vec<MAvatar> = Vec::new();
            let mut cur: &Items = vs;
            let ghost mut i: int = 0;
            loop
                invariant
                    field_of(*m, key@) == Some(Value::List(*vs)),
                    all == vs.seq(),
                    0 <= i <= all.len(),
                    cur.seq() == all.subrange(i, all.len() as int),
                    refs_from(all, i as nat) == Some(ids_of(out@)),
                decreases cur.seq().len(),
            {
                match cur {
                    Items::Nil => {
                        assert(i == all.len());
                        return Some(out);
                    },
                    Items::Cons(item, rest) => {
                        assert(cur.seq() == seq![*item] + rest.seq());
                        assert(all[i] == *item) by {
                            assert(cur.seq()[0] == all.subrange(i, all.len() as int)[0]);
                        }
                        match ref_value(Some(item)) {
                            Some(a) => {
                                out.push(a);
                                assert(ids_of(out@) =~= ids_of(out@).drop_last().push(a.file_id));
                                assert(ids_of(out@).drop_last() =~= ids_of(out@.drop_last()));
                            },
                            None => {
                                proof {
                                    lemma_refs_fail(all, (i + 1) as nat, all.len());
                                }
                                return None;
                            },
                        }
                        proof {
                            assert(rest.seq() =~= cur.seq().drop_first());
                            assert(cur.seq().drop_first() =~= all.subrange(i + 1, all.len() as int));
                            i = i + 1;
                        }
                        cur = rest;
                    },
                }
            }
        },
        _ => None,
    }
}

pub fn read_components(m: &Value, key: &str) -> (r: Option<Vec<MComponent>>)
    ensures
        r matches Some(l) ==> component_list_of(field_of(*m, key@)) == Some(component_ids(l@)),
        r is None ==> component_list_of(field_of(*m, key@)) is None,
{
    match m.field(key) {
        None => Some(Vec::new()),
        Some(Value::Null) => Some(Vec::new()),
        Some(Value::List(vs)) => {
            let ghost all = vs.seq();
            let mut out: Vec<MComponent> = Vec::new();
            let mut cur: &Items = vs;
            let ghost mut i: int = 0;
            loop
                invariant
                    field_of(*m, key@) == Some(Value::List(*vs)),
                    all == vs.seq(),
                    0 <= i <= all.len(),
                    cur.seq() == all.subrange(i, all.len() as int),
                    components_from(all, i as nat) == Some(component_ids(out@)),
                decreases cur.seq().len(),
            {
                match cur {
                    Items::Nil => {
                        assert(i == all.len());
                        return Some(out);
                    },
                    Items::Cons(item, rest) => {
                        assert(cur.seq() == seq![*item] + rest.seq());
                        assert(all[i] == *item) by {
                            assert(cur.seq()[0] == all.subrange(i, all.len() as int)[0]);
                        }
                        let c = match item {
                            Value::Object(_) => read_ref(item, "component"),
                            _ => None,
                        };
                        match c {
                            Some(a) => {
                                out.push(MComponent { component: a });
                                assert(component_ids(out@) =~= component_ids(out@).drop_last().push(a.file_id));
                                assert(component_ids(out@).drop_last() =~= component_ids(out@.drop_last()));
                            },
                            None => {
                                proof {
                                    lemma_components_fail(all, (i + 1) as nat, all.len());
                                }
                                return None;
                            },
                        }
                        proof {
                            assert(rest.seq() =~= cur.seq().drop_first());
                            assert(cur.seq().drop_first() =~= all.subrange(i + 1, all.len() as int));
                            i = i + 1;
                        }
                        cur = rest;
                    },
                }
            }
        },
        _ => None,
    }
}

impl Number {
    pub fn duplicate(&self) -> (r: Number)
        ensures
            r == *self,
    {
        match self {
            Number::Int(i) => Number::Int(*i),
            Number::Real(s) => Number::Real(s.clone()),
        }
    }
}

impl MController {
    pub fn duplicate(&self) -> (r: MController)
        ensures
            r == *self,
    {
        let guid = match &self.guid {
            Some(g) => Some(g.clone()),
            None => None,
        };
        MController { file_id: self.file_id, guid, m_controller_type: self.m_controller_type }
    }
}

/// The text of an optional guid, empty when there is none.
pub open spec fn guid_text(g: Option<String>) -> Seq<char> {
    match g {
        Some(s) => s@,
        None => seq![],
    }
}

/// The guid of a reference, or the empty string.
pub fn guid_or_empty(g: &Option<String>) -> (r: String)
    ensures
        r@ == guid_text(*g),
{
    match g {
        Some(s) => s.clone(),
        None => String::new(),
    }
}

} // verus!
