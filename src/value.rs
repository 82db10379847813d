//! The generic value tree that a record body decodes into.
use vstd::prelude::*;
use crate::text::chars_of;

verus! {

/// A decoded node: mappings keep every key in source order, numbers keep the
/// form they were written in.
#[derive(Debug)]
pub enum Value {
    Null,
    Bool(bool),
    Int(i64),
    /// A real number, as the literal text that the document holds.
    Real(String),
    Text(String),
    List(Box<Items>),
    /// Key/value pairs in source order.
    Object(Box<Entries>),
}

/// The items of a list, first to last.
#[derive(Debug)]
pub enum Items {
    Nil,
    Cons(Value, Box<Items>),
}

/// The entries of a mapping, first to last.
#[derive(Debug)]
pub enum Entries {
    Nil,
    Cons(Value, Value, Box<Entries>),
}

impl Items {
    pub open spec fn seq(self) -> Seq<Value>
        decreases self,
    {
        match self {
            Items::Nil => seq![],
            Items::Cons(v, rest) => seq![v] + rest.seq(),
        }
    }
}

impl Entries {
    pub open spec fn seq(self) -> Seq<(Value, Value)>
        decreases self,
    {
        match self {
            Entries::Nil => seq![],
            Entries::Cons(k, v, rest) => seq![(k, v)] + rest.seq(),
        }
    }
}

/// Two item lists with the same items are the same list.
pub proof fn lemma_items_seq_injective(a: Items, b: Items)
    requires
        a.seq() == b.seq(),
    ensures
        a == b,
    decreases a,
{
    match a {
        Items::Nil => {
            match b {
                Items::Nil => {},
                Items::Cons(_, _) => {
                    assert(b.seq().len() > 0);
                },
            }
        },
        Items::Cons(x, ra) => {
            match b {
                Items::Nil => {
                    assert(a.seq().len() > 0);
                },
                Items::Cons(y, rb) => {
                    assert(a.seq()[0] == x);
                    assert(b.seq()[0] == y);
                    assert(ra.seq() =~= a.seq().drop_first());
                    assert(rb.seq() =~= b.seq().drop_first());
                    lemma_items_seq_injective(*ra, *rb);
                },
            }
        },
    }
}

/// Two entry lists with the same entries are the same list.
pub proof fn lemma_entries_seq_injective(a: Entries, b: Entries)
    requires
        a.seq() == b.seq(),
    ensures
        a == b,
    decreases a,
{
    match a {
        Entries::Nil => {
            match b {
                Entries::Nil => {},
                Entries::Cons(_, _, _) => {
                    assert(b.seq().len() > 0);
                },
            }
        },
        Entries::Cons(k, v, ra) => {
            match b {
                Entries::Nil => {
                    assert(a.seq().len() > 0);
                },
                Entries::Cons(k2, v2, rb) => {
                    assert(a.seq()[0] == (k, v));
                    assert(b.seq()[0] == (k2, v2));
                    assert(ra.seq() =~= a.seq().drop_first());
                    assert(rb.seq() =~= b.seq().drop_first());
                    lemma_entries_seq_injective(*ra, *rb);
                },
            }
        },
    }
}

/// The list of the values of `v`, first to last.
pub fn items_from_vec(v: Vec<Value>) -> (r: Items)
    ensures
        r.seq() == v@,
{
    let ghost orig = v@;
    let mut v = v;
    let mut acc = Items::Nil;
    while v.len() > 0
        invariant
            v@ + acc.seq() == orig,
        decreases v@.len(),
    {
        let ghost before = v@;
        let x = v.pop().unwrap();
        let ghost old_acc = acc.seq();
        acc = Items::Cons(x, Box::new(acc));
        assert(before =~= v@.push(x));
        assert(v@ + acc.seq() =~= before + old_acc);
    }
    assert(v@ + acc.seq() =~= acc.seq());
    acc
}

/// The entries of the pairs of `v`, first to last.
pub fn entries_from_vec(v: Vec<(Value, Value)>) -> (r: Entries)
    ensures
        r.seq() == v@,
{
    let ghost orig = v@;
    let mut v = v;
    let mut acc = Entries::Nil;
    while v.len() > 0
        invariant
            v@ + acc.seq() == orig,
        decreases v@.len(),
    {
        let ghost before = v@;
        let (k, x) = v.pop().unwrap();
        let ghost old_acc = acc.seq();
        acc = Entries::Cons(k, x, Box::new(acc));
        assert(before =~= v@.push((k, x)));
        assert(v@ + acc.seq() =~= before + old_acc);
    }
    assert(v@ + acc.seq() =~= acc.seq());
    acc
}

/// Whether `k` is the text key `key`.
pub open spec fn is_key(k: Value, key: Seq<char>) -> bool {
    k matches Value::Text(s) && s@ == key
}

/// Position of the first entry of `entries` whose key is `key`, at or after `from`.
pub open spec fn key_position(entries: Seq<(Value, Value)>, key: Seq<char>, from: int) -> Option<int>
    decreases entries.len() - from,
{
    if from < 0 || from >= entries.len() {
        None
    } else if is_key(entries[from].0, key) {
        Some(from)
    } else {
        key_position(entries, key, from + 1)
    }
}

/// The value stored under `key` in a mapping, if `v` is a mapping that has it.
pub open spec fn field_of(v: Value, key: Seq<char>) -> Option<Value> {
    match v {
        Value::Object(entries) => match key_position(entries.seq(), key, 0) {
            Some(i) => Some(entries.seq()[i].1),
            None => None,
        },
        _ => None,
    }
}

/// Whether two character sequences are equal.
pub fn same_chars(a: &Vec<char>, b: &Vec<char>) -> (r: bool)
    ensures
        r == (a@ == b@),
{
    if a.len() != b.len() {
        return false;
    }
    let mut i: usize = 0;
    while i < a.len()
        invariant
            a@.len() == b@.len(),
            0 <= i <= a@.len(),
            a@.subrange(0, i as int) == b@.subrange(0, i as int),
        decreases a@.len() - i,
    {
        if a[i] != b[i] {
            assert(a@[i as int] != b@[i as int]);
            return false;
        }
        assert(a@.subrange(0, i + 1) =~= a@.subrange(0, i as int).push(a@[i as int]));
        assert(b@.subrange(0, i + 1) =~= b@.subrange(0, i as int).push(b@[i as int]));
        i = i + 1;
    }
    assert(a@ =~= a@.subrange(0, i as int));
    assert(b@ =~= b@.subrange(0, i as int));
    true
}

/// Whether the key `k` is the text `key`.
pub fn key_matches(k: &Value, key: &Vec<char>) -> (r: bool)
    ensures
        r == is_key(*k, key@),
{
    match k {
        Value::Text(s) => {
            let c = chars_of(s.as_str());
            same_chars(&c, key)
        },
        _ => false,
    }
}

impl Value {
    /// The value under `key`, when `self` is a mapping holding it.
    pub fn field(&self, key: &str) -> (r: Option<&Value>)
        ensures
            r matches Some(x) ==> field_of(*self, key@) == Some(*x),
            r is None ==> field_of(*self, key@) is None,
    {
        match self {
            Value::Object(entries) => {
                let ghost all = entries.seq();
                let k = chars_of(key);
                let mut cur: &Entries = entries;
                let ghost mut i: int = 0;
                loop
                    invariant
                        *self == Value::Object(*entries),
                        all == entries.seq(),
                        k@ == key@,
                        0 <= i <= all.len(),
                        cur.seq() == all.subrange(i, all.len() as int),
                        key_position(all, key@, 0) == key_position(all, key@, i),
                    decreases cur.seq().len(),
                {
                    match cur {
                        Entries::Nil => {
                            assert(i == all.len());
                            return None;
                        },
                        Entries::Cons(ek, ev, rest) => {
                            assert(cur.seq() == seq![(*ek, *ev)] + rest.seq());
                            assert(all[i] == (*ek, *ev)) by {
                                assert(cur.seq()[0] == all.subrange(i, all.len() as int)[0]);
                            }
                            if key_matches(ek, &k) {
                                assert(key_position(all, key@, i) == Some(i));
                                return Some(ev);
                            }
                            proof {
                                assert(rest.seq() =~= cur.seq().drop_first());
                            assert(cur.seq().drop_first() =~= all.subrange(i + 1, all.len() as int));
                                i = i + 1;
                            }
                            cur = rest;
                        },
                    }
                }
            },
            _ => None,
        }
    }
}

} // verus!
