//! Decoding of record bodies through unity_yaml_rust's loader.
use vstd::prelude::*;
use unity_yaml_rust::yaml::YamlLoader;
use unity_yaml_rust::Yaml;
use crate::text::chars_of;
use crate::value::{
    entries_from_vec, items_from_vec, lemma_entries_seq_injective, lemma_items_seq_injective, Value,
};

verus! {

#[verifier::external_type_specification]
#[verifier::external_body]
pub struct ExYaml(unity_yaml_rust::Yaml);

/// One level of a loaded YAML node: its scalar, or its direct children.
pub enum YamlShape {
    Real(String),
    Integer(i64),
    Text(String),
    Boolean(bool),
    Array(Vec<Yaml>),
    Hash(Vec<(Yaml, Yaml)>),
    Null,
    /// Aliases and values the loader marks as bad.
    Unsupported,
}

/// The documents that the loader reads from a text, when it scans.
pub uninterp spec fn yaml_load(text: Seq<char>) -> Option<Seq<Yaml>>;

/// The top level of a loaded node.
pub uninterp spec fn yaml_shape(node: Yaml) -> YamlShape;

/// The text that `{:?}` writes for a loaded node.
pub uninterp spec fn yaml_debug(node: Yaml) -> String;

/// Relies on the `Debug` impl that `unity_yaml_rust::Yaml` derives: the text
/// that `{:?}` writes for a node.
#[verifier::external_body]
fn debug_text(node: &Yaml) -> (r: String)
    ensures
        r == yaml_debug(*node),
{
    format!("{:?}", node)
}

/// Relies on `YamlLoader::load_from_str`: the documents of a YAML stream, or
/// nothing when the stream does not scan.
#[verifier::external_body]
pub(crate) fn load_documents(text: &str) -> (r: Option<Vec<Yaml>>)
    ensures
        r matches Some(d) ==> yaml_load(text@) == Some(d@),
        r is None ==> yaml_load(text@) is None,
{
    YamlLoader::load_from_str(text).ok()
}

/// Relies on the variants of `unity_yaml_rust::Yaml`: tells them apart and
/// hands out the fields of the one found, a mapping's pairs in its order.
#[verifier::external_body]
fn shape_of(node: &Yaml) -> (r: YamlShape)
    ensures
        r == yaml_shape(*node),
{
    match node {
        Yaml::Real(s) => YamlShape::Real(s.clone()),
        Yaml::Integer(i) => YamlShape::Integer(*i),
        Yaml::String(s) => YamlShape::Text(s.clone()),
        Yaml::Boolean(b) => YamlShape::Boolean(*b),
        Yaml::Array(a) => YamlShape::Array(a.clone()),
        Yaml::Hash(h) => YamlShape::Hash(h.map.iter().map(|(k, v)| (k.clone(), v.clone())).collect()),
        Yaml::Null => YamlShape::Null,
        _ => YamlShape::Unsupported,
    }
}

/// `v` is the value tree of `node`, whose nesting is below `depth`.
pub open spec fn converts(node: Yaml, v: Value, depth: nat) -> bool
    decreases depth, 0nat,
{
    if depth == 0 {
        false
    } else {
        match yaml_shape(node) {
            YamlShape::Real(s) => v == Value::Real(s),
            YamlShape::Integer(i) => v == Value::Int(i),
            YamlShape::Text(s) => v == Value::Text(s),
            YamlShape::Boolean(b) => v == Value::Bool(b),
            YamlShape::Null => v == Value::Null,
            YamlShape::Array(items) => match v {
                Value::List(vs) => vs.seq().len() == items@.len() && items_convert(
                    items@,
                    vs.seq(),
                    (depth - 1) as nat,
                    items@.len(),
                ),
                _ => false,
            },
            YamlShape::Hash(pairs) => match v {
                Value::Object(es) => es.seq().len() == pairs@.len() && pairs_convert(
                    pairs@,
                    es.seq(),
                    (depth - 1) as nat,
                    pairs@.len(),
                ),
                _ => false,
            },
            YamlShape::Unsupported => false,
        }
    }
}

/// The first `n` items convert to the first `n` values.
pub open spec fn items_convert(items: Seq<Yaml>, vs: Seq<Value>, depth: nat, n: nat) -> bool
    decreases depth, n + 1,
{
    if n == 0 || n > items.len() || n > vs.len() {
        n == 0
    } else {
        items_convert(items, vs, depth, (n - 1) as nat) && converts(
            items[n - 1],
            vs[n - 1],
            depth,
        )
    }
}

/// The key of a mapping entry: the key's value tree, or its debug text when
/// it has none.
pub open spec fn key_converts(key: Yaml, kv: Value, depth: nat) -> bool
    decreases depth, 1nat,
{
    if decodable(key, depth) {
        converts(key, kv, depth)
    } else {
        kv == Value::Text(yaml_debug(key))
    }
}

/// The first `n` pairs convert, key and value, to the first `n` entries.
pub open spec fn pairs_convert(
    pairs: Seq<(Yaml, Yaml)>,
    es: Seq<(Value, Value)>,
    depth: nat,
    n: nat,
) -> bool
    decreases depth, n + 2,
{
    if n == 0 || n > pairs.len() || n > es.len() {
        n == 0
    } else {
        pairs_convert(pairs, es, depth, (n - 1) as nat) && key_converts(pairs[n - 1].0, es[n - 1].0, depth)
            && converts(pairs[n - 1].1, es[n - 1].1, depth)
    }
}

/// `node` has a value tree, with nesting below `depth`.
pub open spec fn decodable(node: Yaml, depth: nat) -> bool
    decreases depth, 0nat,
{
    if depth == 0 {
        false
    } else {
        match yaml_shape(node) {
            YamlShape::Array(items) => items_decodable(items@, (depth - 1) as nat, items@.len()),
            YamlShape::Hash(pairs) => pairs_decodable(pairs@, (depth - 1) as nat, pairs@.len()),
            YamlShape::Unsupported => false,
            _ => true,
        }
    }
}

/// The first `n` items have value trees.
pub open spec fn items_decodable(items: Seq<Yaml>, depth: nat, n: nat) -> bool
    decreases depth, n + 1,
{
    if n == 0 || n > items.len() {
        n == 0
    } else {
        items_decodable(items, depth, (n - 1) as nat) && decodable(items[n - 1], depth)
    }
}

/// The values of the first `n` pairs have value trees.
pub open spec fn pairs_decodable(pairs: Seq<(Yaml, Yaml)>, depth: nat, n: nat) -> bool
    decreases depth, n + 1,
{
    if n == 0 || n > pairs.len() {
        n == 0
    } else {
        pairs_decodable(pairs, depth, (n - 1) as nat) && decodable(pairs[n - 1].1, depth)
    }
}

proof fn lemma_items_undecodable(items: Seq<Yaml>, depth: nat, i: nat, n: nat)
    requires
        i < n <= items.len(),
        !decodable(items[i as int], depth),
    ensures
        !items_decodable(items, depth, n),
    decreases n,
{
    if i + 1 < n {
        lemma_items_undecodable(items, depth, i, (n - 1) as nat);
    }
}

proof fn lemma_pairs_undecodable(pairs: Seq<(Yaml, Yaml)>, depth: nat, i: nat, n: nat)
    requires
        i < n <= pairs.len(),
        !decodable(pairs[i as int].1, depth),
    ensures
        !pairs_decodable(pairs, depth, n),
    decreases n,
{
    if i + 1 < n {
        lemma_pairs_undecodable(pairs, depth, i, (n - 1) as nat);
    }
}

proof fn lemma_items_convert_extend(
    items: Seq<Yaml>,
    before: Seq<Value>,
    after: Seq<Value>,
    depth: nat,
    n: nat,
)
    requires
        n < items.len(),
        before.len() == n,
        after.len() == n + 1,
        after.subrange(0, n as int) == before,
        items_convert(items, before, depth, n),
        converts(items[n as int], after[n as int], depth),
    ensures
        items_convert(items, after, depth, n + 1),
    decreases n,
{
    lemma_items_convert_prefix(items, before, after, depth, n);
}

proof fn lemma_items_convert_prefix(
    items: Seq<Yaml>,
    before: Seq<Value>,
    after: Seq<Value>,
    depth: nat,
    n: nat,
)
    requires
        n <= before.len(),
        n <= after.len(),
        forall|j: int| 0 <= j < n ==> before[j] == after[j],
        items_convert(items, before, depth, n),
    ensures
        items_convert(items, after, depth, n),
    decreases n,
{
    if n > 0 {
        lemma_items_convert_prefix(items, before, after, depth, (n - 1) as nat);
    }
}

proof fn lemma_pairs_convert_extend(
    pairs: Seq<(Yaml, Yaml)>,
    before: Seq<(Value, Value)>,
    after: Seq<(Value, Value)>,
    depth: nat,
    n: nat,
)
    requires
        n < pairs.len(),
        before.len() == n,
        after.len() == n + 1,
        after.subrange(0, n as int) == before,
        pairs_convert(pairs, before, depth, n),
        key_converts(pairs[n as int].0, after[n as int].0, depth),
        converts(pairs[n as int].1, after[n as int].1, depth),
    ensures
        pairs_convert(pairs, after, depth, n + 1),
{
    lemma_pairs_convert_prefix(pairs, before, after, depth, n);
}

proof fn lemma_pairs_convert_prefix(
    pairs: Seq<(Yaml, Yaml)>,
    before: Seq<(Value, Value)>,
    after: Seq<(Value, Value)>,
    depth: nat,
    n: nat,
)
    requires
        n <= before.len(),
        n <= after.len(),
        forall|j: int| 0 <= j < n ==> before[j] == after[j],
        pairs_convert(pairs, before, depth, n),
    ensures
        pairs_convert(pairs, after, depth, n),
    decreases n,
{
    if n > 0 {
        lemma_pairs_convert_prefix(pairs, before, after, depth, (n - 1) as nat);
    }
}

/// Turns a loaded node into a value tree, failing on aliases, bad values and
/// nesting of `depth` levels or more outside mapping keys. A mapping key
/// without a value tree is kept as its debug text.
pub fn yaml_to_json(node: &Yaml, depth: usize) -> (r: Result<Value, String>)
    ensures
        r matches Ok(v) ==> converts(*node, v, depth as nat),
        r is Err ==> !decodable(*node, depth as nat),
    decreases depth,
{
    if depth == 0 {
        return Err(String::from_str("value nested too deeply"));
    }
    let sh = shape_of(node);
    match sh {
        YamlShape::Real(s) => Ok(Value::Real(s)),
        YamlShape::Integer(i) => Ok(Value::Int(i)),
        YamlShape::Text(s) => Ok(Value::Text(s)),
        YamlShape::Boolean(b) => Ok(Value::Bool(b)),
        YamlShape::Null => Ok(Value::Null),
        YamlShape::Array(items) => {
            let mut out: Vec<Value> = Vec::new();
            let mut i: usize = 0;
            while i < items.len()
                invariant
                    depth > 0,
                    yaml_shape(*node) == YamlShape::Array(items),
                    0 <= i <= items@.len(),
                    out@.len() == i,
                    items_convert(items@, out@, (depth - 1) as nat, i as nat),
                decreases items@.len() - i,
            {
                match yaml_to_json(&items[i], depth - 1) {
                    Ok(v) => {
                        let ghost before = out@;
                        out.push(v);
                        proof {
                            assert(out@.subrange(0, i as int) =~= before);
                            lemma_items_convert_extend(items@, before, out@, (depth - 1) as nat, i as nat);
                        }
                    },
                    Err(e) => {
                        proof {
                            lemma_items_undecodable(items@, (depth - 1) as nat, i as nat, items@.len());
                        }
                        return Err(e);
                    },
                }
                i = i + 1;
            }
            let ghost built = out@;
            let r = Value::List(Box::new(items_from_vec(out)));
            assert(items_convert(items@, built, (depth - 1) as nat, items@.len()));
            Ok(r)
        },
        YamlShape::Hash(pairs) => {
            let mut out: Vec<(Value, Value)> = Vec::new();
            let mut i: usize = 0;
            while i < pairs.len()
                invariant
                    depth > 0,
                    yaml_shape(*node) == YamlShape::Hash(pairs),
                    0 <= i <= pairs@.len(),
                    out@.len() == i,
                    pairs_convert(pairs@, out@, (depth - 1) as nat, i as nat),
                decreases pairs@.len() - i,
            {
                let k = match yaml_to_json(&pairs[i].0, depth - 1) {
                    Ok(k) => {
                        proof {
                            lemma_converts_decodable(pairs@[i as int].0, k, (depth - 1) as nat);
                        }
                        k
                    },
                    Err(_) => Value::Text(debug_text(&pairs[i].0)),
                };
                let v = match yaml_to_json(&pairs[i].1, depth - 1) {
                    Ok(v) => v,
                    Err(e) => {
                        proof {
                            lemma_pairs_undecodable(pairs@, (depth - 1) as nat, i as nat, pairs@.len());
                        }
                        return Err(e);
                    },
                };
                let ghost before = out@;
                out.push((k, v));
                proof {
                    assert(out@.subrange(0, i as int) =~= before);
                    lemma_pairs_convert_extend(pairs@, before, out@, (depth - 1) as nat, i as nat);
                }
                i = i + 1;
            }
            let ghost built = out@;
            let r = Value::Object(Box::new(entries_from_vec(out)));
            assert(pairs_convert(pairs@, built, (depth - 1) as nat, pairs@.len()));
            Ok(r)
        },
        YamlShape::Unsupported => Err(String::from_str("unsupported YAML value")),
    }
}

/// A node with a value tree is decodable.
pub proof fn lemma_converts_decodable(node: Yaml, v: Value, depth: nat)
    requires
        converts(node, v, depth),
    ensures
        decodable(node, depth),
    decreases depth, 0nat,
{
    match yaml_shape(node) {
        YamlShape::Array(items) => {
            if let Value::List(vs) = v {
                lemma_items_decodable(items@, vs.seq(), (depth - 1) as nat, items@.len());
            }
        },
        YamlShape::Hash(pairs) => {
            if let Value::Object(es) = v {
                lemma_pairs_decodable(pairs@, es.seq(), (depth - 1) as nat, pairs@.len());
            }
        },
        _ => {},
    }
}

proof fn lemma_items_decodable(items: Seq<Yaml>, vs: Seq<Value>, depth: nat, n: nat)
    requires
        items_convert(items, vs, depth, n),
    ensures
        items_decodable(items, depth, n),
    decreases depth, n + 1,
{
    if n > 0 {
        lemma_items_decodable(items, vs, depth, (n - 1) as nat);
        lemma_converts_decodable(items[n - 1], vs[n - 1], depth);
    }
}

proof fn lemma_pairs_decodable(pairs: Seq<(Yaml, Yaml)>, es: Seq<(Value, Value)>, depth: nat, n: nat)
    requires
        pairs_convert(pairs, es, depth, n),
    ensures
        pairs_decodable(pairs, depth, n),
    decreases depth, n + 1,
{
    if n > 0 {
        lemma_pairs_decodable(pairs, es, depth, (n - 1) as nat);
        lemma_converts_decodable(pairs[n - 1].1, es[n - 1].1, depth);
    }
}

/// A node has at most one value tree.
pub proof fn lemma_converts_unique(node: Yaml, v1: Value, v2: Value, depth: nat)
    requires
        converts(node, v1, depth),
        converts(node, v2, depth),
    ensures
        v1 == v2,
    decreases depth, 0nat,
{
    match yaml_shape(node) {
        YamlShape::Array(items) => {
            if let (Value::List(a), Value::List(b)) = (v1, v2) {
                lemma_items_unique(items@, a.seq(), b.seq(), (depth - 1) as nat, items@.len());
                assert(a.seq() =~= b.seq());
                lemma_items_seq_injective(*a, *b);
            }
        },
        YamlShape::Hash(pairs) => {
            if let (Value::Object(a), Value::Object(b)) = (v1, v2) {
                lemma_pairs_unique(pairs@, a.seq(), b.seq(), (depth - 1) as nat, pairs@.len());
                assert(a.seq() =~= b.seq());
                lemma_entries_seq_injective(*a, *b);
            }
        },
        _ => {},
    }
}

proof fn lemma_items_unique(items: Seq<Yaml>, a: Seq<Value>, b: Seq<Value>, depth: nat, n: nat)
    requires
        items_convert(items, a, depth, n),
        items_convert(items, b, depth, n),
    ensures
        forall|i: int| 0 <= i < n ==> a[i] == b[i],
    decreases depth, n + 1,
{
    if n > 0 {
        lemma_items_unique(items, a, b, depth, (n - 1) as nat);
        lemma_converts_unique(items[n - 1], a[n - 1], b[n - 1], depth);
    }
}

proof fn lemma_pairs_unique(
    pairs: Seq<(Yaml, Yaml)>,
    a: Seq<(Value, Value)>,
    b: Seq<(Value, Value)>,
    depth: nat,
    n: nat,
)
    requires
        pairs_convert(pairs, a, depth, n),
        pairs_convert(pairs, b, depth, n),
    ensures
        forall|i: int| 0 <= i < n ==> a[i] == b[i],
    decreases depth, n + 1,
{
    if n > 0 {
        lemma_pairs_unique(pairs, a, b, depth, (n - 1) as nat);
        assert(key_converts(pairs[n - 1].0, a[n - 1].0, depth));
        assert(key_converts(pairs[n - 1].0, b[n - 1].0, depth));
        if decodable(pairs[n - 1].0, depth) {
            lemma_converts_unique(pairs[n - 1].0, a[n - 1].0, b[n - 1].0, depth);
        } else {
            assert(a[n - 1].0 == b[n - 1].0);
        }
        lemma_converts_unique(pairs[n - 1].1, a[n - 1].1, b[n - 1].1, depth);
        assert(a[n - 1] == b[n - 1]);
    }
}

/// The value tree of the first document of `body`.
pub open spec fn body_decodes_to(body: Seq<char>, v: Value) -> bool {
    exists|docs: Seq<Yaml>|
        #[trigger] yaml_load(body) == Some(docs) && docs.len() > 0 && converts(
            docs[0],
            v,
            body.len() as nat,
        )
}

/// A body decodes to at most one value tree.
pub proof fn lemma_body_decodes_unique(body: Seq<char>, v1: Value, v2: Value)
    requires
        body_decodes_to(body, v1),
        body_decodes_to(body, v2),
    ensures
        v1 == v2,
{
    let d1 = choose|docs: Seq<Yaml>|
        #[trigger] yaml_load(body) == Some(docs) && docs.len() > 0 && converts(docs[0], v1, body.len() as nat);
    let d2 = choose|docs: Seq<Yaml>|
        #[trigger] yaml_load(body) == Some(docs) && docs.len() > 0 && converts(docs[0], v2, body.len() as nat);
    lemma_converts_unique(d1[0], v1, v2, body.len() as nat);
}

/// Decodes the first YAML document of a record body into a value tree; `None`
/// when the body does not scan, holds no document, or holds an alias or a bad
/// value other than as a mapping key.
pub fn decode_body(body: &str) -> (r: Option<Value>)
    ensures
        r matches Some(v) ==> body_decodes_to(body@, v),
        r is None ==> forall|v: Value| !body_decodes_to(body@, v),
{
    let chars = chars_of(body);
    let depth = chars.len();
    match load_documents(body) {
        Some(docs) => {
            if docs.len() == 0 {
                return None;
            }
            match yaml_to_json(&docs[0], depth) {
                Ok(v) => {
                    assert(yaml_load(body@) == Some(docs@));
                    Some(v)
                },
                Err(_) => {
                    assert forall|v: Value| !body_decodes_to(body@, v) by {
                        if body_decodes_to(body@, v) {
                            lemma_converts_decodable(docs@[0], v, depth as nat);
                        }
                    }
                    None
                },
            }
        },
        None => None,
    }
}

} // verus!
