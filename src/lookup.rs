//! Lookups into a record set: each record kind indexed by its own id or by the
//! id of the object it belongs to. Where several records answer, the last one
//! in document order wins.
use vstd::prelude::*;
use crate::records::{
    Animator, GameObject, MonoBehaviour, ParticleSystem, PrefabElement, Record, SpriteRenderer,
    Transform,
};

verus! {

/// What a lookup asks for.
#[derive(Clone, Copy)]
pub enum Query {
    /// The game object record with this id.
    GameObjectId(i64),
    /// The transform record with this id.
    TransformId(i64),
    /// A transform belonging to this object.
    TransformOf(i64),
    /// A sprite renderer belonging to this object.
    SpriteOf(i64),
    /// An animator belonging to this object.
    AnimatorOf(i64),
    /// A particle system belonging to this object.
    ParticleOf(i64),
}

pub open spec fn hits(e: PrefabElement, q: Query) -> bool {
    match q {
        Query::GameObjectId(id) => e.id == id && e.record is GameObject,
        Query::TransformId(id) => e.id == id && e.record is Transform,
        Query::TransformOf(go) => e.record matches Record::Transform(t) && t.m_game_object.file_id == go,
        Query::SpriteOf(go) => e.record matches Record::SpriteRenderer(x) && x.m_game_object.file_id == go,
        Query::AnimatorOf(go) => e.record matches Record::Animator(x) && x.m_game_object.file_id == go,
        Query::ParticleOf(go) => e.record matches Record::ParticleSystem(x) && x.m_game_object.file_id
            == go,
    }
}

/// The position of the last of the first `n` records that answers `q`.
pub open spec fn last_hit(els: Seq<PrefabElement>, q: Query, n: int) -> Option<int>
    decreases n,
{
    if n <= 0 || n > els.len() {
        None
    } else if hits(els[n - 1], q) {
        Some(n - 1)
    } else {
        last_hit(els, q, n - 1)
    }
}

pub open spec fn find(els: Seq<PrefabElement>, q: Query) -> Option<int> {
    last_hit(els, q, els.len() as int)
}

pub fn hits_exec(e: &PrefabElement, q: Query) -> (r: bool)
    ensures
        r == hits(*e, q),
{
    match q {
        Query::GameObjectId(id) => e.id == id && matches!(e.record, Record::GameObject(_)),
        Query::TransformId(id) => e.id == id && matches!(e.record, Record::Transform(_)),
        Query::TransformOf(go) => match &e.record {
            Record::Transform(t) => t.m_game_object.file_id == go,
            _ => false,
        },
        Query::SpriteOf(go) => match &e.record {
            Record::SpriteRenderer(x) => x.m_game_object.file_id == go,
            _ => false,
        },
        Query::AnimatorOf(go) => match &e.record {
            Record::Animator(x) => x.m_game_object.file_id == go,
            _ => false,
        },
        Query::ParticleOf(go) => match &e.record {
            Record::ParticleSystem(x) => x.m_game_object.file_id == go,
            _ => false,
        },
    }
}

/// The position of the last record that answers `q`.
pub fn find_last(els: &Vec<PrefabElement>, q: Query) -> (r: Option<usize>)
    ensures
        r matches Some(i) ==> find(els@, q) == Some(i as int) && i < els@.len(),
        r is None ==> find(els@, q) is None,
{
    let mut n: usize = els.len();
    while n > 0
        invariant
            0 <= n <= els@.len(),
            find(els@, q) == last_hit(els@, q, n as int),
        decreases n,
    {
        if hits_exec(&els[n - 1], q) {
            return Some(n - 1);
        }
        n = n - 1;
    }
    None
}

/// The game object with id `id`.
pub open spec fn game_object_at(els: Seq<PrefabElement>, id: i64) -> Option<GameObject> {
    match find(els, Query::GameObjectId(id)) {
        Some(i) => match els[i].record {
            Record::GameObject(g) => Some(g),
            _ => None,
        },
        None => None,
    }
}

/// The transform with id `id`.
pub open spec fn transform_at(els: Seq<PrefabElement>, id: i64) -> Option<Transform> {
    match find(els, Query::TransformId(id)) {
        Some(i) => match els[i].record {
            Record::Transform(t) => Some(t),
            _ => None,
        },
        None => None,
    }
}

/// The id of the transform that belongs to object `go`.
pub open spec fn transform_id_of(els: Seq<PrefabElement>, go: i64) -> Option<i64> {
    match find(els, Query::TransformOf(go)) {
        Some(i) => Some(els[i].id),
        None => None,
    }
}

/// The object that the transform with id `tid` belongs to.
pub open spec fn object_of_transform(els: Seq<PrefabElement>, tid: i64) -> Option<i64> {
    match transform_at(els, tid) {
        Some(t) => Some(t.m_game_object.file_id),
        None => None,
    }
}

pub open spec fn sprite_renderer_for(els: Seq<PrefabElement>, go: i64) -> Option<SpriteRenderer> {
    match find(els, Query::SpriteOf(go)) {
        Some(i) => match els[i].record {
            Record::SpriteRenderer(x) => Some(x),
            _ => None,
        },
        None => None,
    }
}

pub open spec fn animator_for(els: Seq<PrefabElement>, go: i64) -> Option<Animator> {
    match find(els, Query::AnimatorOf(go)) {
        Some(i) => match els[i].record {
            Record::Animator(x) => Some(x),
            _ => None,
        },
        None => None,
    }
}

pub open spec fn particle_system_for(els: Seq<PrefabElement>, go: i64) -> Option<ParticleSystem> {
    match find(els, Query::ParticleOf(go)) {
        Some(i) => match els[i].record {
            Record::ParticleSystem(x) => Some(x),
            _ => None,
        },
        None => None,
    }
}

/// The behaviour scripts among the first `n` records that belong to `go`, in
/// document order.
pub open spec fn behaviours_from(els: Seq<PrefabElement>, go: i64, n: int) -> Seq<MonoBehaviour>
    decreases n,
{
    if n <= 0 || n > els.len() {
        seq![]
    } else {
        let before = behaviours_from(els, go, n - 1);
        match els[n - 1].record {
            Record::MonoBehaviour(m) => if m.m_game_object.file_id == go {
                before.push(m)
            } else {
                before
            },
            _ => before,
        }
    }
}

pub open spec fn behaviours_for(els: Seq<PrefabElement>, go: i64) -> Seq<MonoBehaviour> {
    behaviours_from(els, go, els.len() as int)
}

pub fn game_object_ref(els: &Vec<PrefabElement>, id: i64) -> (r: Option<&GameObject>)
    ensures
        r matches Some(g) ==> game_object_at(els@, id) == Some(*g),
        r is None ==> game_object_at(els@, id) is None,
{
    match find_last(els, Query::GameObjectId(id)) {
        Some(i) => match &els[i].record {
            Record::GameObject(g) => Some(g),
            _ => None,
        },
        None => None,
    }
}

pub fn transform_ref(els: &Vec<PrefabElement>, id: i64) -> (r: Option<&Transform>)
    ensures
        r matches Some(t) ==> transform_at(els@, id) == Some(*t),
        r is None ==> transform_at(els@, id) is None,
{
    match find_last(els, Query::TransformId(id)) {
        Some(i) => match &els[i].record {
            Record::Transform(t) => Some(t),
            _ => None,
        },
        None => None,
    }
}

pub fn transform_id_for(els: &Vec<PrefabElement>, go: i64) -> (r: Option<i64>)
    ensures
        r == transform_id_of(els@, go),
{
    match find_last(els, Query::TransformOf(go)) {
        Some(i) => Some(els[i].id),
        None => None,
    }
}

pub fn object_for_transform(els: &Vec<PrefabElement>, tid: i64) -> (r: Option<i64>)
    ensures
        r == object_of_transform(els@, tid),
{
    match transform_ref(els, tid) {
        Some(t) => Some(t.m_game_object.file_id),
        None => None,
    }
}

pub fn sprite_renderer_ref(els: &Vec<PrefabElement>, go: i64) -> (r: Option<&SpriteRenderer>)
    ensures
        r matches Some(x) ==> sprite_renderer_for(els@, go) == Some(*x),
        r is None ==> sprite_renderer_for(els@, go) is None,
{
    match find_last(els, Query::SpriteOf(go)) {
        Some(i) => match &els[i].record {
            Record::SpriteRenderer(x) => Some(x),
            _ => None,
        },
        None => None,
    }
}

pub fn animator_ref(els: &Vec<PrefabElement>, go: i64) -> (r: Option<&Animator>)
    ensures
        r matches Some(x) ==> animator_for(els@, go) == Some(*x),
        r is None ==> animator_for(els@, go) is None,
{
    match find_last(els, Query::AnimatorOf(go)) {
        Some(i) => match &els[i].record {
            Record::Animator(x) => Some(x),
            _ => None,
        },
        None => None,
    }
}

pub fn particle_system_ref(els: &Vec<PrefabElement>, go: i64) -> (r: Option<&ParticleSystem>)
    ensures
        r matches Some(x) ==> particle_system_for(els@, go) == Some(*x),
        r is None ==> particle_system_for(els@, go) is None,
{
    match find_last(els, Query::ParticleOf(go)) {
        Some(i) => match &els[i].record {
            Record::ParticleSystem(x) => Some(x),
            _ => None,
        },
        None => None,
    }
}

} // verus!
