//! The object tree of a record set.
use vstd::prelude::*;
use vstd::string::StringExecFns;
use crate::fields::{guid_or_empty, guid_text, ids_of, Number};
use crate::lookup::{
    find, find_last, hits, last_hit, Query,
    animator_for, animator_ref, behaviours_for, behaviours_from, game_object_at, game_object_ref,
    object_for_transform, object_of_transform, particle_system_for, particle_system_ref,
    sprite_renderer_for, sprite_renderer_ref, transform_at, transform_id_for, transform_id_of,
    transform_ref,
};
use crate::records::{
    Animator, MColor, MLocal, MSize, MonoBehaviour, ParticleSystem, PrefabElement, Record,
    SpriteRenderer, Transform,
};

verus! {

/// A sprite's rectangle: where it sits in its image, or its declared rect.
#[derive(Debug, Clone, PartialEq)]
pub struct SpriteRectInfo {
    pub x: Number,
    pub y: Number,
    pub width: Number,
    pub height: Number,
}

#[derive(Debug, Clone, PartialEq)]
pub struct Vector2 {
    pub x: Number,
    pub y: Number,
}

/// What sprite extraction yields for one sprite.
#[derive(Debug, Clone, PartialEq)]
pub struct SpriteInfo {
    /// The image as a data URI, when it could be produced.
    pub base64: Option<String>,
    pub rect: SpriteRectInfo,
    pub offset: Vector2,
}

/// The outcome of resolving one sprite guid; `info` is absent when the sprite
/// could not be resolved or extracted.
#[derive(Debug, Clone, PartialEq)]
pub struct SpriteEntry {
    pub guid: String,
    pub info: Option<SpriteInfo>,
}

impl SpriteRectInfo {
    pub fn duplicate(&self) -> (r: SpriteRectInfo)
        ensures
            r == *self,
    {
        SpriteRectInfo {
            x: self.x.duplicate(),
            y: self.y.duplicate(),
            width: self.width.duplicate(),
            height: self.height.duplicate(),
        }
    }
}

impl Vector2 {
    pub fn duplicate(&self) -> (r: Vector2)
        ensures
            r == *self,
    {
        Vector2 { x: self.x.duplicate(), y: self.y.duplicate() }
    }
}

#[derive(Debug, Clone, PartialEq)]
pub struct SimplifiedTransform {
    pub local_position: MLocal,
    pub local_scale: MLocal,
    pub local_rotation: MLocal,
    pub local_euler_angles_hint: MLocal,
    pub father_id: i64,
    /// The children's transform ids, in authored order.
    pub children_ids: Vec<i64>,
}

#[derive(Debug, Clone, PartialEq)]
pub struct SimplifiedSpriteRenderer {
    pub color: MColor,
    pub size: MSize,
    pub sprite_guid: String,
    pub sprite_base64: Option<String>,
    pub sprite_rect: Option<SpriteRectInfo>,
    pub sorting_order: i64,
    pub offset: Vector2,
    pub flip_x: i64,
    pub flip_y: i64,
}

#[derive(Debug, Clone, PartialEq)]
pub struct SimplifiedAnimator {
    pub enabled: i64,
    pub controller_guid: String,
}

#[derive(Debug, Clone, PartialEq)]
pub struct SimplifiedParticleSystem {
    pub enabled: i64,
    pub length_in_sec: Number,
    pub simulation_speed: Number,
    pub looping: i64,
    pub prewarm: i64,
    pub play_on_awake: i64,
    pub auto_random_seed: i64,
    pub start_lifetime: Number,
    pub start_speed: Number,
    pub start_size: Number,
    pub start_color: MColor,
    pub gravity_modifier: Number,
    pub emission_rate: Number,
    pub shape_type: i64,
}

#[derive(Debug, Clone, PartialEq)]
pub struct SimplifiedMonoBehaviour {
    pub unit_id: Option<i64>,
    pub is_ui: Option<i64>,
    pub pause_update_ui: Option<i64>,
    pub script_guid: String,
}

/// One object of the tree with its facets and its children.
#[derive(Debug)]
pub struct HierarchyNode {
    pub name: String,
    /// Always `GameObject`.
    pub node_type: String,
    pub is_active: i64,
    pub transform: Option<SimplifiedTransform>,
    pub sprite_renderer: Option<SimplifiedSpriteRenderer>,
    pub animator: Option<SimplifiedAnimator>,
    pub particle_system: Option<SimplifiedParticleSystem>,
    /// Not filled in from animation controllers: always absent.
    pub animation_clips: Option<Vec<String>>,
    pub mono_behaviours: Vec<SimplifiedMonoBehaviour>,
    pub children: Vec<HierarchyNode>,
}

/// Why no tree could be built.
#[derive(PartialEq, Eq, Structural, Clone, Copy, Debug)]
pub enum BuildError {
    /// No transform has a null father.
    NoRoot,
    /// Several transforms have a null father.
    AmbiguousRoot,
}

/// The first entry of `table`, from position `i` on, for guid `g`.
pub open spec fn entry_from(table: Seq<SpriteEntry>, g: Seq<char>, i: int) -> Option<SpriteInfo>
    decreases table.len() - i,
{
    if i < 0 || i >= table.len() {
        None
    } else if table[i].guid@ == g {
        table[i].info
    } else {
        entry_from(table, g, i + 1)
    }
}

/// What the table says of a sprite reference's guid.
pub open spec fn sprite_info_for(table: Seq<SpriteEntry>, guid: Option<String>) -> Option<SpriteInfo> {
    match guid {
        Some(g) => entry_from(table, g@, 0),
        None => None,
    }
}

pub open spec fn zero_offset() -> Vector2 {
    Vector2 { x: Number::Int(0), y: Number::Int(0) }
}

/// `s` is the sprite facet of renderer `sr`, its image taken from `table`.
pub open spec fn sprite_facet(sr: SpriteRenderer, table: Seq<SpriteEntry>, s: SimplifiedSpriteRenderer) -> bool {
    &&& s.color == sr.m_color
    &&& s.size == sr.m_size
    &&& s.sprite_guid@ == guid_text(sr.m_sprite.guid)
    &&& s.sorting_order == sr.m_sorting_order
    &&& s.flip_x == sr.m_flip_x
    &&& s.flip_y == sr.m_flip_y
    &&& match sprite_info_for(table, sr.m_sprite.guid) {
        Some(info) => s.sprite_base64 == info.base64 && s.sprite_rect == Some(info.rect) && s.offset
            == info.offset,
        None => s.sprite_base64 is None && s.sprite_rect is None && s.offset == zero_offset(),
    }
}

/// `s` is the transform facet of transform `t`.
pub open spec fn transform_facet(t: Transform, s: SimplifiedTransform) -> bool {
    &&& s.local_position == t.m_local_position
    &&& s.local_scale == t.m_local_scale
    &&& s.local_rotation == t.m_local_rotation
    &&& s.local_euler_angles_hint == t.m_local_euler_angles_hint
    &&& s.father_id == t.m_father.file_id
    &&& s.children_ids@ == ids_of(t.m_children@)
}

/// `s` is the animator facet of animator `a`.
pub open spec fn animator_facet(a: Animator, s: SimplifiedAnimator) -> bool {
    s.enabled == a.m_enabled && s.controller_guid@ == guid_text(a.m_controller.guid)
}

/// A curve constant, zero when absent.
pub open spec fn or_zero(n: Option<Number>) -> Number {
    match n {
        Some(x) => x,
        None => Number::Int(0),
    }
}

/// The particle facet of particle system `p`.
pub open spec fn particle_facet(p: ParticleSystem) -> SimplifiedParticleSystem {
    SimplifiedParticleSystem {
        enabled: p.m_enabled,
        length_in_sec: p.length_in_sec,
        simulation_speed: p.simulation_speed,
        looping: p.looping,
        prewarm: p.prewarm,
        play_on_awake: p.play_on_awake,
        auto_random_seed: p.auto_random_seed,
        start_lifetime: or_zero(p.start_lifetime),
        start_speed: or_zero(p.start_speed),
        start_size: or_zero(p.start_size),
        start_color: p.start_color,
        gravity_modifier: or_zero(p.gravity_modifier),
        emission_rate: or_zero(p.emission_rate),
        shape_type: p.shape_type,
    }
}

/// `s` lists the facets of the behaviour scripts `ms`, in their order.
pub open spec fn behaviour_facets(ms: Seq<MonoBehaviour>, s: Seq<SimplifiedMonoBehaviour>) -> bool {
    &&& s.len() == ms.len()
    &&& forall|i: int|
        0 <= i < s.len() ==> {
            &&& (#[trigger] s[i]).unit_id == ms[i].unit_id
            &&& s[i].is_ui == ms[i].is_ui
            &&& s[i].pause_update_ui == ms[i].pause_update_ui
            &&& s[i].script_guid@ == guid_text(ms[i].m_script.guid)
        }
}

/// The transform of object `go`, found through the transform that names it.
pub open spec fn transform_for(els: Seq<PrefabElement>, go: i64) -> Option<Transform> {
    match transform_id_of(els, go) {
        Some(tid) => transform_at(els, tid),
        None => None,
    }
}

/// The child transform ids of object `go`, in authored order.
pub open spec fn child_transform_ids(els: Seq<PrefabElement>, go: i64) -> Seq<i64> {
    match transform_for(els, go) {
        Some(t) => ids_of(t.m_children@),
        None => seq![],
    }
}

/// The object a child transform id leads to, when it is to be built under a
/// node whose path from the root is `path`: the transform is known, its object
/// is not null, has a game object record, and is not already on the path.
pub open spec fn child_object(els: Seq<PrefabElement>, tid: i64, path: Seq<i64>) -> Option<i64> {
    match object_of_transform(els, tid) {
        Some(g) => if g != 0 && game_object_at(els, g) is Some && !path.contains(g) {
            Some(g)
        } else {
            None
        },
        None => None,
    }
}

/// The objects that the first `n` child transform ids lead to, in order.
pub open spec fn kept_children(els: Seq<PrefabElement>, tids: Seq<i64>, path: Seq<i64>, n: int) -> Seq<i64>
    decreases n,
{
    if n <= 0 || n > tids.len() {
        seq![]
    } else {
        match child_object(els, tids[n - 1], path) {
            Some(g) => kept_children(els, tids, path, n - 1).push(g),
            None => kept_children(els, tids, path, n - 1),
        }
    }
}

/// The objects to build below object `go`, whose path from the root,
/// itself included, is `path`.
pub open spec fn children_of(els: Seq<PrefabElement>, go: i64, path: Seq<i64>) -> Seq<i64> {
    let tids = child_transform_ids(els, go);
    kept_children(els, tids, path, tids.len() as int)
}

/// `n` is the node of object `go`, under the ancestors `above`, with subtrees
/// cut at `fuel` levels. An object without a game object record gets an empty
/// name and is inactive; its facets are found as for any other.
pub open spec fn node_of(
    els: Seq<PrefabElement>,
    table: Seq<SpriteEntry>,
    go: i64,
    above: Seq<i64>,
    fuel: nat,
    n: HierarchyNode,
) -> bool
    decreases fuel, 0nat,
{
    {
        {
            &&& match game_object_at(els, go) {
                Some(g) => n.name@ == g.m_name@ && n.is_active == g.m_is_active,
                None => n.name@ == Seq::<char>::empty() && n.is_active == 0,
            }
            &&& n.node_type@ == "GameObject"@
            &&& match transform_for(els, go) {
                Some(t) => n.transform matches Some(s) && transform_facet(t, s),
                None => n.transform is None,
            }
            &&& match sprite_renderer_for(els, go) {
                Some(sr) => n.sprite_renderer matches Some(s) && sprite_facet(sr, table, s),
                None => n.sprite_renderer is None,
            }
            &&& match animator_for(els, go) {
                Some(a) => n.animator matches Some(s) && animator_facet(a, s),
                None => n.animator is None,
            }
            &&& n.particle_system == match particle_system_for(els, go) {
                Some(p) => Some(particle_facet(p)),
                None => None,
            }
            &&& n.animation_clips is None
            &&& behaviour_facets(behaviours_for(els, go), n.mono_behaviours@)
            &&& if fuel == 0 {
                n.children@.len() == 0
            } else {
                let kids = children_of(els, go, above.push(go));
                &&& n.children@.len() == kids.len()
                &&& nodes_of(
                    els,
                    table,
                    kids,
                    above.push(go),
                    (fuel - 1) as nat,
                    n.children@,
                    kids.len(),
                )
            }
        }
    }
}

/// The first `k` nodes are those of the first `k` objects.
pub open spec fn nodes_of(
    els: Seq<PrefabElement>,
    table: Seq<SpriteEntry>,
    gos: Seq<i64>,
    above: Seq<i64>,
    fuel: nat,
    ns: Seq<HierarchyNode>,
    k: nat,
) -> bool
    decreases fuel, k + 1,
{
    if k == 0 {
        true
    } else if k > gos.len() || k > ns.len() {
        false
    } else {
        nodes_of(els, table, gos, above, fuel, ns, (k - 1) as nat) && node_of(
            els,
            table,
            gos[k - 1],
            above,
            fuel,
            ns[k - 1],
        )
    }
}

impl SpriteInfo {
    pub fn duplicate(&self) -> (r: SpriteInfo)
        ensures
            r == *self,
    {
        let base64 = match &self.base64 {
            Some(b) => Some(b.clone()),
            None => None,
        };
        SpriteInfo { base64, rect: self.rect.duplicate(), offset: self.offset.duplicate() }
    }
}

/// The entry of `table` for guid `g`: the first that names it.
pub fn sprite_lookup<'a>(table: &'a Vec<SpriteEntry>, g: &String) -> (r: Option<&'a SpriteInfo>)
    ensures
        r matches Some(x) ==> entry_from(table@, g@, 0) == Some(*x),
        r is None ==> entry_from(table@, g@, 0) is None,
{
    let mut i: usize = 0;
    while i < table.len()
        invariant
            0 <= i <= table@.len(),
            entry_from(table@, g@, 0) == entry_from(table@, g@, i as int),
        decreases table@.len() - i,
    {
        if table[i].guid == *g {
            return match &table[i].info {
                Some(x) => Some(x),
                None => None,
            };
        }
        i = i + 1;
    }
    None
}

pub fn sprite_facet_of(sr: &SpriteRenderer, table: &Vec<SpriteEntry>) -> (r: SimplifiedSpriteRenderer)
    ensures
        sprite_facet(*sr, table@, r),
{
    let info = match &sr.m_sprite.guid {
        Some(g) => sprite_lookup(table, g),
        None => None,
    };
    let (sprite_base64, sprite_rect, offset) = match info {
        Some(x) => {
            let d = x.duplicate();
            (d.base64, Some(d.rect), d.offset)
        },
        None => (None, None, Vector2 { x: Number::Int(0), y: Number::Int(0) }),
    };
    SimplifiedSpriteRenderer {
        color: sr.m_color.duplicate(),
        size: sr.m_size.duplicate(),
        sprite_guid: guid_or_empty(&sr.m_sprite.guid),
        sprite_base64,
        sprite_rect,
        sorting_order: sr.m_sorting_order,
        offset,
        flip_x: sr.m_flip_x,
        flip_y: sr.m_flip_y,
    }
}

pub fn transform_facet_of(t: &Transform) -> (r: SimplifiedTransform)
    ensures
        transform_facet(*t, r),
{
    let mut ids: Vec<i64> = Vec::new();
    let mut i: usize = 0;
    while i < t.m_children.len()
        invariant
            0 <= i <= t.m_children@.len(),
            ids@ == ids_of(t.m_children@.subrange(0, i as int)),
        decreases t.m_children@.len() - i,
    {
        ids.push(t.m_children[i].file_id);
        assert(ids_of(t.m_children@.subrange(0, i + 1)) =~= ids_of(t.m_children@.subrange(0, i as int)).push(
            t.m_children@[i as int].file_id,
        ));
        i = i + 1;
    }
    assert(t.m_children@.subrange(0, i as int) =~= t.m_children@);
    SimplifiedTransform {
        local_position: t.m_local_position.duplicate(),
        local_scale: t.m_local_scale.duplicate(),
        local_rotation: t.m_local_rotation.duplicate(),
        local_euler_angles_hint: t.m_local_euler_angles_hint.duplicate(),
        father_id: t.m_father.file_id,
        children_ids: ids,
    }
}

pub fn animator_facet_of(a: &Animator) -> (r: SimplifiedAnimator)
    ensures
        animator_facet(*a, r),
{
    SimplifiedAnimator { enabled: a.m_enabled, controller_guid: guid_or_empty(&a.m_controller.guid) }
}

fn number_or_zero(n: &Option<Number>) -> (r: Number)
    ensures
        r == or_zero(*n),
{
    match n {
        Some(x) => x.duplicate(),
        None => Number::Int(0),
    }
}

pub fn particle_facet_of(p: &ParticleSystem) -> (r: SimplifiedParticleSystem)
    ensures
        r == particle_facet(*p),
{
    SimplifiedParticleSystem {
        enabled: p.m_enabled,
        length_in_sec: p.length_in_sec.duplicate(),
        simulation_speed: p.simulation_speed.duplicate(),
        looping: p.looping,
        prewarm: p.prewarm,
        play_on_awake: p.play_on_awake,
        auto_random_seed: p.auto_random_seed,
        start_lifetime: number_or_zero(&p.start_lifetime),
        start_speed: number_or_zero(&p.start_speed),
        start_size: number_or_zero(&p.start_size),
        start_color: p.start_color.duplicate(),
        gravity_modifier: number_or_zero(&p.gravity_modifier),
        emission_rate: number_or_zero(&p.emission_rate),
        shape_type: p.shape_type,
    }
}

/// The facets of the behaviour scripts of object `go`, in document order.
pub fn behaviour_facets_of(els: &Vec<PrefabElement>, go: i64) -> (r: Vec<SimplifiedMonoBehaviour>)
    ensures
        behaviour_facets(behaviours_for(els@, go), r@),
{
    let mut out: Vec<SimplifiedMonoBehaviour> = Vec::new();
    let mut i: usize = 0;
    while i < els.len()
        invariant
            0 <= i <= els@.len(),
            behaviour_facets(behaviours_from(els@, go, i as int), out@),
        decreases els@.len() - i,
    {
        match &els[i].record {
            Record::MonoBehaviour(m) => {
                if m.m_game_object.file_id == go {
                    out.push(
                        SimplifiedMonoBehaviour {
                            unit_id: m.unit_id,
                            is_ui: m.is_ui,
                            pause_update_ui: m.pause_update_ui,
                            script_guid: guid_or_empty(&m.m_script.guid),
                        },
                    );
                }
            },
            _ => {},
        }
        i = i + 1;
    }
    out
}

/// Whether `g` is among `ids`.
pub fn contains_id(ids: &Vec<i64>, g: i64) -> (r: bool)
    ensures
        r == ids@.contains(g),
{
    let mut i: usize = 0;
    while i < ids.len()
        invariant
            0 <= i <= ids@.len(),
            forall|j: int| 0 <= j < i ==> ids@[j] != g,
        decreases ids@.len() - i,
    {
        if ids[i] == g {
            assert(ids@[i as int] == g);
            return true;
        }
        i = i + 1;
    }
    false
}

/// The transform of object `go`, found through the transform that names it.
pub fn transform_for_object(els: &Vec<PrefabElement>, go: i64) -> (r: Option<&Transform>)
    ensures
        r matches Some(t) ==> transform_for(els@, go) == Some(*t),
        r is None ==> transform_for(els@, go) is None,
{
    match transform_id_for(els, go) {
        Some(tid) => transform_ref(els, tid),
        None => None,
    }
}

/// The objects to build below object `go`, whose path from the root, itself
/// included, is `path`.
pub fn children_for(els: &Vec<PrefabElement>, go: i64, path: &Vec<i64>) -> (r: Vec<i64>)
    ensures
        r@ == children_of(els@, go, path@),
{
    let mut out: Vec<i64> = Vec::new();
    match transform_for_object(els, go) {
        None => {
            return out;
        },
        Some(t) => {
            let ghost tids = ids_of(t.m_children@);
            assert(tids == child_transform_ids(els@, go));
            let mut i: usize = 0;
            while i < t.m_children.len()
                invariant
                    tids == ids_of(t.m_children@),
                    0 <= i <= t.m_children@.len(),
                    out@ == kept_children(els@, tids, path@, i as int),
                decreases t.m_children@.len() - i,
            {
                let tid = t.m_children[i].file_id;
                assert(tids[i as int] == tid);
                match object_for_transform(els, tid) {
                    Some(g) => {
                        if g != 0 && game_object_ref(els, g).is_some() && !contains_id(path, g) {
                            out.push(g);
                        }
                    },
                    None => {},
                }
                i = i + 1;
            }
            out
        },
    }
}

proof fn lemma_nodes_prefix(
    els: Seq<PrefabElement>,
    table: Seq<SpriteEntry>,
    gos: Seq<i64>,
    above: Seq<i64>,
    fuel: nat,
    ns1: Seq<HierarchyNode>,
    ns2: Seq<HierarchyNode>,
    k: nat,
)
    requires
        k <= ns1.len(),
        k <= ns2.len(),
        forall|j: int| 0 <= j < k ==> ns1[j] == ns2[j],
        nodes_of(els, table, gos, above, fuel, ns1, k),
    ensures
        nodes_of(els, table, gos, above, fuel, ns2, k),
    decreases k,
{
    if k > 0 {
        lemma_nodes_prefix(els, table, gos, above, fuel, ns1, ns2, (k - 1) as nat);
    }
}

/// Builds the node of object `go` below the ancestors `above`, cutting
/// subtrees at `fuel` levels.
pub fn build_node(
    els: &Vec<PrefabElement>,
    table: &Vec<SpriteEntry>,
    go: i64,
    above: &Vec<i64>,
    fuel: usize,
) -> (r: HierarchyNode)
    ensures
        node_of(els@, table@, go, above@, fuel as nat, r),
    decreases fuel,
{
    let (name, is_active) = match game_object_ref(els, go) {
        Some(g) => (g.m_name.clone(), g.m_is_active),
        None => (String::new(), 0i64),
    };
    let transform = match transform_for_object(els, go) {
        Some(t) => Some(transform_facet_of(t)),
        None => None,
    };
    let sprite_renderer = match sprite_renderer_ref(els, go) {
        Some(sr) => Some(sprite_facet_of(sr, table)),
        None => None,
    };
    let animator = match animator_ref(els, go) {
        Some(a) => Some(animator_facet_of(a)),
        None => None,
    };
    let particle_system = match particle_system_ref(els, go) {
        Some(p) => Some(particle_facet_of(p)),
        None => None,
    };
    let mono_behaviours = behaviour_facets_of(els, go);
    let mut children: Vec<HierarchyNode> = Vec::new();
    if fuel > 0 {
        let mut path: Vec<i64> = Vec::new();
        let mut j: usize = 0;
        while j < above.len()
            invariant
                0 <= j <= above@.len(),
                path@ == above@.subrange(0, j as int),
            decreases above@.len() - j,
        {
            path.push(above[j]);
            assert(path@ =~= above@.subrange(0, j + 1));
            j = j + 1;
        }
        path.push(go);
        assert(path@ =~= above@.push(go));
        let kids = children_for(els, go, &path);
        let mut i: usize = 0;
        while i < kids.len()
            invariant
                fuel > 0,
                path@ == above@.push(go),
                kids@ == children_of(els@, go, path@),
                0 <= i <= kids@.len(),
                children@.len() == i,
                nodes_of(els@, table@, kids@, path@, (fuel - 1) as nat, children@, i as nat),
            decreases kids@.len() - i,
        {
            let node = build_node(els, table, kids[i], &path, fuel - 1);
            let ghost before = children@;
            children.push(node);
            proof {
                lemma_nodes_prefix(els@, table@, kids@, path@, (fuel - 1) as nat, before, children@, i as nat);
            }
            i = i + 1;
        }
    }
    HierarchyNode {
        name,
        node_type: String::from_str("GameObject"),
        is_active,
        transform,
        sprite_renderer,
        animator,
        particle_system,
        animation_clips: None,
        mono_behaviours,
        children,
    }
}

/// Record `i` is a transform with a null father, and the transform that its
/// id stands for.
pub open spec fn is_root_at(els: Seq<PrefabElement>, i: int) -> bool {
    &&& els[i].record matches Record::Transform(t) && t.m_father.file_id == 0
    &&& find(els, Query::TransformId(els[i].id)) == Some(i)
}

/// The ids of the root transforms among the first `n` records.
pub open spec fn roots_from(els: Seq<PrefabElement>, n: int) -> Seq<i64>
    decreases n,
{
    if n <= 0 || n > els.len() {
        seq![]
    } else if is_root_at(els, n - 1) {
        roots_from(els, n - 1).push(els[n - 1].id)
    } else {
        roots_from(els, n - 1)
    }
}

/// The ids of the transforms with a null father.
pub open spec fn roots(els: Seq<PrefabElement>) -> Seq<i64> {
    roots_from(els, els.len() as int)
}

/// The tree that a record set describes, when it has exactly one root.
pub open spec fn tree_of(
    els: Seq<PrefabElement>,
    table: Seq<SpriteEntry>,
    r: Result<HierarchyNode, BuildError>,
) -> bool {
    let rs = roots(els);
    if rs.len() == 0 {
        r == Err::<HierarchyNode, BuildError>(BuildError::NoRoot)
    } else if rs.len() > 1 {
        r == Err::<HierarchyNode, BuildError>(BuildError::AmbiguousRoot)
    } else {
        match object_of_transform(els, rs[0]) {
            Some(go) => r matches Ok(n) && node_of(els, table, go, seq![], els.len(), n),
            None => false,
        }
    }
}

proof fn lemma_roots_have_transforms(els: Seq<PrefabElement>, n: int, k: int)
    requires
        0 <= k < roots_from(els, n).len(),
    ensures
        transform_at(els, roots_from(els, n)[k]) is Some,
    decreases n,
{
    if n > 0 && n <= els.len() {
        let prev = roots_from(els, n - 1);
        if k < prev.len() {
            lemma_roots_have_transforms(els, n - 1, k);
            if is_root_at(els, n - 1) {
                assert(roots_from(els, n)[k] == prev[k]);
            }
        }
    }
}

/// The root transforms: their ids, in document order.
pub fn root_transforms(els: &Vec<PrefabElement>) -> (r: Vec<i64>)
    ensures
        r@ == roots(els@),
{
    let mut out: Vec<i64> = Vec::new();
    let mut i: usize = 0;
    while i < els.len()
        invariant
            0 <= i <= els@.len(),
            out@ == roots_from(els@, i as int),
        decreases els@.len() - i,
    {
        let e = &els[i];
        let null_father = match &e.record {
            Record::Transform(t) => t.m_father.file_id == 0,
            _ => false,
        };
        if null_father {
            match find_last(els, Query::TransformId(e.id)) {
                Some(k) => {
                    if k == i {
                        out.push(e.id);
                    }
                },
                None => {},
            }
        }
        i = i + 1;
    }
    out
}

/// Builds the object tree of a record set from its one root transform.
/// Children follow each transform's authored child list; a child whose
/// transform or game object is unknown, or whose object is already on the
/// path from the root, is dropped.
pub fn build_hierarchy(els: &Vec<PrefabElement>, sprites: &Vec<SpriteEntry>) -> (r: Result<
    HierarchyNode,
    BuildError,
>)
    ensures
        tree_of(els@, sprites@, r),
{
    let rs = root_transforms(els);
    if rs.len() == 0 {
        return Err(BuildError::NoRoot);
    }
    if rs.len() > 1 {
        return Err(BuildError::AmbiguousRoot);
    }
    proof {
        lemma_roots_have_transforms(els@, els@.len() as int, 0);
    }
    match object_for_transform(els, rs[0]) {
        Some(go) => {
            let above: Vec<i64> = Vec::new();
            assert(above@ =~= seq![]);
            Ok(build_node(els, sprites, go, &above, els.len()))
        },
        None => {
            proof {
                assert(false);
            }
            Err(BuildError::NoRoot)
        },
    }
}

proof fn lemma_kept_avoid(els: Seq<PrefabElement>, tids: Seq<i64>, path: Seq<i64>, n: int)
    ensures
        forall|i: int|
            0 <= i < kept_children(els, tids, path, n).len() ==> !path.contains(
                #[trigger] kept_children(els, tids, path, n)[i],
            ),
    decreases n,
{
    if n > 0 && n <= tids.len() {
        lemma_kept_avoid(els, tids, path, n - 1);
        let prev = kept_children(els, tids, path, n - 1);
        let cur = kept_children(els, tids, path, n);
        match child_object(els, tids[n - 1], path) {
            Some(g) => {
                assert(cur == prev.push(g));
                assert forall|i: int| 0 <= i < cur.len() implies !path.contains(#[trigger] cur[i]) by {
                    if i < prev.len() {
                        assert(cur[i] == prev[i]);
                    }
                }
            },
            None => {},
        }
    }
}

/// A child reference that leads back to the node itself or to one of its
/// ancestors is dropped: no object below a node is on that node's path from
/// the root, so building follows no cycle.
pub proof fn lemma_no_cycles(els: Seq<PrefabElement>, go: i64, path: Seq<i64>)
    ensures
        forall|i: int|
            0 <= i < children_of(els, go, path).len() ==> !path.contains(
                #[trigger] children_of(els, go, path)[i],
            ),
{
    let tids = child_transform_ids(els, go);
    lemma_kept_avoid(els, tids, path, tids.len() as int);
}

proof fn lemma_kept_empty(els: Seq<PrefabElement>, tids: Seq<i64>, path: Seq<i64>, n: int)
    requires
        forall|i: int| 0 <= i < tids.len() ==> child_object(els, #[trigger] tids[i], path) is None,
    ensures
        kept_children(els, tids, path, n).len() == 0,
    decreases n,
{
    if n > 0 && n <= tids.len() {
        lemma_kept_empty(els, tids, path, n - 1);
    }
}

/// A record set of one game object and one transform with a null father that
/// belongs to it builds a tree of one node, with the object's name and active
/// flag and no children.
pub proof fn lemma_single_object(
    ge: PrefabElement,
    te: PrefabElement,
    table: Seq<SpriteEntry>,
    r: Result<HierarchyNode, BuildError>,
)
    requires
        ge.record is GameObject,
        te.record matches Record::Transform(t) && t.m_father.file_id == 0 && t.m_game_object.file_id
            == ge.id,
        tree_of(seq![ge, te], table, r),
    ensures
        r matches Ok(n) && {
            &&& ge.record matches Record::GameObject(g) && n.name@ == g.m_name@ && n.is_active
                == g.m_is_active
            &&& n.children@.len() == 0
        },
{
    let els = seq![ge, te];
    let t = match te.record {
        Record::Transform(t) => t,
        _ => arbitrary(),
    };
    assert(last_hit(els, Query::TransformId(te.id), 2) == Some(1int));
    assert(find(els, Query::TransformId(te.id)) == Some(1int));
    assert(is_root_at(els, 1));
    assert(!is_root_at(els, 0));
    assert(roots_from(els, 0) =~= seq![]);
    assert(roots_from(els, 1) =~= seq![]);
    assert(roots(els) =~= seq![te.id]);
    assert(transform_at(els, te.id) == Some(t));
    assert(object_of_transform(els, te.id) == Some(ge.id));
    assert(last_hit(els, Query::GameObjectId(ge.id), 1) == Some(0int));
    assert(game_object_at(els, ge.id) is Some);
    let path = seq![ge.id];
    assert(seq![].push(ge.id) =~= path);
    let tids = child_transform_ids(els, ge.id);
    assert forall|i: int| 0 <= i < tids.len() implies child_object(els, #[trigger] tids[i], path) is None by {
        let tid = tids[i];
        if tid == te.id {
            assert(path[0] == ge.id);
            assert(path.contains(ge.id));
        } else {
            assert(last_hit(els, Query::TransformId(tid), 0) is None);
            assert(last_hit(els, Query::TransformId(tid), 1) is None);
            assert(last_hit(els, Query::TransformId(tid), 2) is None);
        }
    }
    lemma_kept_empty(els, tids, path, tids.len() as int);
}

proof fn lemma_unique_found(els: Seq<PrefabElement>, i: int, n: int)
    requires
        0 <= i < n <= els.len(),
        els[i].record is Transform,
        forall|k: int, l: int| 0 <= k < l < els.len() ==> els[k].id != els[l].id,
    ensures
        last_hit(els, Query::TransformId(els[i].id), n) == Some(i),
    decreases n,
{
    if n - 1 > i {
        lemma_unique_found(els, i, n - 1);
    }
}

proof fn lemma_roots_count(els: Seq<PrefabElement>, i: int, j: int, n: int)
    requires
        0 <= i < j < els.len(),
        0 <= n <= els.len(),
        is_root_at(els, i),
        is_root_at(els, j),
    ensures
        roots_from(els, n).len() >= (if i < n { 1int } else { 0int }) + (if j < n { 1int } else { 0int }),
    decreases n,
{
    if n > 0 {
        lemma_roots_count(els, i, j, n - 1);
    }
}

/// Two transforms with a null father make the root ambiguous: the build
/// fails rather than pick one.
pub proof fn lemma_two_roots_ambiguous(
    els: Seq<PrefabElement>,
    table: Seq<SpriteEntry>,
    i: int,
    j: int,
    r: Result<HierarchyNode, BuildError>,
)
    requires
        0 <= i < j < els.len(),
        forall|k: int, l: int| 0 <= k < l < els.len() ==> els[k].id != els[l].id,
        els[i].record matches Record::Transform(t) && t.m_father.file_id == 0,
        els[j].record matches Record::Transform(t) && t.m_father.file_id == 0,
        tree_of(els, table, r),
    ensures
        r == Err::<HierarchyNode, BuildError>(BuildError::AmbiguousRoot),
{
    lemma_unique_found(els, i, els.len() as int);
    lemma_unique_found(els, j, els.len() as int);
    lemma_roots_count(els, i, j, els.len() as int);
}

/// The ids of the game object records among the first `n` records.
pub open spec fn object_ids_from(els: Seq<PrefabElement>, n: int) -> Seq<i64>
    decreases n,
{
    if n <= 0 || n > els.len() {
        seq![]
    } else if els[n - 1].record is GameObject {
        object_ids_from(els, n - 1).push(els[n - 1].id)
    } else {
        object_ids_from(els, n - 1)
    }
}

/// The number of game object records.
pub open spec fn object_count(els: Seq<PrefabElement>) -> nat {
    object_ids_from(els, els.len() as int).len()
}

/// No path from `n` down to a leaf has more than `d` nodes.
pub open spec fn within_depth(n: HierarchyNode, d: nat) -> bool
    decreases d, 0nat,
{
    d >= 1 && children_within(n.children@, (d - 1) as nat, n.children@.len())
}

/// The first `k` nodes are each within depth `d`.
pub open spec fn children_within(cs: Seq<HierarchyNode>, d: nat, k: nat) -> bool
    decreases d, k + 1,
{
    if k == 0 {
        true
    } else if k > cs.len() {
        false
    } else {
        children_within(cs, d, (k - 1) as nat) && within_depth(cs[k - 1], d)
    }
}

proof fn lemma_object_ids_hold(els: Seq<PrefabElement>, g: i64, n: int)
    requires
        0 <= n <= els.len(),
        last_hit(els, Query::GameObjectId(g), n) is Some,
    ensures
        object_ids_from(els, n).contains(g),
    decreases n,
{
    if n > 0 {
        if hits(els[n - 1], Query::GameObjectId(g)) {
            assert(object_ids_from(els, n).last() == g);
        } else {
            lemma_object_ids_hold(els, g, n - 1);
            let prev = object_ids_from(els, n - 1);
            let k = choose|k: int| 0 <= k < prev.len() && #[trigger] prev[k] == g;
            if els[n - 1].record is GameObject {
                assert(object_ids_from(els, n)[k] == g);
            }
        }
    }
}

/// A path of distinct objects with game object records is no longer than
/// the number of game object records.
proof fn lemma_path_bounded(els: Seq<PrefabElement>, path: Seq<i64>)
    requires
        path.no_duplicates(),
        forall|i: int| 0 <= i < path.len() ==> game_object_at(els, #[trigger] path[i]) is Some,
    ensures
        path.len() <= object_count(els),
{
    let ids = object_ids_from(els, els.len() as int);
    assert forall|a: i64| path.to_set().contains(a) implies ids.to_set().contains(a) by {
        let i = choose|i: int| 0 <= i < path.len() && path[i] == a;
        assert(game_object_at(els, path[i]) is Some);
        lemma_object_ids_hold(els, a, els.len() as int);
    }
    path.unique_seq_to_set();
    ids.lemma_cardinality_of_set();
    vstd::seq_lib::seq_to_set_is_finite(ids);
    vstd::set_lib::lemma_len_subset(path.to_set(), ids.to_set());
}

proof fn lemma_kept_have_objects(els: Seq<PrefabElement>, tids: Seq<i64>, path: Seq<i64>, n: int, i: int)
    requires
        0 <= i < kept_children(els, tids, path, n).len(),
    ensures
        game_object_at(els, kept_children(els, tids, path, n)[i]) is Some,
        !path.contains(kept_children(els, tids, path, n)[i]),
    decreases n,
{
    if n > 0 && n <= tids.len() {
        let prev = kept_children(els, tids, path, n - 1);
        if i < prev.len() {
            lemma_kept_have_objects(els, tids, path, n - 1, i);
            if child_object(els, tids[n - 1], path) is Some {
                assert(kept_children(els, tids, path, n)[i] == prev[i]);
            }
        }
    }
}

/// `path`'s objects from position `from` on have game object records.
pub open spec fn objects_known(els: Seq<PrefabElement>, path: Seq<i64>, from: int) -> bool {
    forall|i: int| from <= i < path.len() ==> game_object_at(els, #[trigger] path[i]) is Some
}

proof fn lemma_path_bounded_from(els: Seq<PrefabElement>, path: Seq<i64>, free: bool)
    requires
        path.no_duplicates(),
        objects_known(els, path, if free { 1int } else { 0int }),
        free ==> path.len() >= 1,
    ensures
        path.len() <= object_count(els) + (if free { 1int } else { 0int }),
{
    if free {
        let t = path.drop_first();
        assert forall|i: int| 0 <= i < t.len() implies game_object_at(els, #[trigger] t[i]) is Some by {
            assert(t[i] == path[i + 1]);
        }
        assert(t.no_duplicates()) by {
            assert forall|i: int, j: int| 0 <= i < t.len() && 0 <= j < t.len() && i != j implies t[i] != t[j] by {
                assert(t[i] == path[i + 1] && t[j] == path[j + 1]);
            }
        }
        lemma_path_bounded(els, t);
    } else {
        lemma_path_bounded(els, path);
    }
}

proof fn lemma_node_depth(
    els: Seq<PrefabElement>,
    table: Seq<SpriteEntry>,
    go: i64,
    above: Seq<i64>,
    fuel: nat,
    n: HierarchyNode,
    free: bool,
)
    requires
        node_of(els, table, go, above, fuel, n),
        above.push(go).no_duplicates(),
        objects_known(els, above.push(go), if free { 1int } else { 0int }),
        free ==> above.len() >= 1,
    ensures
        within_depth(n, (object_count(els) + (if free { 1int } else { 0int }) - above.len()) as nat),
    decreases fuel, 0nat,
{
    let path = above.push(go);
    lemma_path_bounded_from(els, path, free);
    if fuel == 0 {
        assert(n.children@.len() == 0);
    } else {
        let kids = children_of(els, go, path);
        lemma_nodes_depth(els, table, go, kids, path, (fuel - 1) as nat, n.children@, kids.len(), free);
    }
}

proof fn lemma_nodes_depth(
    els: Seq<PrefabElement>,
    table: Seq<SpriteEntry>,
    go: i64,
    kids: Seq<i64>,
    path: Seq<i64>,
    fuel: nat,
    ns: Seq<HierarchyNode>,
    k: nat,
    free: bool,
)
    requires
        kids == children_of(els, go, path),
        nodes_of(els, table, kids, path, fuel, ns, k),
        k <= kids.len(),
        path.no_duplicates(),
        objects_known(els, path, if free { 1int } else { 0int }),
        path.len() >= 1,
        path.len() <= object_count(els) + (if free { 1int } else { 0int }),
    ensures
        children_within(ns, (object_count(els) + (if free { 1int } else { 0int }) - path.len()) as nat, k),
    decreases fuel, k + 1,
{
    if k > 0 {
        lemma_nodes_depth(els, table, go, kids, path, fuel, ns, (k - 1) as nat, free);
        let kid = kids[k - 1];
        let tids = child_transform_ids(els, go);
        lemma_kept_have_objects(els, tids, path, tids.len() as int, k - 1);
        let p2 = path.push(kid);
        assert forall|i: int| (if free { 1int } else { 0int }) <= i < p2.len() implies game_object_at(
            els,
            #[trigger] p2[i],
        ) is Some by {
            if i < path.len() {
                assert(p2[i] == path[i]);
            }
        }
        assert(p2.no_duplicates()) by {
            assert forall|i: int, j: int| 0 <= i < p2.len() && 0 <= j < p2.len() && i != j implies p2[i] != p2[j] by {
                if i < path.len() && j < path.len() {
                    assert(p2[i] == path[i] && p2[j] == path[j]);
                } else if i < path.len() {
                    assert(p2[i] == path[i]);
                } else if j < path.len() {
                    assert(p2[j] == path[j]);
                }
            }
        }
        lemma_node_depth(els, table, kid, path, fuel, ns[k - 1], free);
    }
}

/// Building never follows a cycle: each path from the root of the tree
/// visits distinct objects, so no path is longer than the number of game
/// object records, or one longer when the root's object has no record.
pub proof fn lemma_tree_depth(els: Seq<PrefabElement>, table: Seq<SpriteEntry>, r: Result<HierarchyNode, BuildError>)
    requires
        tree_of(els, table, r),
        r is Ok,
    ensures
        r matches Ok(n) && match object_of_transform(els, roots(els)[0]) {
            Some(go) => within_depth(
                n,
                object_count(els) + (if game_object_at(els, go) is Some { 0nat } else { 1nat }),
            ),
            None => false,
        },
{
    let go = object_of_transform(els, roots(els)[0])->0;
    let n = r->Ok_0;
    let above = Seq::<i64>::empty();
    assert(above.push(go) =~= seq![go]);
    if game_object_at(els, go) is Some {
        assert(seq![go].no_duplicates());
        lemma_node_depth(els, table, go, above, els.len(), n, false);
    } else {
        lemma_root_free_depth(els, table, go, els.len(), n);
    }
}

proof fn lemma_root_free_depth(els: Seq<PrefabElement>, table: Seq<SpriteEntry>, go: i64, fuel: nat, n: HierarchyNode)
    requires
        node_of(els, table, go, seq![], fuel, n),
    ensures
        within_depth(n, object_count(els) + 1),
{
    let path = Seq::<i64>::empty().push(go);
    assert(path =~= seq![go]);
    assert(path.no_duplicates());
    if fuel > 0 {
        let kids = children_of(els, go, path);
        lemma_nodes_depth(els, table, go, kids, path, (fuel - 1) as nat, n.children@, kids.len(), true);
    }
}

} // verus!
