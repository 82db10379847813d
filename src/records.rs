//! The typed records of a prefab document and their projection from value trees.
use vstd::prelude::*;
use crate::fields::{
    asset_ref_of, component_ids, component_list_of, ids_of, int_of, number_of, opt_int_of,
    opt_number_of, read_asset_ref, read_components, read_int, read_number, read_opt_int,
    read_opt_number, read_ref, read_ref_list, read_text, ref_list_of, ref_of, text_of, MAvatar,
    MComponent, MController, Number,
};
use crate::value::{field_of, is_key, key_matches, Entries, Value};
use crate::text::chars_of;

verus! {

#[derive(Debug, Clone, PartialEq)]
pub struct MColor {
    pub r: Number,
    pub g: Number,
    pub b: Number,
    pub a: Number,
}

#[derive(Debug, Clone, PartialEq)]
pub struct MSize {
    pub x: Number,
    pub y: Number,
}

/// A position, rotation, scale or angle triple; `w` only for rotations.
#[derive(Debug, Clone, PartialEq)]
pub struct MLocal {
    pub x: Number,
    pub y: Number,
    pub z: Number,
    pub w: Option<Number>,
}

pub open spec fn color_of(f: Option<Value>) -> Option<MColor> {
    match f {
        None => Some(
            MColor { r: Number::Int(0), g: Number::Int(0), b: Number::Int(0), a: Number::Int(0) },
        ),
        Some(v) => if v is Object {
            match (
                number_of(field_of(v, "r"@)),
                number_of(field_of(v, "g"@)),
                number_of(field_of(v, "b"@)),
                number_of(field_of(v, "a"@)),
            ) {
                (Some(r), Some(g), Some(b), Some(a)) => Some(MColor { r, g, b, a }),
                _ => None,
            }
        } else {
            None
        },
    }
}

pub open spec fn size_of(f: Option<Value>) -> Option<MSize> {
    match f {
        None => Some(MSize { x: Number::Int(0), y: Number::Int(0) }),
        Some(v) => if v is Object {
            match (number_of(field_of(v, "x"@)), number_of(field_of(v, "y"@))) {
                (Some(x), Some(y)) => Some(MSize { x, y }),
                _ => None,
            }
        } else {
            None
        },
    }
}

pub open spec fn local_of(f: Option<Value>) -> Option<MLocal> {
    match f {
        None => Some(MLocal { x: Number::Int(0), y: Number::Int(0), z: Number::Int(0), w: None }),
        Some(v) => if v is Object {
            match (
                number_of(field_of(v, "x"@)),
                number_of(field_of(v, "y"@)),
                number_of(field_of(v, "z"@)),
                opt_number_of(field_of(v, "w"@)),
            ) {
                (Some(x), Some(y), Some(z), Some(w)) => Some(MLocal { x, y, z, w }),
                _ => None,
            }
        } else {
            None
        },
    }
}

pub fn read_color(m: &Value, key: &str) -> (r: Option<MColor>)
    ensures
        r == color_of(field_of(*m, key@)),
{
    match m.field(key) {
        None => Some(
            MColor { r: Number::Int(0), g: Number::Int(0), b: Number::Int(0), a: Number::Int(0) },
        ),
        Some(v) => match v {
            Value::Object(_) => match (
                read_number(v, "r"),
                read_number(v, "g"),
                read_number(v, "b"),
                read_number(v, "a"),
            ) {
                (Some(r), Some(g), Some(b), Some(a)) => Some(MColor { r, g, b, a }),
                _ => None,
            },
            _ => None,
        },
    }
}

pub fn read_size(m: &Value, key: &str) -> (r: Option<MSize>)
    ensures
        r == size_of(field_of(*m, key@)),
{
    match m.field(key) {
        None => Some(MSize { x: Number::Int(0), y: Number::Int(0) }),
        Some(v) => match v {
            Value::Object(_) => match (read_number(v, "x"), read_number(v, "y")) {
                (Some(x), Some(y)) => Some(MSize { x, y }),
                _ => None,
            },
            _ => None,
        },
    }
}

pub fn read_local(m: &Value, key: &str) -> (r: Option<MLocal>)
    ensures
        r == local_of(field_of(*m, key@)),
{
    match m.field(key) {
        None => Some(MLocal { x: Number::Int(0), y: Number::Int(0), z: Number::Int(0), w: None }),
        Some(v) => match v {
            Value::Object(_) => match (
                read_number(v, "x"),
                read_number(v, "y"),
                read_number(v, "z"),
                read_opt_number(v, "w"),
            ) {
                (Some(x), Some(y), Some(z), Some(w)) => Some(MLocal { x, y, z, w }),
                _ => None,
            },
            _ => None,
        },
    }
}

/// A named object of the scene; its components and children hang off it.
#[derive(Debug, Clone, PartialEq)]
pub struct GameObject {
    pub m_component: Vec<MComponent>,
    pub m_is_active: i64,
    pub m_layer: i64,
    pub m_name: String,
    pub m_tag_string: String,
}

/// `g` is what the mapping `v` describes as a game object.
pub open spec fn game_object_from(v: Value, g: GameObject) -> bool {
    &&& v is Object
    &&& component_list_of(field_of(v, "m_Component"@)) == Some(component_ids(g.m_component@))
    &&& int_of(field_of(v, "m_IsActive"@)) == Some(g.m_is_active)
    &&& int_of(field_of(v, "m_Layer"@)) == Some(g.m_layer)
    &&& text_of(field_of(v, "m_Name"@)) == Some(g.m_name@)
    &&& text_of(field_of(v, "m_TagString"@)) == Some(g.m_tag_string@)
}

/// The mapping `v` describes a game object.
pub open spec fn game_object_ok(v: Value) -> bool {
    &&& v is Object
    &&& component_list_of(field_of(v, "m_Component"@)) is Some
    &&& int_of(field_of(v, "m_IsActive"@)) is Some
    &&& int_of(field_of(v, "m_Layer"@)) is Some
    &&& text_of(field_of(v, "m_Name"@)) is Some
    &&& text_of(field_of(v, "m_TagString"@)) is Some
}

impl GameObject {
    pub fn from_value(v: &Value) -> (r: Option<GameObject>)
        ensures
            r matches Some(g) ==> game_object_from(*v, g),
            r is None <==> !game_object_ok(*v),
    {
        match v {
            Value::Object(_) => {},
            _ => {
                return None;
            },
        }
        match (
            read_components(v, "m_Component"),
            read_int(v, "m_IsActive"),
            read_int(v, "m_Layer"),
            read_text(v, "m_Name"),
            read_text(v, "m_TagString"),
        ) {
            (Some(m_component), Some(m_is_active), Some(m_layer), Some(m_name), Some(m_tag_string)) => {
                Some(GameObject { m_component, m_is_active, m_layer, m_name, m_tag_string })
            },
            _ => None,
        }
    }
}

/// Where an object sits, and which objects hang below it, in authored order.
#[derive(Debug, Clone, PartialEq)]
pub struct Transform {
    pub m_children: Vec<MAvatar>,
    pub m_father: MAvatar,
    pub m_game_object: MAvatar,
    pub m_local_euler_angles_hint: MLocal,
    pub m_local_position: MLocal,
    pub m_local_rotation: MLocal,
    pub m_local_scale: MLocal,
}

/// `t` is what the mapping `v` describes as a transform.
pub open spec fn transform_from(v: Value, t: Transform) -> bool {
    &&& v is Object
    &&& ref_list_of(field_of(v, "m_Children"@)) == Some(ids_of(t.m_children@))
    &&& ref_of(field_of(v, "m_Father"@)) == Some(t.m_father)
    &&& ref_of(field_of(v, "m_GameObject"@)) == Some(t.m_game_object)
    &&& local_of(field_of(v, "m_LocalEulerAnglesHint"@)) == Some(t.m_local_euler_angles_hint)
    &&& local_of(field_of(v, "m_LocalPosition"@)) == Some(t.m_local_position)
    &&& local_of(field_of(v, "m_LocalRotation"@)) == Some(t.m_local_rotation)
    &&& local_of(field_of(v, "m_LocalScale"@)) == Some(t.m_local_scale)
}

/// The mapping `v` describes a transform.
pub open spec fn transform_ok(v: Value) -> bool {
    &&& v is Object
    &&& ref_list_of(field_of(v, "m_Children"@)) is Some
    &&& ref_of(field_of(v, "m_Father"@)) is Some
    &&& ref_of(field_of(v, "m_GameObject"@)) is Some
    &&& local_of(field_of(v, "m_LocalEulerAnglesHint"@)) is Some
    &&& local_of(field_of(v, "m_LocalPosition"@)) is Some
    &&& local_of(field_of(v, "m_LocalRotation"@)) is Some
    &&& local_of(field_of(v, "m_LocalScale"@)) is Some
}

impl Transform {
    pub fn from_value(v: &Value) -> (r: Option<Transform>)
        ensures
            r matches Some(t) ==> transform_from(*v, t),
            r is None <==> !transform_ok(*v),
    {
        match v {
            Value::Object(_) => {},
            _ => {
                return None;
            },
        }
        match (
            read_ref_list(v, "m_Children"),
            read_ref(v, "m_Father"),
            read_ref(v, "m_GameObject"),
            read_local(v, "m_LocalEulerAnglesHint"),
            read_local(v, "m_LocalPosition"),
            read_local(v, "m_LocalRotation"),
            read_local(v, "m_LocalScale"),
        ) {
            (Some(c), Some(f), Some(g), Some(e), Some(p), Some(r), Some(s)) => Some(
                Transform {
                    m_children: c,
                    m_father: f,
                    m_game_object: g,
                    m_local_euler_angles_hint: e,
                    m_local_position: p,
                    m_local_rotation: r,
                    m_local_scale: s,
                },
            ),
            _ => None,
        }
    }
}

/// Draws a sprite for the object it belongs to.
#[derive(Debug, Clone, PartialEq)]
pub struct SpriteRenderer {
    pub m_game_object: MAvatar,
    pub m_enabled: i64,
    pub m_color: MColor,
    pub m_size: MSize,
    pub m_sprite: MController,
    pub m_sorting_order: i64,
    pub m_flip_x: i64,
    pub m_flip_y: i64,
}

pub open spec fn sprite_renderer_of(v: Value) -> Option<SpriteRenderer> {
    if v is Object {
        match (
            ref_of(field_of(v, "m_GameObject"@)),
            int_of(field_of(v, "m_Enabled"@)),
            color_of(field_of(v, "m_Color"@)),
            size_of(field_of(v, "m_Size"@)),
            asset_ref_of(field_of(v, "m_Sprite"@)),
            int_of(field_of(v, "m_SortingOrder"@)),
            int_of(field_of(v, "m_FlipX"@)),
            int_of(field_of(v, "m_FlipY"@)),
        ) {
            (Some(g), Some(e), Some(c), Some(sz), Some(sp), Some(o), Some(fx), Some(fy)) => Some(
                SpriteRenderer {
                    m_game_object: g,
                    m_enabled: e,
                    m_color: c,
                    m_size: sz,
                    m_sprite: sp,
                    m_sorting_order: o,
                    m_flip_x: fx,
                    m_flip_y: fy,
                },
            ),
            _ => None,
        }
    } else {
        None
    }
}

impl SpriteRenderer {
    pub fn from_value(v: &Value) -> (r: Option<SpriteRenderer>)
        ensures
            r == sprite_renderer_of(*v),
    {
        match v {
            Value::Object(_) => {},
            _ => {
                return None;
            },
        }
        match (
            read_ref(v, "m_GameObject"),
            read_int(v, "m_Enabled"),
            read_color(v, "m_Color"),
            read_size(v, "m_Size"),
            read_asset_ref(v, "m_Sprite"),
            read_int(v, "m_SortingOrder"),
            read_int(v, "m_FlipX"),
            read_int(v, "m_FlipY"),
        ) {
            (Some(g), Some(e), Some(c), Some(sz), Some(sp), Some(o), Some(fx), Some(fy)) => Some(
                SpriteRenderer {
                    m_game_object: g,
                    m_enabled: e,
                    m_color: c,
                    m_size: sz,
                    m_sprite: sp,
                    m_sorting_order: o,
                    m_flip_x: fx,
                    m_flip_y: fy,
                },
            ),
            _ => None,
        }
    }
}

/// Plays an animation controller on the object it belongs to.
#[derive(Debug, Clone, PartialEq)]
pub struct Animator {
    pub m_game_object: MAvatar,
    pub m_enabled: i64,
    pub m_controller: MController,
}

pub open spec fn animator_of(v: Value) -> Option<Animator> {
    if v is Object {
        match (
            ref_of(field_of(v, "m_GameObject"@)),
            int_of(field_of(v, "m_Enabled"@)),
            asset_ref_of(field_of(v, "m_Controller"@)),
        ) {
            (Some(g), Some(e), Some(c)) => Some(
                Animator { m_game_object: g, m_enabled: e, m_controller: c },
            ),
            _ => None,
        }
    } else {
        None
    }
}

impl Animator {
    pub fn from_value(v: &Value) -> (r: Option<Animator>)
        ensures
            r == animator_of(*v),
    {
        match v {
            Value::Object(_) => {},
            _ => {
                return None;
            },
        }
        match (read_ref(v, "m_GameObject"), read_int(v, "m_Enabled"), read_asset_ref(v, "m_Controller")) {
            (Some(g), Some(e), Some(c)) => Some(
                Animator { m_game_object: g, m_enabled: e, m_controller: c },
            ),
            _ => None,
        }
    }
}

/// A behaviour script attached to an object.
#[derive(Debug, Clone, PartialEq)]
pub struct MonoBehaviour {
    pub m_game_object: MAvatar,
    pub m_enabled: i64,
    pub m_script: MController,
    pub unit_id: Option<i64>,
    pub is_ui: Option<i64>,
    pub pause_update_ui: Option<i64>,
}

pub open spec fn mono_behaviour_of(v: Value) -> Option<MonoBehaviour> {
    if v is Object {
        match (
            ref_of(field_of(v, "m_GameObject"@)),
            int_of(field_of(v, "m_Enabled"@)),
            asset_ref_of(field_of(v, "m_Script"@)),
            opt_int_of(field_of(v, "unitId"@)),
            opt_int_of(field_of(v, "isUI"@)),
            opt_int_of(field_of(v, "pauseUpdateUI"@)),
        ) {
            (Some(g), Some(e), Some(sc), Some(u), Some(ui), Some(p)) => Some(
                MonoBehaviour {
                    m_game_object: g,
                    m_enabled: e,
                    m_script: sc,
                    unit_id: u,
                    is_ui: ui,
                    pause_update_ui: p,
                },
            ),
            _ => None,
        }
    } else {
        None
    }
}

impl MonoBehaviour {
    pub fn from_value(v: &Value) -> (r: Option<MonoBehaviour>)
        ensures
            r == mono_behaviour_of(*v),
    {
        match v {
            Value::Object(_) => {},
            _ => {
                return None;
            },
        }
        match (
            read_ref(v, "m_GameObject"),
            read_int(v, "m_Enabled"),
            read_asset_ref(v, "m_Script"),
            read_opt_int(v, "unitId"),
            read_opt_int(v, "isUI"),
            read_opt_int(v, "pauseUpdateUI"),
        ) {
            (Some(g), Some(e), Some(sc), Some(u), Some(ui), Some(p)) => Some(
                MonoBehaviour {
                    m_game_object: g,
                    m_enabled: e,
                    m_script: sc,
                    unit_id: u,
                    is_ui: ui,
                    pause_update_ui: p,
                },
            ),
            _ => None,
        }
    }
}

/// The constant of a curve: its `scalar`, absent when not written.
pub open spec fn curve_scalar_of(f: Option<Value>) -> Option<Option<Number>> {
    match f {
        None => Some(None),
        Some(v) => if v is Object {
            opt_number_of(field_of(v, "scalar"@))
        } else {
            None
        },
    }
}

pub fn read_curve_scalar(m: &Value, key: &str) -> (r: Option<Option<Number>>)
    ensures
        r == curve_scalar_of(field_of(*m, key@)),
{
    match m.field(key) {
        None => Some(None),
        Some(v) => match v {
            Value::Object(_) => read_opt_number(v, "scalar"),
            _ => None,
        },
    }
}

/// The emission rate over time of an `emission` module.
pub open spec fn emission_rate_of(f: Option<Value>) -> Option<Option<Number>> {
    match f {
        None => Some(None),
        Some(v) => if v is Object {
            curve_scalar_of(field_of(v, "rateOverTime"@))
        } else {
            None
        },
    }
}

/// The `type` of a `shape` module.
pub open spec fn shape_type_of(f: Option<Value>) -> Option<i64> {
    match f {
        None => Some(0),
        Some(v) => if v is Object {
            int_of(field_of(v, "type"@))
        } else {
            None
        },
    }
}

/// The `maxColor` of a `startColor` gradient.
pub open spec fn start_color_of(f: Option<Value>) -> Option<MColor> {
    match f {
        None => color_of(None),
        Some(v) => if v is Object {
            color_of(field_of(v, "maxColor"@))
        } else {
            None
        },
    }
}

/// The scalar settings of a particle system; curves keep only their constants.
#[derive(Debug, Clone, PartialEq)]
pub struct ParticleSystem {
    pub m_game_object: MAvatar,
    pub m_enabled: i64,
    pub length_in_sec: Number,
    pub simulation_speed: Number,
    pub looping: i64,
    pub prewarm: i64,
    pub play_on_awake: i64,
    pub auto_random_seed: i64,
    pub start_lifetime: Option<Number>,
    pub start_speed: Option<Number>,
    pub start_size: Option<Number>,
    pub start_color: MColor,
    pub gravity_modifier: Option<Number>,
    pub emission_rate: Option<Number>,
    pub shape_type: i64,
}

pub open spec fn particle_system_of(v: Value) -> Option<ParticleSystem> {
    if v is Object {
        match (
            (
                ref_of(field_of(v, "m_GameObject"@)),
                int_of(field_of(v, "m_Enabled"@)),
                number_of(field_of(v, "lengthInSec"@)),
                number_of(field_of(v, "simulationSpeed"@)),
                int_of(field_of(v, "looping"@)),
            ),
            (
                int_of(field_of(v, "prewarm"@)),
                int_of(field_of(v, "playOnAwake"@)),
                int_of(field_of(v, "autoRandomSeed"@)),
                curve_scalar_of(field_of(v, "startLifetime"@)),
                curve_scalar_of(field_of(v, "startSpeed"@)),
            ),
            (
                curve_scalar_of(field_of(v, "startSizeX"@)),
                start_color_of(field_of(v, "startColor"@)),
                curve_scalar_of(field_of(v, "gravityModifier"@)),
                emission_rate_of(field_of(v, "emission"@)),
                shape_type_of(field_of(v, "shape"@)),
            ),
        ) {
            (
                (Some(g), Some(e), Some(len), Some(speed), Some(lp)),
                (Some(pw), Some(poa), Some(ars), Some(sl), Some(ss)),
                (Some(sz), Some(sc), Some(gm), Some(er), Some(st)),
            ) => Some(
                ParticleSystem {
                    m_game_object: g,
                    m_enabled: e,
                    length_in_sec: len,
                    simulation_speed: speed,
                    looping: lp,
                    prewarm: pw,
                    play_on_awake: poa,
                    auto_random_seed: ars,
                    start_lifetime: sl,
                    start_speed: ss,
                    start_size: sz,
                    start_color: sc,
                    gravity_modifier: gm,
                    emission_rate: er,
                    shape_type: st,
                },
            ),
            _ => None,
        }
    } else {
        None
    }
}

impl ParticleSystem {
    pub fn from_value(v: &Value) -> (r: Option<ParticleSystem>)
        ensures
            r == particle_system_of(*v),
    {
        match v {
            Value::Object(_) => {},
            _ => {
                return None;
            },
        }
        let emission_rate = match v.field("emission") {
            None => Some(None),
            Some(em) => match em {
                Value::Object(_) => read_curve_scalar(em, "rateOverTime"),
                _ => None,
            },
        };
        let shape_type = match v.field("shape") {
            None => Some(0i64),
            Some(sh) => match sh {
                Value::Object(_) => read_int(sh, "type"),
                _ => None,
            },
        };
        let start_color = match v.field("startColor") {
            None => Some(
                MColor { r: Number::Int(0), g: Number::Int(0), b: Number::Int(0), a: Number::Int(0) },
            ),
            Some(c) => match c {
                Value::Object(_) => read_color(c, "maxColor"),
                _ => None,
            },
        };
        match (
            (
                read_ref(v, "m_GameObject"),
                read_int(v, "m_Enabled"),
                read_number(v, "lengthInSec"),
                read_number(v, "simulationSpeed"),
                read_int(v, "looping"),
            ),
            (
                read_int(v, "prewarm"),
                read_int(v, "playOnAwake"),
                read_int(v, "autoRandomSeed"),
                read_curve_scalar(v, "startLifetime"),
                read_curve_scalar(v, "startSpeed"),
            ),
            (
                read_curve_scalar(v, "startSizeX"),
                start_color,
                read_curve_scalar(v, "gravityModifier"),
                emission_rate,
                shape_type,
            ),
        ) {
            (
                (Some(g), Some(e), Some(len), Some(speed), Some(lp)),
                (Some(pw), Some(poa), Some(ars), Some(sl), Some(ss)),
                (Some(sz), Some(sc), Some(gm), Some(er), Some(st)),
            ) => Some(
                ParticleSystem {
                    m_game_object: g,
                    m_enabled: e,
                    length_in_sec: len,
                    simulation_speed: speed,
                    looping: lp,
                    prewarm: pw,
                    play_on_awake: poa,
                    auto_random_seed: ars,
                    start_lifetime: sl,
                    start_speed: ss,
                    start_size: sz,
                    start_color: sc,
                    gravity_modifier: gm,
                    emission_rate: er,
                    shape_type: st,
                },
            ),
            _ => None,
        }
    }
}

/// One typed record; kinds that the hierarchy does not use are kept as
/// unrecognized.
#[derive(Debug, Clone, PartialEq)]
pub enum Record {
    GameObject(GameObject),
    Transform(Transform),
    MonoBehaviour(MonoBehaviour),
    SpriteRenderer(SpriteRenderer),
    Animator(Animator),
    ParticleSystem(ParticleSystem),
    Unrecognized,
}

/// A record with the id its header declares.
#[derive(Debug, Clone, PartialEq)]
pub struct PrefabElement {
    pub id: i64,
    pub record: Record,
}

/// `r` is the typed record that a body mapping describes: its first key names
/// the kind, and the value under it holds the fields.
pub open spec fn record_from(body: Value, r: Record) -> bool {
    match body {
        Value::Object(es) => es.seq().len() > 0 && {
            let k = es.seq()[0].0;
            let inner = es.seq()[0].1;
            if is_key(k, "GameObject"@) {
                r matches Record::GameObject(g) && game_object_from(inner, g)
            } else if is_key(k, "Transform"@) {
                r matches Record::Transform(t) && transform_from(inner, t)
            } else if is_key(k, "MonoBehaviour"@) {
                r matches Record::MonoBehaviour(m) && mono_behaviour_of(inner) == Some(m)
            } else if is_key(k, "SpriteRenderer"@) {
                r matches Record::SpriteRenderer(x) && sprite_renderer_of(inner) == Some(x)
            } else if is_key(k, "Animator"@) {
                r matches Record::Animator(x) && animator_of(inner) == Some(x)
            } else if is_key(k, "ParticleSystem"@) {
                r matches Record::ParticleSystem(x) && particle_system_of(inner) == Some(x)
            } else {
                r == Record::Unrecognized
            }
        },
        _ => false,
    }
}

/// A body mapping that projects onto a typed record.
pub open spec fn record_ok(body: Value) -> bool {
    match body {
        Value::Object(es) => es.seq().len() > 0 && {
            let k = es.seq()[0].0;
            let inner = es.seq()[0].1;
            if is_key(k, "GameObject"@) {
                game_object_ok(inner)
            } else if is_key(k, "Transform"@) {
                transform_ok(inner)
            } else if is_key(k, "MonoBehaviour"@) {
                mono_behaviour_of(inner) is Some
            } else if is_key(k, "SpriteRenderer"@) {
                sprite_renderer_of(inner) is Some
            } else if is_key(k, "Animator"@) {
                animator_of(inner) is Some
            } else if is_key(k, "ParticleSystem"@) {
                particle_system_of(inner) is Some
            } else {
                true
            }
        },
        _ => false,
    }
}

/// Projects a decoded record body onto its typed record.
pub fn project_record(body: &Value) -> (r: Option<Record>)
    ensures
        r matches Some(x) ==> record_from(*body, x),
        r is None <==> !record_ok(*body),
{
    match body {
        Value::Object(es) => {
            let (k, inner) = match &**es {
                Entries::Nil => {
                    return None;
                },
                Entries::Cons(k, inner, _) => (k, inner),
            };
            if key_matches(k, &chars_of("GameObject")) {
                match GameObject::from_value(inner) {
                    Some(g) => Some(Record::GameObject(g)),
                    None => None,
                }
            } else if key_matches(k, &chars_of("Transform")) {
                match Transform::from_value(inner) {
                    Some(t) => Some(Record::Transform(t)),
                    None => None,
                }
            } else if key_matches(k, &chars_of("MonoBehaviour")) {
                match MonoBehaviour::from_value(inner) {
                    Some(m) => Some(Record::MonoBehaviour(m)),
                    None => None,
                }
            } else if key_matches(k, &chars_of("SpriteRenderer")) {
                match SpriteRenderer::from_value(inner) {
                    Some(x) => Some(Record::SpriteRenderer(x)),
                    None => None,
                }
            } else if key_matches(k, &chars_of("Animator")) {
                match Animator::from_value(inner) {
                    Some(x) => Some(Record::Animator(x)),
                    None => None,
                }
            } else if key_matches(k, &chars_of("ParticleSystem")) {
                match ParticleSystem::from_value(inner) {
                    Some(x) => Some(Record::ParticleSystem(x)),
                    None => None,
                }
            } else {
                Some(Record::Unrecognized)
            }
        },
        _ => None,
    }
}

impl MColor {
    pub fn duplicate(&self) -> (r: MColor)
        ensures
            r == *self,
    {
        MColor { r: self.r.duplicate(), g: self.g.duplicate(), b: self.b.duplicate(), a: self.a.duplicate() }
    }
}

impl MSize {
    pub fn duplicate(&self) -> (r: MSize)
        ensures
            r == *self,
    {
        MSize { x: self.x.duplicate(), y: self.y.duplicate() }
    }
}

impl MLocal {
    pub fn duplicate(&self) -> (r: MLocal)
        ensures
            r == *self,
    {
        let w = match &self.w {
            Some(n) => Some(n.duplicate()),
            None => None,
        };
        MLocal { x: self.x.duplicate(), y: self.y.duplicate(), z: self.z.duplicate(), w }
    }
}

} // verus!
