use prefab_scene::document::{parse_header, read_prefab, split_records};
use prefab_scene::fields::Number;
use prefab_scene::hierarchy::{build_hierarchy, BuildError, SpriteEntry, SpriteInfo, SpriteRectInfo, Vector2};
use prefab_scene::records::Record;
use prefab_scene::chars_of;

const TWO_RECORDS: &str = "%YAML 1.1
%TAG !u! tag:unity3d.com,2011:
--- !u!1 &100
GameObject:
  m_ObjectHideFlags: 0
  m_Component:
  - component: {fileID: 200}
  m_Layer: 5
  m_Name: Root
  m_TagString: Untagged
  m_IsActive: 1
--- !u!4 &200
Transform:
  m_GameObject: {fileID: 100}
  m_LocalRotation: {x: 0, y: 0, z: 0, w: 1}
  m_LocalPosition: {x: 1.5, y: -2, z: 0}
  m_LocalScale: {x: 1, y: 1, z: 1}
  m_Children: []
  m_Father: {fileID: 0}
";

fn node_names(n: &prefab_scene::hierarchy::HierarchyNode) -> Vec<String> {
    n.children.iter().map(|c| c.name.clone()).collect()
}

#[test]
fn two_record_document_builds_single_node() {
    let els = read_prefab(TWO_RECORDS);
    assert_eq!(els.len(), 2);
    let root = build_hierarchy(&els, &Vec::new()).unwrap();
    assert_eq!(root.name, "Root");
    assert_eq!(root.node_type, "GameObject");
    assert_eq!(root.is_active, 1);
    assert!(root.children.is_empty());
    let t = root.transform.as_ref().unwrap();
    assert_eq!(t.father_id, 0);
    assert!(t.children_ids.is_empty());
    assert_eq!(t.local_position.x, Number::Real("1.5".to_string()));
    assert_eq!(t.local_position.y, Number::Int(-2));
    assert_eq!(t.local_rotation.w, Some(Number::Int(1)));
    assert!(root.sprite_renderer.is_none());
    assert!(root.animator.is_none());
    assert!(root.particle_system.is_none());
    assert!(root.animation_clips.is_none());
    assert!(root.mono_behaviours.is_empty());
}

#[test]
fn inactive_object_keeps_its_flag() {
    let doc = TWO_RECORDS.replace("m_IsActive: 1", "m_IsActive: 0");
    let root = build_hierarchy(&read_prefab(&doc), &Vec::new()).unwrap();
    assert_eq!(root.is_active, 0);
}

const CHAIN: &str = "--- !u!1 &1
GameObject:
  m_Name: Top
  m_IsActive: 1
--- !u!4 &11
Transform:
  m_GameObject: {fileID: 1}
  m_Father: {fileID: 0}
  m_Children:
  - {fileID: 12}
  - {fileID: 11}
  - {fileID: 999}
  - {fileID: 13}
--- !u!1 &2
GameObject:
  m_Name: Middle
  m_IsActive: 1
--- !u!4 &12
Transform:
  m_GameObject: {fileID: 2}
  m_Father: {fileID: 11}
  m_Children:
  - {fileID: 11}
  - {fileID: 12}
--- !u!1 &3
GameObject:
  m_Name: Last
  m_IsActive: 0
--- !u!4 &13
Transform:
  m_GameObject: {fileID: 3}
  m_Father: {fileID: 11}
  m_Children: []
";

#[test]
fn self_referencing_child_is_dropped() {
    let els = read_prefab(CHAIN);
    assert_eq!(els.len(), 6);
    let root = build_hierarchy(&els, &Vec::new()).unwrap();
    assert_eq!(root.name, "Top");
    // 11 is the root itself and 999 is unknown: both are dropped, order kept.
    assert_eq!(node_names(&root), vec!["Middle".to_string(), "Last".to_string()]);
    assert_eq!(root.transform.as_ref().unwrap().children_ids, vec![12, 11, 999, 13]);
    let middle = &root.children[0];
    // Its children lead back to the root and to itself.
    assert!(middle.children.is_empty());
    assert_eq!(root.children[1].is_active, 0);
}

#[test]
fn malformed_header_between_records_is_skipped() {
    let doc = "--- !u!1 &100
GameObject:
  m_Name: A
--- !u!1 &notanumber
GameObject:
  m_Name: Broken
--- !u!1 &300 extra
GameObject:
  m_Name: AlsoBroken
--- !u!4 &200
Transform:
  m_GameObject: {fileID: 100}
  m_Father: {fileID: 0}
";
    let raws = split_records(doc);
    assert_eq!(raws.len(), 2);
    assert_eq!(raws[0].id, 100);
    assert_eq!(raws[0].body, "GameObject:\n  m_Name: A");
    assert_eq!(raws[1].id, 200);
    let els = read_prefab(doc);
    assert_eq!(els.len(), 2);
    assert_eq!(els[0].id, 100);
    assert_eq!(els[1].id, 200);
    assert!(matches!(els[0].record, Record::GameObject(_)));
    assert!(matches!(els[1].record, Record::Transform(_)));
}

#[test]
fn body_that_does_not_project_is_skipped() {
    let doc = "--- !u!1 &1
GameObject:
  m_Name: [not, a, name]
--- !u!1 &2
GameObject:
  m_Name: Kept
--- !u!114 &3
SomethingElse:
  value: 1
";
    let els = read_prefab(doc);
    assert_eq!(els.len(), 2);
    assert_eq!(els[0].id, 2);
    assert_eq!(els[1].id, 3);
    assert!(matches!(els[1].record, Record::Unrecognized));
}

#[test]
fn two_null_fathers_are_ambiguous() {
    let doc = "--- !u!1 &1
GameObject:
  m_Name: A
--- !u!4 &2
Transform:
  m_GameObject: {fileID: 1}
  m_Father: {fileID: 0}
--- !u!1 &3
GameObject:
  m_Name: B
--- !u!4 &4
Transform:
  m_GameObject: {fileID: 3}
  m_Father: {fileID: 0}
";
    let r = build_hierarchy(&read_prefab(doc), &Vec::new());
    assert_eq!(r.err(), Some(BuildError::AmbiguousRoot));
}

#[test]
fn no_transform_means_no_root() {
    let doc = "--- !u!1 &1
GameObject:
  m_Name: A
";
    let r = build_hierarchy(&read_prefab(doc), &Vec::new());
    assert_eq!(r.err(), Some(BuildError::NoRoot));
}

#[test]
fn root_without_game_object_gets_a_default_node() {
    let doc = "--- !u!4 &2
Transform:
  m_GameObject: {fileID: 1}
  m_Father: {fileID: 0}
  m_LocalPosition: {x: 3, y: 0, z: 0}
--- !u!212 &3
SpriteRenderer:
  m_GameObject: {fileID: 1}
  m_SortingOrder: 4
";
    let root = build_hierarchy(&read_prefab(doc), &Vec::new()).unwrap();
    assert_eq!(root.name, "");
    assert_eq!(root.is_active, 0);
    assert_eq!(root.transform.as_ref().unwrap().local_position.x, Number::Int(3));
    assert_eq!(root.sprite_renderer.as_ref().unwrap().sorting_order, 4);
    assert!(root.children.is_empty());
}

const FACETS: &str = "--- !u!1 &1
GameObject:
  m_Name: Hero
  m_IsActive: 1
--- !u!4 &2
Transform:
  m_GameObject: {fileID: 1}
  m_Father: {fileID: 0}
--- !u!212 &3
SpriteRenderer:
  m_GameObject: {fileID: 1}
  m_Enabled: 1
  m_Color: {r: 1, g: 0.5, b: 0.25, a: 1}
  m_Size: {x: 2, y: 3}
  m_Sprite: {fileID: 21300000, guid: abc123def, type: 3}
  m_SortingOrder: 7
  m_FlipX: 1
  m_FlipY: 0
--- !u!95 &4
Animator:
  m_GameObject: {fileID: 1}
  m_Enabled: 1
  m_Controller: {fileID: 9100000, guid: ctrl42, type: 2}
--- !u!114 &5
MonoBehaviour:
  m_GameObject: {fileID: 1}
  m_Enabled: 1
  m_Script: {fileID: 11500000, guid: script1, type: 3}
  unitId: 42
  isUI: 0
--- !u!114 &6
MonoBehaviour:
  m_GameObject: {fileID: 1}
  m_Enabled: 1
  m_Script: {fileID: 11500000, guid: script2, type: 3}
--- !u!198 &7
ParticleSystem:
  m_GameObject: {fileID: 1}
  m_Enabled: 1
  lengthInSec: 5
  simulationSpeed: 1.5
  looping: 1
  prewarm: 0
  playOnAwake: 1
  autoRandomSeed: 1
  startLifetime:
    minMaxState: 0
    scalar: 2.5
  startSpeed:
    scalar: 3
  startSizeX:
    scalar: 0.75
  startColor:
    maxColor: {r: 1, g: 1, b: 1, a: 0.5}
  gravityModifier:
    minMaxState: 0
  EmissionModule:
    enabled: 1
  emission:
    rateOverTime:
      scalar: 10
  shape:
    type: 4
";

#[test]
fn facets_are_attached_by_owning_object() {
    let els = read_prefab(FACETS);
    assert_eq!(els.len(), 7);
    let table = vec![SpriteEntry {
        guid: "abc123def".to_string(),
        info: Some(SpriteInfo {
            base64: Some("data:image/png;base64,AAAA".to_string()),
            rect: SpriteRectInfo {
                x: Number::Int(1),
                y: Number::Int(2),
                width: Number::Int(3),
                height: Number::Int(4),
            },
            offset: Vector2 { x: Number::Real("0.5".to_string()), y: Number::Int(0) },
        }),
    }];
    let root = build_hierarchy(&els, &table).unwrap();
    let sr = root.sprite_renderer.as_ref().unwrap();
    assert_eq!(sr.sprite_guid, "abc123def");
    assert_eq!(sr.sprite_base64.as_deref(), Some("data:image/png;base64,AAAA"));
    assert_eq!(sr.sprite_rect.as_ref().unwrap().height, Number::Int(4));
    assert_eq!(sr.offset.x, Number::Real("0.5".to_string()));
    assert_eq!(sr.sorting_order, 7);
    assert_eq!(sr.flip_x, 1);
    assert_eq!(sr.flip_y, 0);
    assert_eq!(sr.color.g, Number::Real("0.5".to_string()));
    assert_eq!(sr.size.y, Number::Int(3));
    let an = root.animator.as_ref().unwrap();
    assert_eq!(an.enabled, 1);
    assert_eq!(an.controller_guid, "ctrl42");
    assert_eq!(root.mono_behaviours.len(), 2);
    assert_eq!(root.mono_behaviours[0].unit_id, Some(42));
    assert_eq!(root.mono_behaviours[0].is_ui, Some(0));
    assert_eq!(root.mono_behaviours[0].pause_update_ui, None);
    assert_eq!(root.mono_behaviours[0].script_guid, "script1");
    assert_eq!(root.mono_behaviours[1].script_guid, "script2");
    let ps = root.particle_system.as_ref().unwrap();
    assert_eq!(ps.length_in_sec, Number::Int(5));
    assert_eq!(ps.simulation_speed, Number::Real("1.5".to_string()));
    assert_eq!(ps.start_lifetime, Number::Real("2.5".to_string()));
    assert_eq!(ps.start_speed, Number::Int(3));
    assert_eq!(ps.start_size, Number::Real("0.75".to_string()));
    assert_eq!(ps.start_color.a, Number::Real("0.5".to_string()));
    assert_eq!(ps.gravity_modifier, Number::Int(0));
    assert_eq!(ps.emission_rate, Number::Int(10));
    assert_eq!(ps.shape_type, 4);
    assert_eq!(ps.looping, 1);
}

#[test]
fn unresolved_sprite_has_no_image_and_zero_offset() {
    let els = read_prefab(FACETS);
    let table = vec![SpriteEntry { guid: "abc123def".to_string(), info: None }];
    let root = build_hierarchy(&els, &table).unwrap();
    let sr = root.sprite_renderer.as_ref().unwrap();
    assert!(sr.sprite_base64.is_none());
    assert!(sr.sprite_rect.is_none());
    assert_eq!(sr.offset, Vector2 { x: Number::Int(0), y: Number::Int(0) });
    let root2 = build_hierarchy(&els, &Vec::new()).unwrap();
    assert!(root2.sprite_renderer.as_ref().unwrap().sprite_base64.is_none());
}

#[test]
fn header_lines_parse_their_ids() {
    assert_eq!(parse_header(&chars_of("--- !u!1 &12345")), Some(12345));
    assert_eq!(parse_header(&chars_of("--- !u!1 &&-7")), Some(-7));
    assert_eq!(parse_header(&chars_of("--- !u!1 &+7")), Some(7));
    assert_eq!(parse_header(&chars_of("--- !u!1 &9223372036854775807")), Some(i64::MAX));
    assert_eq!(parse_header(&chars_of("--- !u!1 &-9223372036854775808")), Some(i64::MIN));
    assert_eq!(parse_header(&chars_of("--- !u!1 &9223372036854775808")), None);
    assert_eq!(parse_header(&chars_of("--- !u!1 &12x")), None);
    assert_eq!(parse_header(&chars_of("--- !u!1 &")), None);
    assert_eq!(parse_header(&chars_of("--- !u!1 &5 stripped")), None);
    assert_eq!(parse_header(&chars_of("--- !u!1")), None);
}

#[test]
fn crlf_lines_and_text_before_first_header() {
    let doc = "junk\r\n--- !u!1 &5\r\nGameObject:\r\n  m_Name: Win\r\n";
    let raws = split_records(doc);
    assert_eq!(raws.len(), 1);
    assert_eq!(raws[0].id, 5);
    assert_eq!(raws[0].body, "GameObject:\n  m_Name: Win");
    let els = read_prefab(doc);
    match &els[0].record {
        Record::GameObject(g) => assert_eq!(g.m_name, "Win"),
        _ => panic!("expected a game object"),
    }
}

#[test]
fn empty_document_has_no_records() {
    assert!(split_records("").is_empty());
    assert!(read_prefab("").is_empty());
    assert_eq!(build_hierarchy(&Vec::new(), &Vec::new()).err(), Some(BuildError::NoRoot));
}

#[test]
fn duplicate_ids_keep_the_first_record() {
    let doc = "--- !u!1 &1
GameObject:
  m_Name: First
--- !u!1 &1
GameObject:
  m_Name: Second
--- !u!4 &2
Transform:
  m_GameObject: {fileID: 1}
  m_Father: {fileID: 0}
  m_Children:
  - {fileID: 2}
";
    let els = read_prefab(doc);
    assert_eq!(els.len(), 2);
    let root = build_hierarchy(&els, &Vec::new()).unwrap();
    assert_eq!(root.name, "First");
    assert!(root.children.is_empty());
}

#[test]
fn key_without_value_tree_is_kept_as_its_debug_text() {
    let body = "GameObject:\n  ? [!!int abc]\n  : 1\n  m_Name: Kept\n";
    let v = prefab_scene::yaml::decode_body(body).unwrap();
    let inner = v.field("GameObject").unwrap();
    assert!(matches!(inner.field("Array([BadValue])"), Some(prefab_scene::value::Value::Int(1))));
    let doc = format!("--- !u!1 &7\n{}", body);
    let els = read_prefab(&doc);
    assert_eq!(els.len(), 1);
    match &els[0].record {
        Record::GameObject(g) => assert_eq!(g.m_name, "Kept"),
        _ => panic!("expected a game object"),
    }
    // A bad value outside a key still makes the body fail.
    assert!(prefab_scene::yaml::decode_body("GameObject:\n  m_Layer: [!!int abc]\n").is_none());
    assert!(read_prefab("--- !u!1 &8\nGameObject:\n  m_Layer: [!!int abc]\n").is_empty());
}
