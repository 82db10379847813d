use prefab_scene::files::{compare_entries, FileNode};
use std::cmp::Ordering;
use prefab_scene::asset_crop::{parse_asset_file, AssetCropInfo, AssetParseError};
use prefab_scene::document::read_prefab;
use prefab_scene::export::{
    avatar_path, decode_image_payload, hero_dir, sanitize_file_name, skin_info, skin_path, strip_png_data_prefix,
};
use prefab_scene::logger::{
    dated_log_name, format_log_line, is_expired_log, join_path, log_directory_in, log_file_name, log_file_path_in,
    recent_log_lines, LogEntry,
};
use prefab_scene::resolver::{
    asset_path_of_meta, meta_declares_guid, meta_patterns, sprite_extensions, sprite_guids, texture_extensions,
};

#[test]
fn meta_patterns_search_unit_images_first() {
    let p = meta_patterns("/proj", "png");
    assert_eq!(
        p,
        vec![
            "/proj/Assets/00_Unit/#Image/**/*.png.meta".to_string(),
            "/proj/Assets/00_Unit/#Image/**/*.meta".to_string(),
            "/proj/Assets/00_Unit/SpriteAtlas/**/*.meta".to_string(),
            "/proj/Assets/**/*.png.meta".to_string(),
            "/proj/Assets/**/*.meta".to_string(),
        ]
    );
    assert_eq!(sprite_extensions(), vec!["asset", "png", "jpg"]);
    assert_eq!(texture_extensions(), vec!["png", "jpg"]);
}

#[test]
fn sidecar_declares_guid_by_its_line() {
    let meta = "fileFormatVersion: 2\nguid: 5f2a9c\nTextureImporter:\n";
    assert!(meta_declares_guid(meta, "5f2a9c"));
    assert!(!meta_declares_guid(meta, "5f2a"));
    assert!(meta_declares_guid("guid: abc\r\nx: 1", "abc"));
    assert!(!meta_declares_guid("  guid: abc\n", "abc"));
    assert!(!meta_declares_guid(meta, "abc"));
    assert!(!meta_declares_guid("", "x"));
}

#[test]
fn sidecar_describes_its_sibling() {
    assert_eq!(asset_path_of_meta("/p/Assets/a.png.meta").as_deref(), Some("/p/Assets/a.png"));
    assert_eq!(asset_path_of_meta("/p/Assets/a.png"), None);
    assert_eq!(asset_path_of_meta(".meta"), None);
}

#[test]
fn sprite_guids_are_listed_once() {
    let doc = "--- !u!212 &1
SpriteRenderer:
  m_GameObject: {fileID: 9}
  m_Sprite: {fileID: 1, guid: aaa, type: 3}
--- !u!212 &2
SpriteRenderer:
  m_GameObject: {fileID: 8}
  m_Sprite: {fileID: 1, guid: bbb, type: 3}
--- !u!212 &3
SpriteRenderer:
  m_GameObject: {fileID: 7}
  m_Sprite: {fileID: 1, guid: aaa, type: 3}
--- !u!212 &4
SpriteRenderer:
  m_GameObject: {fileID: 6}
  m_Sprite: {fileID: 0}
";
    let els = read_prefab(doc);
    assert_eq!(els.len(), 4);
    assert_eq!(sprite_guids(&els), vec!["aaa".to_string(), "bbb".to_string()]);
}

#[test]
fn asset_file_crop_is_read_from_rect_lines() {
    let text = "Sprite:\n  m_Rect:\n    serializedVersion: 2\n    x: 12.7\n    y: 3\n    width: 40\n    height: 50.2\n  m_Offset: {x: 0, y: 0}\n";
    assert_eq!(parse_asset_file(text), Ok(AssetCropInfo { x: 12, y: 3, width: 40, height: 50 }));
    let later = "m_Rect:\n  x: 1\n  width: 2\n  height: 3\nrect:\n  x: 9\n  height: 8\n";
    assert_eq!(parse_asset_file(later), Ok(AssetCropInfo { x: 9, y: 0, width: 2, height: 8 }));
    assert_eq!(parse_asset_file("m_Rect:\n  x: 1\n  width: 2\n"), Err(AssetParseError::NoDimensions));
    assert_eq!(parse_asset_file(""), Err(AssetParseError::NoDimensions));
}

#[test]
fn file_names_are_sanitized() {
    assert_eq!(sanitize_file_name("Mr. Hero 2-x_y!"), "Mr__Hero_2-x_y_");
    assert_eq!(sanitize_file_name("Élan"), "_lan");
    assert_eq!(avatar_path("/out", "A B"), "/out/A_B_avatar.png");
    assert_eq!(skin_info("3", &Some("red".to_string())), "skin_3_red");
    assert_eq!(skin_info("3", &None), "skin_3");
    assert_eq!(skin_path("/out", "A", "skin_3"), "/out/A_skin_3.png");
    assert_eq!(hero_dir("/out", "A B", "17"), "/out/A_B_17");
}

#[test]
fn image_payloads_decode_with_or_without_prefix() {
    assert_eq!(strip_png_data_prefix("data:image/png;base64,TWFu"), "TWFu");
    assert_eq!(strip_png_data_prefix("TWFu"), "TWFu");
    assert_eq!(decode_image_payload("data:image/png;base64,TWFu"), Some(b"Man".to_vec()));
    assert_eq!(decode_image_payload("TWFu"), Some(b"Man".to_vec()));
    assert_eq!(decode_image_payload("***"), None);
}

#[test]
fn log_paths_and_names() {
    assert_eq!(join_path("/home/u", "x"), "/home/u/x");
    assert_eq!(join_path("/home/u/", "x"), "/home/u/x");
    assert_eq!(log_directory_in("/home/u"), "/home/u/.kgc-toolkit/logs");
    assert_eq!(log_file_name("2024-01-31"), "app-2024-01-31.log");
    assert_eq!(log_file_path_in("/home/u", "2024-01-31"), "/home/u/.kgc-toolkit/logs/app-2024-01-31.log");
}

#[test]
fn log_line_format() {
    let e = LogEntry {
        level: "warn".to_string(),
        message: "disk low".to_string(),
        timestamp: "T1".to_string(),
        context: "".to_string(),
        data: "".to_string(),
    };
    assert_eq!(format_log_line(&e), "[T1] [WARN] : disk low\n");
    let e2 = LogEntry { context: "io".to_string(), data: "42".to_string(), ..e };
    assert_eq!(format_log_line(&e2), "[T1] [WARN] [io: ] disk low | Data: 42\n");
}

#[test]
fn recent_lines_keep_the_last_ones_in_order() {
    let text = "a\nb\nc\nd\n";
    assert_eq!(recent_log_lines(text, Some(2)), vec!["c".to_string(), "d".to_string()]);
    assert_eq!(recent_log_lines(text, Some(10)).len(), 4);
    assert_eq!(recent_log_lines(text, Some(0)), Vec::<String>::new());
    let many: String = (0..150).map(|i| format!("{}\n", i)).collect();
    let last = recent_log_lines(&many, None);
    assert_eq!(last.len(), 100);
    assert_eq!(last[0], "50");
}

#[test]
fn old_log_files_are_recognized() {
    assert_eq!(dated_log_name("app-2024-01-31.log").as_deref(), Some("2024-01-31"));
    assert_eq!(dated_log_name("other.log"), None);
    assert!(is_expired_log("app-2024-01-31.log", (2024, 2, 1)));
    assert!(!is_expired_log("app-2024-02-01.log", (2024, 2, 1)));
    assert!(!is_expired_log("app-2024-13-01.log", (2025, 1, 1)));
    assert!(!is_expired_log("app-notadate.log", (2025, 1, 1)));
}

use prefab_scene::acquire::{
    apk_role, asset_ripper_path, download_target, os_short_name, package_version, parse_versions, ApkRole,
};

#[test]
fn package_parts_are_classified() {
    assert_eq!(apk_role("base_assets.apk"), ApkRole::BaseAssets);
    assert_eq!(apk_role("config.arm64_v8a.apk"), ApkRole::Config);
    assert_eq!(apk_role("com.game.apk"), ApkRole::Other);
    assert_eq!(apk_role("icon.png"), ApkRole::Other);
}

#[test]
fn package_version_comes_after_the_at_sign() {
    assert_eq!(package_version("com.game@1.2.3").as_deref(), Some("1.2.3"));
    assert_eq!(package_version("com.game@1.2@x").as_deref(), Some("1.2"));
    assert_eq!(package_version("com.game"), None);
    assert_eq!(download_target("com.game", &Some("1.0".to_string())), "com.game@1.0");
    assert_eq!(download_target("com.game", &None), "com.game");
}

#[test]
fn extractor_location_by_os() {
    assert_eq!(os_short_name("windows").as_deref(), Some("win"));
    assert_eq!(os_short_name("linux").as_deref(), Some("linux"));
    assert_eq!(os_short_name("macos"), None);
    assert_eq!(asset_ripper_path("/w", "linux"), "/w/binaries/asset-ripper/linux-x64/AssetRipper.GUI.Free");
}

#[test]
fn versions_are_read_after_the_bar() {
    let out = "Versions available for com.game:\n| 1.0.0, 1.1.0,\n 2.0 , beta, Versions\n";
    assert_eq!(parse_versions(out), vec!["1.0.0".to_string(), "1.1.0".to_string(), "2.0".to_string()]);
    assert!(parse_versions("no list here").is_empty());
    assert!(parse_versions("| ").is_empty());
}

#[test]
fn zero_byte_marks_binary_files() {
    assert!(prefab_scene::files::looks_binary(&[65, 0, 66]));
    assert!(!prefab_scene::files::looks_binary(b"plain text"));
    assert!(!prefab_scene::files::looks_binary(&[]));
}

#[test]
fn folders_are_listed_before_files_then_by_name() {
    let node = |name: &str, dir: bool| FileNode {
        name: name.to_string(),
        path: name.to_string(),
        is_directory: dir,
        children: None,
        size: None,
        modified: None,
    };
    assert_eq!(compare_entries(&node("z", true), &node("a", false)), Ordering::Less);
    assert_eq!(compare_entries(&node("a", false), &node("z", true)), Ordering::Greater);
    assert_eq!(compare_entries(&node("ab", false), &node("b", false)), Ordering::Less);
    assert_eq!(compare_entries(&node("ab", false), &node("a", false)), Ordering::Greater);
    assert_eq!(compare_entries(&node("Zed", true), &node("apple", true)), Ordering::Less);
    assert_eq!(compare_entries(&node("same", true), &node("same", true)), Ordering::Equal);
}
