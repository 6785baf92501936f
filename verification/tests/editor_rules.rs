use bevyforge::assets::{asset_action, asset_kind, no_editor_text, AssetAction, AssetKind};
use bevyforge::diagnostics::{Diagnostic, DiagnosticLevel};
use bevyforge::editor::{
    auto_expanded, check_summary, component_notice, count_at, demo_project_dir, exit_code_text,
    frame_size_ok, log_candidates, log_needs_rotation, offline_warning_due, protocol_mismatch,
    route_output_line, synced_text, welcome_text, OutputLine,
};
use bevyforge::inspector::{
    components_shown, field_slot, rows_of, script_param, shape_of, slot_bound, Bound, FieldSlot, LightKind, ValueType,
};
use bevyforge::ipc::{
    ComponentField, ComponentKind, EntityKind, HierNode, LogLevel, MeshPrimitive, NodeIcon,
    PROTOCOL_VERSION,
};
use bevyforge::paths::{path_join, windows_prefix, PrefixKind};
use bevyforge::project::{project_dirs, Project, ProjectManifest, scene_listing};
use bevyforge::runtime::TargetOs;
use bevyforge::report::Report;
use bevyforge::scene::{kept_positions, SceneEntityKind, ScriptKind};
use bevyforge::text::{ends_with_ci, trim_end};
use bevyforge::ui::{
    find_script, keep_last, push_bounded, save_target, screenshot_name, spawn_name, test_dialog,
    undo_menu_label, DialogPurpose, DockTab, GizmoHandle, GizmoMode, ScriptDoc, ViewportTab,
    MAX_TOASTS,
};

fn diag(level: DiagnosticLevel) -> Diagnostic {
    Diagnostic {
        level,
        message: "m".to_string(),
        file: "src/lib.rs".to_string(),
        line: 1,
        rendered: String::new(),
    }
}

#[test]
fn log_file_candidates() {
    assert_eq!(
        log_candidates(TargetOs::Other, Some("/opt/bf"), None, None, Some("/home/u"), Some("/tmp")),
        vec!["/opt/bf/bevyforge.log", "/home/u/.local/share/bevyforge/bevyforge.log"]
    );
    assert_eq!(
        log_candidates(TargetOs::Other, None, Some("C:/Local"), Some("/xdg"), Some("/home"), None),
        vec!["C:/Local/BevyForge/bevyforge.log", "/xdg/bevyforge/bevyforge.log"]
    );
    assert_eq!(log_candidates(TargetOs::Other, None, None, None, None, Some("/tmp/")), vec!["/tmp/bevyforge.log"]);
    assert!(log_candidates(TargetOs::Other, None, None, None, None, None).is_empty());
    assert!(!log_needs_rotation(2 * 1024 * 1024));
    assert!(log_needs_rotation(2 * 1024 * 1024 + 1));
}

#[test]
fn demo_dir_and_frames() {
    assert_eq!(demo_project_dir(TargetOs::Other, "/home/u"), "/home/u/BevyForgeProjects/Demo");
    assert!(frame_size_ok(2, 3, 18));
    assert!(!frame_size_ok(2, 3, 17));
    assert!(!frame_size_ok(2, 3, 24));
    assert!(frame_size_ok(0, 5, 0));
    assert!(!frame_size_ok(u32::MAX, u32::MAX, 0));
}

#[test]
fn toasts_and_notices() {
    assert_eq!(protocol_mismatch(PROTOCOL_VERSION), None);
    assert_eq!(
        protocol_mismatch(PROTOCOL_VERSION + 1).as_deref(),
        Some(format!("Protocol mismatch: editor {}, runtime {}", PROTOCOL_VERSION, PROTOCOL_VERSION + 1).as_str())
    );
    assert_eq!(welcome_text("0.16", 42), "Runtime connected (Bevy 0.16, pid 42)");
    assert_eq!(synced_text(3), "Synced 3 offline edit(s) to the engine — undo history reset");
    let (lvl, m) = check_summary("1.5", 2, 1);
    assert_eq!(lvl, LogLevel::Error);
    assert_eq!(m, "Finished check in 1.5s — 2 error(s), 1 warning(s)");
    let (lvl, m) = check_summary("0.3", 0, 4);
    assert_eq!(lvl, LogLevel::Info);
    assert_eq!(m, "Finished check in 0.3s — clean (4 warning(s))");
    assert_eq!(check_summary("0.3", 0, 0).1, "Finished check in 0.3s — 0 errors");
    let (lvl, m) = component_notice(true, true, "Health");
    assert_eq!((lvl, m.as_str()), (LogLevel::Info, "Added Health (offline)"));
    let (lvl, m) = component_notice(true, false, "Transform");
    assert_eq!((lvl, m.as_str()), (LogLevel::Warn, "Transform is intrinsic or already present (offline)"));
    let (lvl, m) = component_notice(false, true, "Health");
    assert_eq!((lvl, m.as_str()), (LogLevel::Info, "Removed Health (offline)"));
    let (lvl, m) = component_notice(false, false, "Transform");
    assert_eq!((lvl, m.as_str()), (LogLevel::Warn, "Transform is intrinsic or missing (offline)"));
    assert_eq!(exit_code_text(Some(-1)), "Some(-1)");
    assert_eq!(exit_code_text(Some(0)), "Some(0)");
    assert_eq!(exit_code_text(None), "None");
}

#[test]
fn diagnostics_are_counted_per_level() {
    let ds = vec![
        diag(DiagnosticLevel::Error),
        diag(DiagnosticLevel::Warning),
        diag(DiagnosticLevel::Error),
        diag(DiagnosticLevel::Note),
    ];
    assert_eq!(count_at(&ds, DiagnosticLevel::Error), 2);
    assert_eq!(count_at(&ds, DiagnosticLevel::Warning), 1);
    assert_eq!(count_at(&Vec::new(), DiagnosticLevel::Error), 0);
}

#[test]
fn project_paths() {
    let p = Project::new(TargetOs::Other, "/home/u/Proj", ProjectManifest::default_manifest());
    assert_eq!(p.manifest_path(), "/home/u/Proj/BevyForge.toml");
    assert_eq!(p.assets_dir(), "/home/u/Proj/assets");
    assert_eq!(p.scenes_dir(), "/home/u/Proj/assets/scenes");
    assert_eq!(p.scripts_crate_dir(), "/home/u/Proj/scripts");
    assert_eq!(p.resolve_scene(""), "/home/u/Proj/assets/scenes/main.scn.ron");
    assert_eq!(p.resolve_scene("assets/scenes/x.scn.ron"), "/home/u/Proj/assets/scenes/x.scn.ron");
    assert_eq!(p.resolve_scene("level.scn.ron"), "/home/u/Proj/assets/scenes/level.scn.ron");
    assert_eq!(p.resolve_scene("/abs/x.ron"), "/abs/x.ron");
    let named = ProjectManifest::named("Space Game");
    assert_eq!(named.name, "Space Game");
    assert_eq!(named.engine, "bevy 0.19");
    assert_eq!(path_join(TargetOs::Other, "a/", "b"), "a/b");
    assert_eq!(path_join(TargetOs::Other, "", "b"), "b");
    assert_eq!(path_join(TargetOs::Other, "a", "b"), "a/b");
    let dirs = project_dirs();
    assert_eq!(dirs.len(), 7);
    assert_eq!(dirs[0], "assets/scenes");
    assert_eq!(dirs[6], "scripts");
}

#[test]
fn doctor_report_text() {
    let mut r = Report::new();
    r.ok("runtime binary", "found");
    r.fail("handshake", "timed out");
    assert_eq!(r.failed(), 1);
    let text = r.finish(7001, "0.1.0", "linux", "x86_64", "unix time 5");
    let expected = "BevyForge doctor — v0.1.0\n\nplatform: linux x86_64 | port 7001 | unix time 5\n\nPASS  runtime binary\n      found\n\nFAIL  handshake\n      timed out\n\nRESULT: 1 check(s) failed. Send this whole file to support.\nMost common fixes: extract the FULL archive (both .exe files together), allow bevyforge-runtime.exe in Windows Defender, or update GPU drivers.\n";
    assert_eq!(text, expected);
    let mut ok = Report::new();
    ok.ok("a", "b");
    let text = ok.finish(1, "v", "os", "arch", "t");
    assert!(text.ends_with("\n\nRESULT: ALL CHECKS PASSED — the engine stack works on this machine.\n"));
}

#[test]
fn bounded_queues() {
    let mut v: Vec<u32> = Vec::new();
    for i in 0..5 {
        push_bounded(&mut v, i, 3);
    }
    assert_eq!(v, vec![2, 3, 4]);
    let mut t: Vec<u32> = Vec::new();
    for i in 0..20 {
        push_bounded(&mut t, i, MAX_TOASTS);
    }
    assert_eq!(t.len(), MAX_TOASTS);
    assert_eq!(t[0], 12);
    let mut w = vec![1, 2, 3, 4, 5];
    keep_last(&mut w, 2);
    assert_eq!(w, vec![4, 5]);
    let mut u = vec![1, 2];
    keep_last(&mut u, 10);
    assert_eq!(u, vec![1, 2]);
    let mut z = vec![1, 2];
    keep_last(&mut z, 0);
    assert!(z.is_empty());
}

#[test]
fn session_vocabulary() {
    assert_eq!(ViewportTab::initial(), ViewportTab::Scene);
    assert_eq!(DockTab::initial(), DockTab::Console);
    assert_eq!(GizmoMode::initial().label(), "Translate");
    assert_eq!(GizmoMode::Scale.label(), "Scale");
    assert_eq!(GizmoHandle::TranslatePlane(0, 1).undo_label("Cube"), "Translate Cube");
    assert_eq!(GizmoHandle::RotateAxis(2).undo_label("Cube"), "Rotate Cube");
    assert_eq!(GizmoHandle::ScaleUniform.undo_label("Sun"), "Scale Sun");
    assert_eq!(test_dialog("open_scene"), Some(DialogPurpose::OpenScene));
    assert_eq!(test_dialog("new_project"), Some(DialogPurpose::NewProject));
    assert_eq!(test_dialog("nothing"), None);
    assert!(DialogPurpose::OpenProject.picks_directory());
    assert!(!DialogPurpose::SaveSceneAs.picks_directory());
    let docs = vec![
        ScriptDoc::opened("a.rs", "a", String::new()),
        ScriptDoc::opened("b.rs", "b", "fn main() {}".to_string()),
        ScriptDoc::opened("b.rs", "b2", String::new()),
    ];
    assert_eq!(find_script(&docs, "b.rs"), Some(1));
    assert_eq!(find_script(&docs, "c.rs"), None);
    assert!(!docs[1].dirty);
}

#[test]
fn inspector_layout() {
    let rows = rows_of(ComponentKind::Transform);
    let labels: Vec<&str> = rows.iter().map(|r| r.label).collect();
    assert_eq!(labels, vec!["Translation", "Rotation", "Scale"]);
    assert_eq!(rows[1].unit, Some("deg"));
    assert_eq!(rows[0].field, ComponentField::Translation);
    assert_eq!(rows_of(ComponentKind::SpotLight).len(), 5);
    let shown = components_shown(
        SceneEntityKind::Mesh(MeshPrimitive::Cube),
        true,
        false,
        Some(LightKind::Point),
        &vec![ScriptKind::Health, ScriptKind::Rotator],
    );
    assert_eq!(
        shown,
        vec![
            ComponentKind::Transform,
            ComponentKind::Visibility,
            ComponentKind::Mesh,
            ComponentKind::Material,
            ComponentKind::PointLight,
            ComponentKind::Health,
            ComponentKind::Rotator,
        ]
    );
    let cam = components_shown(SceneEntityKind::Camera, false, true, None, &Vec::new());
    assert_eq!(cam, vec![ComponentKind::Transform, ComponentKind::Visibility, ComponentKind::Camera]);
}

#[test]
fn offline_warnings_are_throttled() {
    assert!(offline_warning_due(None, 0));
    assert!(!offline_warning_due(Some(1000), 4000));
    assert!(offline_warning_due(Some(1000), 4001));
    assert!(!offline_warning_due(Some(5000), 100));
}

#[test]
fn top_level_rows_are_expanded() {
    let row = |id: u64, depth: u32| HierNode {
        id,
        name: format!("n{id}"),
        icon: NodeIcon::Group,
        visible: true,
        locked: false,
        has_children: false,
        depth,
        selected: false,
    };
    let nodes = vec![row(1, 0), row(2, 1), row(3, 2), row(4, 0)];
    assert_eq!(auto_expanded(&nodes), vec![1, 4]);
    assert!(auto_expanded(&Vec::new()).is_empty());
}

#[test]
fn compiler_lines_are_routed() {
    assert_eq!(trim_end("  abc \t\r\n"), "  abc");
    assert_eq!(trim_end(""), "");
    match route_output_line("{\"reason\":\"build-finished\"}\r\n") {
        OutputLine::Message(m) => assert_eq!(m, "{\"reason\":\"build-finished\"}"),
        other => panic!("unexpected {other:?}"),
    }
    match route_output_line("   Compiling forge_scripts v0.1.0  ") {
        OutputLine::Text(t) => assert_eq!(t, "   Compiling forge_scripts v0.1.0"),
        other => panic!("unexpected {other:?}"),
    }
    assert!(matches!(route_output_line(" \n"), OutputLine::Blank));
    assert!(matches!(route_output_line(" {x}"), OutputLine::Text(_)));
}

#[test]
fn new_entities_take_their_kind_shape() {
    let p = shape_of(EntityKind::PlayerPrefab);
    assert_eq!(p.kind, SceneEntityKind::Mesh(MeshPrimitive::Capsule));
    assert!(p.material && !p.camera);
    assert_eq!(p.light, None);
    assert_eq!(p.scripts, vec![ScriptKind::Player, ScriptKind::CharacterController, ScriptKind::Health, ScriptKind::Inventory]);
    let s = shape_of(EntityKind::SpotLight);
    assert_eq!(s.kind, SceneEntityKind::SpotLight);
    assert_eq!(s.light, Some(LightKind::Spot));
    assert!(!s.material && s.scripts.is_empty());
    let m = shape_of(EntityKind::Mesh(MeshPrimitive::Torus));
    assert_eq!(m.kind, SceneEntityKind::Mesh(MeshPrimitive::Torus));
    assert!(m.material);
    assert!(shape_of(EntityKind::Camera).camera);
    assert!(!shape_of(EntityKind::Empty).material);
}

#[test]
fn menu_rules() {
    assert_eq!(spawn_name(EntityKind::Mesh(MeshPrimitive::Icosphere)), "Icosphere");
    assert_eq!(spawn_name(EntityKind::PlayerPrefab), "Player");
    assert_eq!(spawn_name(EntityKind::Empty), "Empty");
    assert_eq!(spawn_name(EntityKind::PointLight), "Point Light");
    let p = Project::new(TargetOs::Other, "/p", ProjectManifest::default_manifest());
    assert_eq!(save_target(Some("/x/level.scn.ron"), Some(&p)), "/x/level.scn.ron");
    assert_eq!(save_target(None, Some(&p)), "/p/assets/scenes/main.scn.ron");
    assert_eq!(save_target(None, None), "assets/scenes/main.scn.ron");
    assert_eq!(undo_menu_label(Some("Translate Cube")), "Undo Translate Cube");
    assert_eq!(undo_menu_label(None), "Undo ");
    assert_eq!(screenshot_name(1700000000), "screenshot-1700000000.png");
}

#[test]
fn asset_browser_rules() {
    assert!(ends_with_ci("Level.SCN.RON", ".ron"));
    assert!(ends_with_ci(".rs", ".rs"));
    assert!(!ends_with_ci("rs", ".rs"));
    assert!(!ends_with_ci("main.rsx", ".rs"));
    assert_eq!(asset_kind("textures", true), AssetKind::Folder);
    assert_eq!(asset_kind("main.scn.ron", false), AssetKind::Scene);
    assert_eq!(asset_kind("player.RS", false), AssetKind::Script);
    assert_eq!(asset_kind("sky.JPEG", false), AssetKind::Image);
    assert_eq!(asset_kind("BevyForge.toml", false), AssetKind::Manifest);
    assert_eq!(asset_kind("ship.glb", false), AssetKind::Model);
    assert_eq!(asset_kind("notes.txt", false), AssetKind::Other);
    assert_eq!(AssetKind::Folder.glyph(), "▤");
    assert_eq!(AssetKind::Scene.glyph(), "❐");
    assert_eq!(AssetKind::Other.glyph(), "▪");
    assert_eq!(asset_action("assets/scenes/a.ron", false), AssetAction::OpenScene);
    assert_eq!(asset_action("scripts/src/lib.rs", false), AssetAction::OpenScript);
    assert_eq!(asset_action("a.png", false), AssetAction::PreviewImage);
    assert_eq!(asset_action("a.toml", false), AssetAction::NoEditor);
    assert_eq!(asset_action("dir.ron", true), AssetAction::Ignore);
    assert_eq!(no_editor_text("a.toml"), "No editor registered for a.toml");
}

#[test]
fn dialog_setup_rules() {
    assert_eq!(DialogPurpose::OpenScene.title(), "Open scene (.scn.ron)");
    assert_eq!(DialogPurpose::NewProject.title(), "New project — choose a folder for it");
    assert_eq!(DialogPurpose::SaveSceneAs.default_file_name(), Some("scene.scn.ron"));
    assert_eq!(DialogPurpose::OpenProject.default_file_name(), None);
    assert!(DialogPurpose::SaveSceneAs.starts_in_scenes());
    assert!(!DialogPurpose::OpenProject.starts_in_scenes());
}

#[test]
fn scene_listing_keeps_scene_files_sorted_and_relative() {
    let names: Vec<String> = vec!["zeta.scn.ron", "notes.txt", "alpha.scn.ron", "prefab.ron", "Beta.scn.ron", "alpha.scn.ron.bak", "a.scn.ron"]
        .into_iter()
        .map(String::from)
        .collect();
    let listed = scene_listing(&names);
    assert_eq!(
        listed,
        vec![
            "assets/scenes/Beta.scn.ron",
            "assets/scenes/a.scn.ron",
            "assets/scenes/alpha.scn.ron",
            "assets/scenes/zeta.scn.ron",
        ]
    );
    assert!(scene_listing(&Vec::new()).is_empty());
}

#[test]
fn windows_paths_follow_windows_rules() {
    let w = TargetOs::Windows;
    assert_eq!(path_join(w, r"C:\Users\me", "assets"), r"C:\Users\me\assets");
    assert_eq!(path_join(w, r"C:\Users\me\", "assets"), r"C:\Users\me\assets");
    assert_eq!(path_join(w, "C:/Users/me/", "assets"), "C:/Users/me/assets");
    assert_eq!(path_join(w, "C:", "x"), "C:x");
    assert_eq!(path_join(w, r"C:\a\b", r"\x"), r"C:\x");
    assert_eq!(path_join(w, r"\\server\share\dir", r"\x"), r"\\server\share\x");
    assert_eq!(path_join(w, r"C:\a", r"D:\b"), r"D:\b");
    assert_eq!(path_join(w, r"C:\a", "D:b"), "D:b");
    assert_eq!(path_join(w, r"C:\a", r"\\srv\sh\f"), r"\\srv\sh\f");
    assert_eq!(path_join(w, "dir", "/x"), "/x");
    assert_eq!(path_join(w, "", "b"), "b");
    assert_eq!(path_join(w, "a", ""), r"a\");
    assert_eq!(path_join(TargetOs::Other, "a", "/b"), "/b");
    assert_eq!(path_join(TargetOs::MacOs, r"C:\a", "b"), r"C:\a/b");
    assert_eq!(windows_prefix(r"C:\x"), Some((2, PrefixKind::Disk)));
    assert_eq!(windows_prefix(r"\\server\share\x"), Some((14, PrefixKind::Other)));
    assert_eq!(windows_prefix("//server/share"), Some((14, PrefixKind::Other)));
    assert_eq!(windows_prefix(r"\\?\C:\x"), Some((6, PrefixKind::Verbatim)));
    assert_eq!(windows_prefix(r"\\?\UNC\srv\sh\x"), Some((14, PrefixKind::Verbatim)));
    assert_eq!(windows_prefix(r"\\.\COM1"), Some((8, PrefixKind::Other)));
    assert_eq!(windows_prefix(r"\\server"), None);
    assert_eq!(windows_prefix("rel/x"), None);
    let p = Project::new(w, r"C:\Users\me\Proj", ProjectManifest::default_manifest());
    assert_eq!(p.manifest_path(), r"C:\Users\me\Proj\BevyForge.toml");
    assert_eq!(p.scenes_dir(), r"C:\Users\me\Proj\assets\scenes");
    assert_eq!(p.resolve_scene(""), r"C:\Users\me\Proj\assets/scenes/main.scn.ron");
    assert_eq!(p.resolve_scene(r"D:\other.scn.ron"), r"D:\other.scn.ron");
    assert_eq!(
        log_candidates(w, None, Some(r"C:\Users\me\AppData\Local"), None, None, Some(r"C:\Temp")),
        vec![r"C:\Users\me\AppData\Local\BevyForge\bevyforge.log", r"C:\Temp\bevyforge.log"]
    );
    assert_eq!(demo_project_dir(w, r"C:\Users\me"), r"C:\Users\me\BevyForgeProjects\Demo");
}

#[test]
fn host_paths_match_the_platform_join() {
    let os = if std::path::MAIN_SEPARATOR == '\\' { TargetOs::Windows } else { TargetOs::Other };
    for (base, rel) in [("/a/b", "c"), ("/a/b/", "c"), ("", "c"), ("a", "/c"), ("a", ""), ("a//", "b/c")] {
        let expected = std::path::PathBuf::from(base).join(rel).to_string_lossy().to_string();
        assert_eq!(path_join(os, base, rel), expected);
    }
}

#[test]
fn inspector_edits_land_in_their_slot() {
    assert_eq!(field_slot(ComponentKind::Transform, ComponentField::Translation, ValueType::Vec3, false, false, None), Some(FieldSlot::Translation));
    assert_eq!(field_slot(ComponentKind::Transform, ComponentField::Translation, ValueType::F32, false, false, None), None);
    assert_eq!(field_slot(ComponentKind::Visibility, ComponentField::EntityVisible, ValueType::Text, false, false, None), Some(FieldSlot::Visible));
    assert_eq!(field_slot(ComponentKind::Material, ComponentField::Metallic, ValueType::F32, true, false, None), Some(FieldSlot::Metallic));
    assert_eq!(field_slot(ComponentKind::Material, ComponentField::Metallic, ValueType::F32, false, false, None), None);
    assert_eq!(field_slot(ComponentKind::Material, ComponentField::FovDeg, ValueType::F32, true, false, None), None);
    assert_eq!(field_slot(ComponentKind::Camera, ComponentField::FovDeg, ValueType::F32, false, true, None), Some(FieldSlot::CameraFov));
    assert_eq!(field_slot(ComponentKind::Camera, ComponentField::FovDeg, ValueType::F32, false, false, None), None);
    assert_eq!(
        field_slot(ComponentKind::PointLight, ComponentField::LightRadius, ValueType::F32, false, false, Some(LightKind::Point)),
        Some(FieldSlot::LightRadius)
    );
    assert_eq!(field_slot(ComponentKind::SpotLight, ComponentField::LightRadius, ValueType::F32, false, false, Some(LightKind::Spot)), None);
    assert_eq!(field_slot(ComponentKind::SpotLight, ComponentField::LightColor, ValueType::Rgba, false, false, Some(LightKind::Point)), None);
    assert_eq!(
        field_slot(ComponentKind::Orbiter, ComponentField::OrbiterRadius, ValueType::F32, false, false, None),
        Some(FieldSlot::ScriptParam(ScriptKind::Orbiter))
    );
    assert_eq!(field_slot(ComponentKind::Orbiter, ComponentField::OrbiterRadius, ValueType::Vec3, false, false, None), None);
    assert_eq!(field_slot(ComponentKind::Health, ComponentField::OrbiterRadius, ValueType::F32, false, false, None), None);
    assert_eq!(script_param(ScriptKind::Inventory, ComponentField::InventorySlots), Some(ValueType::U32));
    assert_eq!(slot_bound(FieldSlot::Metallic), Bound::UnitInterval);
    assert_eq!(slot_bound(FieldSlot::CameraFov), Bound::FieldOfView);
    assert_eq!(slot_bound(FieldSlot::LightOuterAngle), Bound::ConeAngle);
    assert_eq!(slot_bound(FieldSlot::LightRange), Bound::NonNegative);
    assert_eq!(slot_bound(FieldSlot::ScriptParam(ScriptKind::Health)), Bound::Unbounded);
}

#[test]
fn kept_positions_skip_one_kind() {
    assert_eq!(kept_positions(&vec![ScriptKind::Rotator, ScriptKind::Health, ScriptKind::Rotator, ScriptKind::Player], ScriptKind::Rotator), vec![1, 3]);
    assert!(kept_positions(&vec![ScriptKind::Health], ScriptKind::Health).is_empty());
    assert_eq!(kept_positions(&vec![ScriptKind::Health, ScriptKind::Player], ScriptKind::Inventory), vec![0, 1]);
}
