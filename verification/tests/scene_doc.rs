use bevyforge::ipc::{ComponentKind, MeshPrimitive, NodeIcon};
use bevyforge::scene::{
    component_addable, component_removable, icon_of, without_script, NodeFlags, OfflineScene,
    SceneEntityKind, ScriptKind, FIRST_ID,
};

fn flags(n: usize) -> Vec<NodeFlags> {
    vec![NodeFlags { icon: NodeIcon::Group, visible: true, locked: false }; n]
}

fn rig() -> OfflineScene<&'static str> {
    let mut s = OfflineScene::empty();
    s.reset_to_roots(vec!["cam", "sun"], vec!["Main Camera".into(), "Directional Light".into()]);
    s
}

#[test]
fn default_rig_has_positional_ids() {
    let s = rig();
    assert_eq!(s.len(), 2);
    assert_eq!(s.id_at(0), FIRST_ID);
    assert_eq!(s.id_at(1), FIRST_ID + 1);
    assert_eq!(s.parent_at(0), None);
    assert_eq!(s.name_at(1), "Directional Light");
    assert!(!s.has_unsynced_edits());
    assert_eq!(s.scene_path(), None);
}

#[test]
fn spawn_names_uniquely_and_drops_dangling_parent() {
    let mut s = rig();
    let a = s.spawn("Cube", None, "a");
    let b = s.spawn("Cube", Some(a), "b");
    let c = s.spawn("Cube", Some(999_999), "c");
    assert_eq!(a, 1002);
    assert_eq!(b, 1003);
    assert_eq!(s.name_at(2), "Cube");
    assert_eq!(s.name_at(3), "Cube.001");
    assert_eq!(s.name_at(4), "Cube.002");
    assert_eq!(s.parent_at(3), Some(a));
    assert_eq!(s.parent_at(4), None);
    assert_eq!(s.index_of(c), Some(4));
    assert!(s.has_unsynced_edits());
    assert_eq!(s.unique_name("Main Camera"), "Main Camera.001");
    assert_eq!(s.unique_name("Sphere"), "Sphere");
}

#[test]
fn delete_removes_subtree_and_frees_names() {
    let mut s = rig();
    let a = s.spawn("Group", None, "g");
    let b = s.spawn("Child", Some(a), "c1");
    let _c = s.spawn("Grandchild", Some(b), "c2");
    let d = s.spawn("Other", None, "o");
    s.delete(a);
    assert_eq!(s.len(), 3);
    assert_eq!(s.index_of(a), None);
    assert_eq!(s.index_of(b), None);
    assert_eq!(s.index_of(d), Some(2));
    assert_eq!(*s.payload_at(2), "o");
    assert_eq!(s.unique_name("Child"), "Child");
    assert_eq!(s.unique_name("Other"), "Other.001");
}

#[test]
fn duplicate_copies_subtree_under_same_parent() {
    let mut s = rig();
    let root = s.spawn("Root", None, "r");
    let a = s.spawn("Arm", Some(root), "arm");
    let _h = s.spawn("Hand", Some(a), "hand");
    let copy = s.duplicate(a).unwrap();
    assert_eq!(s.len(), 7);
    let ia = s.index_of(copy).unwrap();
    assert_eq!(s.name_at(ia), "Arm.001");
    assert_eq!(s.parent_at(ia), Some(root));
    assert_eq!(*s.payload_at(ia), "arm");
    assert_eq!(s.name_at(ia + 1), "Hand.001");
    assert_eq!(s.parent_at(ia + 1), Some(copy));
    assert_eq!(*s.payload_at(ia + 1), "hand");
    assert_eq!(s.duplicate(424242), None);
}

#[test]
fn reparent_refuses_cycles() {
    let mut s = rig();
    let a = s.spawn("A", None, "a");
    let b = s.spawn("B", Some(a), "b");
    assert!(!s.reparent(a, Some(b)));
    assert!(!s.reparent(a, Some(a)));
    assert_eq!(s.parent_at(s.index_of(a).unwrap()), None);
    assert!(s.reparent(b, None));
    assert_eq!(s.parent_at(s.index_of(b).unwrap()), None);
    assert!(s.reparent(a, Some(b)));
    assert_eq!(s.parent_at(s.index_of(a).unwrap()), Some(b));
    assert!(!s.reparent(777, None));
}

#[test]
fn rename_keeps_names_distinct() {
    let mut s = rig();
    let a = s.spawn("Cube", None, "a");
    assert!(s.rename(a, "Main Camera"));
    assert_eq!(s.name_at(2), "Main Camera.001");
    assert!(s.rename(a, "Box"));
    assert_eq!(s.name_at(2), "Box");
    assert_eq!(s.unique_name("Main Camera.001"), "Main Camera.001");
    assert!(!s.rename(4242, "x"));
}

#[test]
fn hierarchy_is_depth_first_in_document_order() {
    let mut s = rig();
    let g = s.spawn("Group", None, "g");
    let c1 = s.spawn("C1", Some(g), "c1");
    let _c2 = s.spawn("C2", Some(g), "c2");
    let _gc = s.spawn("GC", Some(c1), "gc");
    let rows = s.hierarchy(Some(c1), &flags(s.len()));
    let names: Vec<(&str, u32, bool, bool)> =
        rows.iter().map(|r| (r.name.as_str(), r.depth, r.has_children, r.selected)).collect();
    assert_eq!(
        names,
        vec![
            ("Main Camera", 0, false, false),
            ("Directional Light", 0, false, false),
            ("Group", 0, true, false),
            ("C1", 1, true, true),
            ("GC", 2, false, false),
            ("C2", 1, false, false),
        ]
    );
}

#[test]
fn adopt_resolves_parent_names() {
    let mut s: OfflineScene<u8> = OfflineScene::empty();
    s.adopt(
        vec![1, 2, 3],
        vec!["A".into(), "B".into(), "A".into()],
        vec![None, Some("A".into()), Some("missing".into())],
        Some("scene.scn.ron".into()),
    );
    assert_eq!(s.parent_at(1), Some(FIRST_ID + 2));
    assert_eq!(s.parent_at(2), None);
    assert_eq!(s.scene_path(), Some("scene.scn.ron".to_string()));
    assert!(!s.has_unsynced_edits());
    assert!(s.take_mirror_dirty());
    assert!(!s.take_mirror_dirty());
    let names = s.parent_names();
    assert_eq!(names, vec![None, Some("A".to_string()), None]);
}

#[test]
fn icons_and_components() {
    assert_eq!(icon_of(SceneEntityKind::Camera, &vec![]), NodeIcon::Camera);
    assert_eq!(icon_of(SceneEntityKind::PointLight, &vec![]), NodeIcon::Light);
    assert_eq!(icon_of(SceneEntityKind::Mesh(MeshPrimitive::Capsule), &vec![ScriptKind::Player]), NodeIcon::Player);
    assert_eq!(icon_of(SceneEntityKind::Mesh(MeshPrimitive::Cube), &vec![ScriptKind::Health]), NodeIcon::Mesh);
    assert_eq!(icon_of(SceneEntityKind::Empty, &vec![ScriptKind::Rotator]), NodeIcon::Script);
    assert_eq!(icon_of(SceneEntityKind::Empty, &vec![]), NodeIcon::Group);
    assert!(component_addable(ComponentKind::Material, false, &vec![]));
    assert!(!component_addable(ComponentKind::Material, true, &vec![]));
    assert!(!component_addable(ComponentKind::Transform, false, &vec![]));
    assert!(!component_addable(ComponentKind::Health, false, &vec![ScriptKind::Health]));
    assert!(component_removable(ComponentKind::Health, false, &vec![ScriptKind::Health]));
    assert!(!component_removable(ComponentKind::Camera, true, &vec![]));
    assert_eq!(
        without_script(&vec![ScriptKind::Health, ScriptKind::Player, ScriptKind::Health], ScriptKind::Health),
        vec![ScriptKind::Player]
    );
}

#[test]
fn delete_turns_orphans_of_the_subtree_into_roots() {
    let mut s = rig();
    let a = s.spawn("Group", None, "g");
    let b = s.spawn("Child", Some(a), "c");
    // a dangling parent beyond any id handed out stays as it is
    s.reparent(b, Some(u64::MAX - 1));
    let c = s.spawn("Kid", Some(a), "k");
    s.delete(a);
    assert_eq!(s.index_of(a), None);
    assert_eq!(s.index_of(c), None);
    let bi = s.index_of(b).unwrap();
    assert_eq!(s.parent_at(bi), Some(u64::MAX - 1));
}

#[test]
fn ids_left_for_counts_remaining_ids() {
    let s = rig();
    assert!(s.ids_left_for(0));
    assert!(s.ids_left_for(1));
    assert!(s.ids_left_for(1_000_000));
    assert!(!s.ids_left_for(usize::MAX));
}

#[test]
fn hierarchy_survives_a_save_and_reopen_by_names() {
    let mut s = rig();
    let g = s.spawn("Group", None, "g");
    let c = s.spawn("Child", Some(g), "c");
    let _k = s.spawn("Kid", Some(c), "k");
    let names: Vec<String> = (0..s.len()).map(|i| s.name_at(i).to_string()).collect();
    let payloads: Vec<&'static str> = (0..s.len()).map(|i| *s.payload_at(i)).collect();
    let parents = s.parent_names();
    assert_eq!(parents[3], Some("Group".to_string()));
    assert_eq!(parents[4], Some("Child".to_string()));
    let mut t: OfflineScene<&'static str> = OfflineScene::empty();
    t.adopt(payloads, names, parents, Some("/tmp/x.scn.ron".to_string()));
    assert_eq!(t.len(), 5);
    assert_eq!(t.parent_at(0), None);
    assert_eq!(t.parent_at(2), None);
    assert_eq!(t.parent_at(3), Some(FIRST_ID + 2));
    assert_eq!(t.parent_at(4), Some(FIRST_ID + 3));
    assert!(!t.has_unsynced_edits());
    assert_eq!(t.scene_path().as_deref(), Some("/tmp/x.scn.ron"));
}

#[test]
fn spawn_then_delete_gives_back_the_document() {
    let mut s = rig();
    let g = s.spawn("Group", None, "g");
    let before: Vec<(u64, Option<u64>, String)> =
        (0..s.len()).map(|i| (s.id_at(i), s.parent_at(i), s.name_at(i).to_string())).collect();
    let x = s.spawn("Group", Some(g), "x");
    assert_eq!(s.name_at(3), "Group.001");
    s.delete(x);
    let after: Vec<(u64, Option<u64>, String)> =
        (0..s.len()).map(|i| (s.id_at(i), s.parent_at(i), s.name_at(i).to_string())).collect();
    assert_eq!(before, after);
    // the freed name is handed out again
    assert_eq!(s.unique_name("Group"), "Group.001");
    // ids move on
    assert_eq!(s.spawn("Other", None, "o"), FIRST_ID + 4);
}

#[test]
fn hierarchy_lists_each_entity_once_and_skips_cycles() {
    let mut s: OfflineScene<&'static str> = OfflineScene::empty();
    s.adopt(
        vec!["r", "a", "b", "c"],
        vec!["Root".into(), "A".into(), "B".into(), "C".into()],
        vec![None, Some("B".into()), Some("A".into()), Some("Root".into())],
        None,
    );
    let rows = s.hierarchy(None, &flags(4));
    let ids: Vec<u64> = rows.iter().map(|r| r.id).collect();
    assert_eq!(ids, vec![FIRST_ID, FIRST_ID + 3]);
    assert_eq!(rows[1].depth, 1);
    assert!(rows[0].has_children);
}

#[test]
fn delete_reaches_every_level_of_a_deep_chain() {
    let mut s = rig();
    let top = s.spawn("Level", None, "0");
    let mut chain = vec![top];
    for _ in 0..6 {
        let last = *chain.last().unwrap();
        chain.push(s.spawn("Level", Some(last), "n"));
    }
    let side = s.spawn("Side", Some(chain[2]), "side");
    let keep = s.spawn("Keep", None, "keep");
    s.delete(chain[1]);
    assert_eq!(s.index_of(top), Some(2));
    for id in &chain[1..] {
        assert_eq!(s.index_of(*id), None);
    }
    assert_eq!(s.index_of(side), None);
    assert_eq!(s.index_of(keep), Some(3));
    assert_eq!(s.len(), 4);
}

#[test]
fn reparent_refuses_exactly_the_subtree() {
    let mut s = rig();
    let a = s.spawn("A", None, "a");
    let b = s.spawn("B", Some(a), "b");
    let c = s.spawn("C", Some(b), "c");
    let d = s.spawn("D", None, "d");
    // the entity itself and everything below it are refused
    assert!(!s.reparent(a, Some(a)));
    assert!(!s.reparent(a, Some(b)));
    assert!(!s.reparent(a, Some(c)));
    assert_eq!(s.parent_at(s.index_of(a).unwrap()), None);
    // an entity outside the subtree, an absent id and no parent are accepted
    assert!(s.reparent(b, Some(d)));
    assert_eq!(s.parent_at(s.index_of(b).unwrap()), Some(d));
    assert!(s.reparent(c, Some(123_456)));
    assert_eq!(s.parent_at(s.index_of(c).unwrap()), Some(123_456));
    assert!(s.reparent(a, Some(c)));
    assert_eq!(s.parent_at(s.index_of(a).unwrap()), Some(c));
    assert!(s.reparent(a, None));
}
