use bevyforge::undo::{UndoEntry, UndoStack};

#[derive(Debug, Clone, PartialEq)]
enum Cmd {
    SetTranslation { entity: u64, value: [f32; 3] },
}

fn entry(label: &str, from: [f32; 3], to: [f32; 3]) -> UndoEntry<Cmd> {
    UndoEntry {
        label: label.into(),
        undo: vec![Cmd::SetTranslation { entity: 1, value: from }],
        redo: vec![Cmd::SetTranslation { entity: 1, value: to }],
        spawned_entity: None,
        trash_id: None,
    }
}

#[test]
fn undo_redo_flow() {
    let mut stack = UndoStack::new(10);
    stack.push(entry("Move Cube", [0.0; 3], [5.0, 0.0, 0.0]));
    assert!(stack.can_undo());
    let undone = stack.pop_undo().unwrap();
    assert!(matches!(undone.undo[0], Cmd::SetTranslation { .. }));
    assert!(stack.can_redo());
    let redone = stack.pop_redo().unwrap();
    assert!(matches!(redone.redo[0], Cmd::SetTranslation { .. }));
    assert!(stack.can_undo());
}

#[test]
fn push_clears_redo_and_respects_limit() {
    let mut stack = UndoStack::new(2);
    stack.push(entry("a", [0.0; 3], [1.0; 3]));
    stack.push(entry("b", [0.0; 3], [2.0; 3]));
    stack.push(entry("c", [0.0; 3], [3.0; 3]));
    assert_eq!(stack.len(), 2);
    assert_eq!(stack.top_label(), Some("c"));
    let c = stack.pop_undo().unwrap();
    assert_eq!(c.label, "c");
    assert!(stack.can_redo());
    stack.push(entry("d", [0.0; 3], [4.0; 3]));
    assert!(!stack.can_redo());
    assert_eq!(stack.top_label(), Some("d"));
    let d = stack.pop_undo().unwrap();
    assert_eq!(d.label, "d");
    let b = stack.pop_undo().unwrap();
    assert_eq!(b.label, "b");
    assert!(stack.pop_undo().is_none());
    assert!(stack.is_empty());
}

#[test]
fn undo_then_redo_restores_top() {
    let mut stack = UndoStack::new(5);
    stack.push(entry("Move", [1.0; 3], [2.0; 3]));
    let u = stack.pop_undo().unwrap();
    let r = stack.pop_redo().unwrap();
    assert_eq!(u.label, r.label);
    assert_eq!(u.undo, r.undo);
    assert_eq!(u.redo, r.redo);
    assert_eq!(stack.top_label(), Some("Move"));
    assert!(!stack.can_redo());
}

#[test]
fn zero_limit_keeps_one() {
    let mut stack: UndoStack<Cmd> = UndoStack::new(0);
    stack.push(entry("a", [0.0; 3], [1.0; 3]));
    stack.push(entry("b", [0.0; 3], [1.0; 3]));
    assert_eq!(stack.len(), 1);
    stack.clear();
    assert!(!stack.can_undo());
    assert!(!stack.can_redo());
}
