use dioxus_makepad::backend::{BackendOp, Placement};
use dioxus_makepad::scene::Scene;
use dioxus_makepad::style::PropertyWrite;
use dioxus_makepad::template::Blueprint;

fn make(handle: usize, parent: usize) -> BackendOp {
    BackendOp::CreateWidget { handle, blueprint: Blueprint::View, parent }
}

fn attach(target: usize, children: Vec<usize>, placement: Placement) -> BackendOp {
    BackendOp::AttachChildren { target, children, placement }
}

fn scene_of(ops: Vec<BackendOp>) -> Scene {
    let mut scene = Scene::new();
    for op in &ops {
        scene.apply(op);
    }
    scene
}

#[test]
fn new_scene_is_empty() {
    let scene = Scene::new();
    assert_eq!(scene.len(), 0);
    assert!(scene.children_of(0).is_empty());
    assert_eq!(scene.parent_of(0), None);
}

#[test]
fn created_widgets_come_last_under_their_parent() {
    let scene = scene_of(vec![make(1, 0), make(2, 0), make(3, 1), make(4, 0), make(5, 1)]);
    assert_eq!(scene.children_of(0), vec![1, 2, 4]);
    assert_eq!(scene.children_of(1), vec![3, 5]);
    assert!(scene.children_of(2).is_empty());
    assert_eq!(scene.parent_of(3), Some(1));
    assert_eq!(scene.parent_of(4), Some(0));
    assert_eq!(scene.parent_of(9), None);
    assert_eq!(scene.len(), 5);
}

#[test]
fn attach_inside_moves_behind_the_children_there() {
    let mut scene = scene_of(vec![make(1, 0), make(2, 0), make(3, 0), make(4, 1)]);
    scene.apply(&attach(1, vec![3, 2], Placement::Inside));
    assert_eq!(scene.children_of(0), vec![1]);
    assert_eq!(scene.children_of(1), vec![4, 3, 2]);
    scene.apply(&attach(1, vec![4], Placement::Inside));
    assert_eq!(scene.children_of(1), vec![3, 2, 4]);
    assert_eq!(scene.len(), 4);
}

#[test]
fn attach_before_ends_just_in_front_of_the_target() {
    let mut scene = scene_of(vec![make(1, 0), make(2, 0), make(3, 0), make(4, 9), make(5, 9)]);
    scene.apply(&attach(2, vec![4, 5], Placement::Before));
    assert_eq!(scene.children_of(0), vec![1, 4, 5, 2, 3]);
    assert!(scene.children_of(9).is_empty());
    scene.apply(&attach(1, vec![3], Placement::Before));
    assert_eq!(scene.children_of(0), vec![3, 1, 4, 5, 2]);
}

#[test]
fn attach_after_starts_just_behind_the_target() {
    let mut scene = scene_of(vec![make(1, 0), make(2, 0), make(3, 0), make(4, 9), make(5, 9)]);
    scene.apply(&attach(1, vec![4, 5], Placement::After));
    assert_eq!(scene.children_of(0), vec![1, 4, 5, 2, 3]);
    scene.apply(&attach(3, vec![1], Placement::After));
    assert_eq!(scene.children_of(0), vec![4, 5, 2, 3, 1]);
}

#[test]
fn attach_next_to_what_is_not_there_moves_nothing() {
    let mut scene = scene_of(vec![make(1, 0), make(2, 0)]);
    scene.apply(&attach(7, vec![1], Placement::Before));
    scene.apply(&attach(7, vec![2], Placement::After));
    scene.apply(&attach(1, vec![1], Placement::Before));
    scene.apply(&attach(2, vec![2], Placement::After));
    assert_eq!(scene.children_of(0), vec![1, 2]);
}

#[test]
fn attach_takes_the_parent_of_the_target() {
    let mut scene = scene_of(vec![make(1, 0), make(2, 1), make(3, 0)]);
    scene.apply(&attach(2, vec![3], Placement::After));
    assert_eq!(scene.children_of(1), vec![2, 3]);
    assert_eq!(scene.children_of(0), vec![1]);
    assert_eq!(scene.parent_of(3), Some(1));
}

#[test]
fn detach_takes_the_widget_out() {
    let mut scene = scene_of(vec![make(1, 0), make(2, 0), make(3, 1)]);
    scene.apply(&BackendOp::Detach { handle: 1 });
    assert_eq!(scene.children_of(0), vec![2]);
    assert_eq!(scene.parent_of(1), None);
    scene.apply(&BackendOp::Detach { handle: 8 });
    assert_eq!(scene.children_of(0), vec![2]);
}

#[test]
fn widget_made_anew_has_no_children() {
    let mut scene = scene_of(vec![make(1, 0), make(2, 1), make(3, 1)]);
    scene.apply(&BackendOp::Detach { handle: 1 });
    assert_eq!(scene.children_of(1), vec![2, 3]);
    scene.apply(&make(1, 0));
    assert!(scene.children_of(1).is_empty());
    assert_eq!(scene.children_of(0), vec![1]);
    assert_eq!(scene.len(), 1);
}

#[test]
fn replacing_puts_the_new_ones_where_the_old_one_was() {
    let mut scene = scene_of(vec![make(1, 0), make(2, 0), make(3, 0), make(4, 0), make(5, 0)]);
    scene.apply(&attach(2, vec![5, 4], Placement::Before));
    scene.apply(&BackendOp::Detach { handle: 2 });
    assert_eq!(scene.children_of(0), vec![1, 5, 4, 3]);
}

#[test]
fn clear_root_empties_the_scene() {
    let mut scene = scene_of(vec![make(1, 0), make(2, 1)]);
    scene.apply(&BackendOp::ClearRoot);
    assert_eq!(scene.len(), 0);
    assert!(scene.children_of(0).is_empty());
}

#[test]
fn other_operations_leave_the_scene_alone() {
    let mut scene = scene_of(vec![make(1, 0), make(2, 0)]);
    scene.apply(&BackendOp::SetText { handle: 1, value: "x".to_string() });
    scene.apply(&BackendOp::SetProperty { handle: 1, write: PropertyWrite::MarginTop(3) });
    scene.apply(&BackendOp::RequestRedraw);
    assert_eq!(scene.children_of(0), vec![1, 2]);
    assert_eq!(scene.len(), 2);
}

#[test]
fn root_view_sits_in_nothing() {
    let mut scene = scene_of(vec![make(1, 0), make(2, 1)]);
    scene.apply(&make(0, 2));
    scene.apply(&attach(2, vec![0], Placement::Inside));
    scene.apply(&attach(2, vec![0], Placement::Before));
    scene.apply(&attach(2, vec![0, 1], Placement::After));
    assert_eq!(scene.parent_of(0), None);
    assert_eq!(scene.children_of(0), vec![1]);
    assert_eq!(scene.children_of(1), vec![2]);
    assert!(scene.children_of(2).is_empty());
    assert_eq!(scene.len(), 2);
}
