use dioxus_makepad::error::ErrorKind;
use dioxus_makepad::events::{DioxusListener, EventRegistry};
use dioxus_makepad::table::{same_path, NodeTable, ROOT_HANDLE, ROOT_ID};
use dioxus_makepad::template::Blueprint;

fn listener(name: &str, handle: usize, id: u64) -> DioxusListener {
    DioxusListener { name: name.to_string(), handle, id }
}

#[test]
fn new_table_holds_the_root_view() {
    let table = NodeTable::new();
    assert_eq!(table.slot_count(), 1);
    let root = table.lookup_by_id(ROOT_ID).unwrap();
    assert_eq!(root.handle, ROOT_HANDLE);
    assert_eq!(root.id, Some(ROOT_ID));
    assert!(root.path.is_empty());
    assert_eq!(root.blueprint, Blueprint::View);
    assert_eq!(table.get(ROOT_HANDLE).unwrap().id, Some(0));
    assert!(table.get(1).is_none());
}

#[test]
fn bind_path_inserts_then_fetches() {
    let mut table = NodeTable::new();
    assert_eq!(table.bind_path(0, &vec![0], Blueprint::View), (1, true));
    assert_eq!(table.bind_path(0, &vec![0, 0], Blueprint::Label), (2, true));
    assert_eq!(table.bind_path(0, &vec![0], Blueprint::Label), (1, false));
    assert_eq!(table.bind_path(0, &vec![0, 0], Blueprint::View), (2, false));
    assert_eq!(table.slot_count(), 3);
    let first = table.get(1).unwrap();
    assert_eq!(first.handle, 1);
    assert_eq!(first.template, 0);
    assert_eq!(first.path, vec![0]);
    assert_eq!(first.id, None);
    assert_eq!(first.blueprint, Blueprint::View);
    assert_eq!(table.get(2).unwrap().blueprint, Blueprint::Label);
}

#[test]
fn paths_of_different_templates_do_not_meet() {
    let mut table = NodeTable::new();
    assert_eq!(table.bind_path(0, &vec![0], Blueprint::View), (1, true));
    assert_eq!(table.bind_path(1, &vec![0], Blueprint::Label), (2, true));
    assert_eq!(table.handle_at(0, &vec![0]), Some(1));
    assert_eq!(table.handle_at(1, &vec![0]), Some(2));
    assert_eq!(table.handle_at(2, &vec![0]), None);
}

#[test]
fn empty_path_is_no_address() {
    let mut table = NodeTable::new();
    assert_eq!(table.bind_path(0, &vec![], Blueprint::View), (1, true));
    assert_eq!(table.bind_path(0, &vec![], Blueprint::View), (2, true));
    assert_eq!(table.handle_at(0, &vec![]), None);
    assert_eq!(table.lookup_by_path(0, &vec![]).unwrap_err(), ErrorKind::UnknownPath);
}

#[test]
fn assign_id_binds_the_record_at_the_path() {
    let mut table = NodeTable::new();
    table.bind_path(0, &vec![0], Blueprint::View);
    table.bind_path(0, &vec![0, 1], Blueprint::Button);
    assert_eq!(table.assign_id(0, &vec![0, 1], 7), Ok(2));
    assert_eq!(table.get(2).unwrap().id, Some(7));
    assert_eq!(table.lookup_by_id(7).unwrap().handle, 2);
    assert_eq!(table.lookup_by_id(7).unwrap().path, vec![0, 1]);
    assert_eq!(table.get(1).unwrap().id, None);
}

#[test]
fn assign_id_to_unknown_path_fails() {
    let mut table = NodeTable::new();
    table.bind_path(0, &vec![0], Blueprint::View);
    assert_eq!(table.assign_id(0, &vec![1], 7), Err(ErrorKind::UnknownPath));
    assert_eq!(table.assign_id(1, &vec![0], 7), Err(ErrorKind::UnknownPath));
    assert_eq!(table.assign_id(0, &vec![0, 0], 7), Err(ErrorKind::UnknownPath));
    assert_eq!(table.assign_id(0, &vec![], 7), Err(ErrorKind::UnknownPath));
    assert_eq!(table.lookup_by_id(7).unwrap_err(), ErrorKind::UnboundId);
}

#[test]
fn assign_id_twice_fails_with_duplicate_id() {
    let mut table = NodeTable::new();
    table.bind_path(0, &vec![0], Blueprint::Label);
    table.bind_path(0, &vec![1], Blueprint::Label);
    assert_eq!(table.assign_id(0, &vec![0], 7), Ok(1));
    assert_eq!(table.assign_id(0, &vec![1], 7), Err(ErrorKind::DuplicateId));
    assert_eq!(table.get(2).unwrap().id, None);
    assert_eq!(table.lookup_by_id(7).unwrap().handle, 1);
}

#[test]
fn assigned_id_does_not_change() {
    let mut table = NodeTable::new();
    table.bind_path(0, &vec![0], Blueprint::Label);
    assert_eq!(table.assign_id(0, &vec![0], 7), Ok(1));
    assert_eq!(table.assign_id(0, &vec![0], 7), Ok(1));
    assert_eq!(table.assign_id(0, &vec![0], 8), Err(ErrorKind::DuplicateId));
    assert_eq!(table.get(1).unwrap().id, Some(7));
    assert_eq!(table.lookup_by_id(8).unwrap_err(), ErrorKind::UnboundId);
}

#[test]
fn root_id_is_taken() {
    let mut table = NodeTable::new();
    table.bind_path(0, &vec![0], Blueprint::Label);
    assert_eq!(table.assign_id(0, &vec![0], ROOT_ID), Err(ErrorKind::DuplicateId));
    assert_eq!(table.create(ROOT_ID, Blueprint::View), Err(ErrorKind::DuplicateId));
}

#[test]
fn text_slot_addresses_its_text_bearing_parent() {
    let mut table = NodeTable::new();
    table.bind_path(0, &vec![0], Blueprint::View);
    table.bind_path(0, &vec![0, 2], Blueprint::Label);
    assert_eq!(table.lookup_by_path(0, &vec![0, 2, 0]).unwrap().handle, 2);
    assert_eq!(table.lookup_by_path(0, &vec![0, 2, 5]).unwrap().handle, 2);
    assert_eq!(table.lookup_by_path(0, &vec![0, 2]).unwrap().handle, 2);
    assert_eq!(table.assign_id(0, &vec![0, 2, 0], 4), Ok(2));
    assert_eq!(table.lookup_by_id(4).unwrap().path, vec![0, 2]);
}

#[test]
fn container_does_not_stand_for_what_is_below_it() {
    let mut table = NodeTable::new();
    table.bind_path(0, &vec![0], Blueprint::View);
    assert_eq!(table.lookup_by_path(0, &vec![0, 3]).unwrap_err(), ErrorKind::UnknownPath);
    assert_eq!(table.lookup_by_path(0, &vec![0, 3, 1]).unwrap_err(), ErrorKind::UnknownPath);
    assert_eq!(table.handle_at(0, &vec![0, 3]), None);
}

#[test]
fn record_at_the_path_wins_over_the_parent() {
    let mut table = NodeTable::new();
    table.bind_path(0, &vec![0], Blueprint::Label);
    table.bind_path(0, &vec![0, 0], Blueprint::Button);
    assert_eq!(table.lookup_by_path(0, &vec![0, 0]).unwrap().handle, 2);
    assert_eq!(table.handle_at(0, &vec![0, 1]), None);
    assert_eq!(table.lookup_by_path(0, &vec![0, 1]).unwrap().handle, 1);
}

#[test]
fn create_binds_a_new_record_to_its_id() {
    let mut table = NodeTable::new();
    assert_eq!(table.create(5, Blueprint::Label), Ok(1));
    assert_eq!(table.create(6, Blueprint::View), Ok(2));
    assert_eq!(table.create(5, Blueprint::View), Err(ErrorKind::DuplicateId));
    assert_eq!(table.slot_count(), 3);
    let made = table.lookup_by_id(5).unwrap();
    assert_eq!(made.handle, 1);
    assert!(made.path.is_empty());
    assert_eq!(made.blueprint, Blueprint::Label);
}

#[test]
fn remove_erases_the_record_and_its_bindings() {
    let mut table = NodeTable::new();
    let mut events = EventRegistry::new();
    table.create(3, Blueprint::Button).unwrap();
    table.create(4, Blueprint::Button).unwrap();
    events.register(listener("click", 1, 3));
    events.register(listener("input", 1, 3));
    events.register(listener("click", 2, 4));
    assert_eq!(table.remove(3, &mut events), Ok(1));
    assert_eq!(table.lookup_by_id(3).unwrap_err(), ErrorKind::UnboundId);
    assert!(table.get(1).is_none());
    assert_eq!(events.len(), 1);
    assert_eq!(events.get(0).unwrap(), &listener("click", 2, 4));
    assert!(events.bindings_for(1).is_empty());
    assert_eq!(table.lookup_by_id(4).unwrap().handle, 2);
}

#[test]
fn remove_of_unbound_id_changes_nothing() {
    let mut table = NodeTable::new();
    let mut events = EventRegistry::new();
    table.create(3, Blueprint::Button).unwrap();
    events.register(listener("click", 1, 3));
    assert_eq!(table.remove(9, &mut events), Err(ErrorKind::UnboundId));
    assert_eq!(table.lookup_by_id(3).unwrap().handle, 1);
    assert_eq!(events.len(), 1);
}

#[test]
fn emptied_slot_is_taken_again() {
    let mut table = NodeTable::new();
    let mut events = EventRegistry::new();
    table.create(1, Blueprint::View).unwrap();
    table.create(2, Blueprint::View).unwrap();
    table.create(3, Blueprint::View).unwrap();
    assert_eq!(table.remove(2, &mut events), Ok(2));
    assert_eq!(table.remove(1, &mut events), Ok(1));
    assert_eq!(table.create(4, Blueprint::Label), Ok(1));
    assert_eq!(table.bind_path(0, &vec![0], Blueprint::Label), (2, true));
    assert_eq!(table.create(5, Blueprint::Label), Ok(4));
    assert_eq!(table.slot_count(), 5);
}

#[test]
fn slot_of_the_root_view_is_never_given_away() {
    let mut table = NodeTable::new();
    let mut events = EventRegistry::new();
    assert_eq!(table.remove(ROOT_ID, &mut events), Ok(ROOT_HANDLE));
    assert_eq!(table.lookup_by_id(ROOT_ID).unwrap_err(), ErrorKind::UnboundId);
    assert_eq!(table.create(8, Blueprint::View), Ok(1));
    assert!(table.get(ROOT_HANDLE).is_none());
}

#[test]
fn release_removes_a_record_without_id() {
    let mut table = NodeTable::new();
    let mut events = EventRegistry::new();
    table.bind_path(0, &vec![0], Blueprint::View);
    table.create(3, Blueprint::Button).unwrap();
    events.register(listener("click", 2, 3));
    events.register(listener("click", 1, 9));
    assert!(table.release(1, &mut events));
    assert!(table.get(1).is_none());
    assert_eq!(table.handle_at(0, &vec![0]), None);
    assert_eq!(events.len(), 1);
    assert_eq!(events.get(0).unwrap().handle, 2);
    assert!(table.release(2, &mut events));
    assert_eq!(table.lookup_by_id(3).unwrap_err(), ErrorKind::UnboundId);
    assert_eq!(events.len(), 0);
}

#[test]
fn release_of_an_empty_slot_changes_nothing() {
    let mut table = NodeTable::new();
    let mut events = EventRegistry::new();
    table.create(3, Blueprint::Button).unwrap();
    events.register(listener("click", 1, 3));
    events.register(listener("click", 7, 9));
    assert!(table.release(1, &mut events));
    assert!(!table.release(1, &mut events));
    assert!(!table.release(7, &mut events));
    assert_eq!(events.len(), 1);
    assert_eq!(table.slot_count(), 2);
}

#[test]
fn clear_leaves_only_the_root_view() {
    let mut table = NodeTable::new();
    table.bind_path(0, &vec![0], Blueprint::View);
    table.create(3, Blueprint::Button).unwrap();
    table.clear();
    assert_eq!(table.slot_count(), 1);
    assert_eq!(table.lookup_by_id(ROOT_ID).unwrap().handle, ROOT_HANDLE);
    assert_eq!(table.lookup_by_id(3).unwrap_err(), ErrorKind::UnboundId);
    assert_eq!(table.handle_at(0, &vec![0]), None);
}

#[test]
fn duplicate_is_a_copy_of_its_own() {
    let mut table = NodeTable::new();
    table.bind_path(0, &vec![0], Blueprint::View);
    table.create(3, Blueprint::Button).unwrap();
    let mut copy = table.duplicate();
    let mut events = EventRegistry::new();
    copy.remove(3, &mut events).unwrap();
    assert_eq!(copy.lookup_by_id(3).unwrap_err(), ErrorKind::UnboundId);
    assert_eq!(table.lookup_by_id(3).unwrap().handle, 2);
    assert_eq!(copy.handle_at(0, &vec![0]), Some(1));
    assert_eq!(copy.slot_count(), table.slot_count());
}

#[test]
fn paths_are_compared_whole() {
    assert!(same_path(&vec![], &vec![]));
    assert!(same_path(&vec![0, 1, 2], &vec![0, 1, 2]));
    assert!(!same_path(&vec![0, 1], &vec![0, 1, 2]));
    assert!(!same_path(&vec![0, 1, 2], &vec![0, 1, 3]));
    assert!(!same_path(&vec![1], &vec![]));
}
