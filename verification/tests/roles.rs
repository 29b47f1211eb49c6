use concord::json::JsonValue;
use concord::permissions_catalogue;
use concord::rest::roles::{moved_positions, RoleEdit, MAX_ROLE_NAME_CHARS};

#[test]
fn roles_an_empty_edit_is_not_sent() {
    assert!(RoleEdit::default().is_empty());
    assert!(!RoleEdit { hoist: Some(true), ..RoleEdit::default() }.is_empty());
}

#[test]
fn permissions_are_sent_as_a_string() {
    let every_permission = permissions_catalogue::all().iter().fold(0u64, |mask, permission| mask | permission.mask());
    let edit = RoleEdit { permissions: Some(every_permission), ..RoleEdit::default() };

    assert_eq!(edit.to_body().get("permissions"), Some(&JsonValue::Str(every_permission.to_string())));
    assert!(every_permission > (1u64 << 53), "the whole set must exceed what a JSON number holds, or this proves nothing");
}

#[test]
fn clearing_a_colour_sends_zero_rather_than_null() {
    let cleared = RoleEdit { color: Some(None), ..RoleEdit::default() };
    assert_eq!(cleared.to_body().get("color"), Some(&JsonValue::UInt(0)));

    let untouched = RoleEdit { name: Some("mods".to_owned()), ..RoleEdit::default() };
    assert!(untouched.to_body().get("color").is_none());
}

#[test]
fn roles_a_name_is_truncated_on_character_boundaries() {
    let edit = RoleEdit { name: Some("é".repeat(200)), ..RoleEdit::default() };

    let name = edit.to_body().get("name").unwrap().as_str().unwrap().to_owned();
    assert_eq!(name.chars().count(), MAX_ROLE_NAME_CHARS);
}

#[test]
fn moving_up_swaps_with_the_row_above() {
    let ordered = ['a', 'b', 'c'];
    assert_eq!(moved_positions(&ordered, 1, true), vec![('b', 0), ('a', 1)]);
}

#[test]
fn moving_down_swaps_with_the_row_below() {
    let ordered = ['a', 'b', 'c'];
    assert_eq!(moved_positions(&ordered, 1, false), vec![('c', 1), ('b', 2)]);
}

#[test]
fn only_the_two_rows_that_moved_are_sent() {
    let ordered = ['a', 'b', 'c', 'd', 'e'];
    assert_eq!(moved_positions(&ordered, 3, true).len(), 2);
}

#[test]
fn moving_off_either_end_sends_nothing() {
    let ordered = ['a', 'b', 'c'];
    assert!(moved_positions(&ordered, 0, true).is_empty());
    assert!(moved_positions(&ordered, 2, false).is_empty());
    assert!(moved_positions(&ordered, 9, true).is_empty());
}

#[test]
fn a_single_row_list_cannot_move() {
    let ordered = ['a'];
    assert!(moved_positions(&ordered, 0, true).is_empty());
    assert!(moved_positions(&ordered, 0, false).is_empty());
}

#[test]
fn up_then_down_returns_to_the_original_order() {
    let ordered = ['a', 'b', 'c', 'd'];
    let mut current = ordered.to_vec();
    for (id, position) in moved_positions(&current, 2, true) {
        let from = current.iter().position(|c| *c == id).expect("id is present");
        let item = current.remove(from);
        current.insert(position as usize, item);
    }
    assert_eq!(current, vec!['a', 'c', 'b', 'd']);

    for (id, position) in moved_positions(&current, 1, false) {
        let from = current.iter().position(|c| *c == id).expect("id is present");
        let item = current.remove(from);
        current.insert(position as usize, item);
    }
    assert_eq!(current, ordered.to_vec());
}
