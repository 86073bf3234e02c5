use one_kvm_ir::error::IrError;
use one_kvm_ir::store::{
    button_delete_result, group_remotes, remote_name_input, remote_write_error, remote_write_result, slot_plan,
    kvm_flags, slots_after, IrButtonRecord, IrRemoteRow,
};

fn button(id: i64, remote_id: i64, name: &str) -> IrButtonRecord {
    IrButtonRecord {
        id,
        remote_id,
        name: name.to_string(),
        proto: "nec".to_string(),
        scancode: Some(id),
        has_raw: false,
        carrier: 38000,
        slot: None,
    }
}

fn row(id: i64, name: &str, is_kvm: bool) -> IrRemoteRow {
    IrRemoteRow { id, name: name.to_string(), is_kvm }
}

#[test]
fn buttons_are_grouped_under_their_remotes_in_order() {
    let rows = vec![row(1, "tv", true), row(2, "amp", false), row(3, "empty", false)];
    let buttons = vec![button(10, 2, "vol+"), button(11, 1, "power"), button(12, 2, "vol-"), button(13, 9, "orphan")];
    let out = group_remotes(rows, buttons);
    assert_eq!(out.len(), 3);
    assert_eq!(out[0].id, 1);
    assert_eq!(out[0].name, "tv");
    assert!(out[0].is_kvm);
    assert_eq!(out[0].buttons.iter().map(|b| b.id).collect::<Vec<_>>(), vec![11]);
    assert_eq!(out[1].buttons.iter().map(|b| b.id).collect::<Vec<_>>(), vec![10, 12]);
    assert!(out[2].buttons.is_empty());
}

#[test]
fn duplicate_remote_ids_get_buttons_once() {
    let out = group_remotes(vec![row(1, "a", false), row(1, "b", false)], vec![button(5, 1, "x")]);
    assert_eq!(out[0].buttons.len(), 1);
    assert!(out[1].buttons.is_empty());
}

#[test]
fn remote_names_are_trimmed_and_required() {
    assert_eq!(remote_name_input("  Living room ").unwrap(), "Living room");
    match remote_name_input(" \n ") {
        Err(IrError::BadRequest(m)) => assert_eq!(m, "remote name must not be empty"),
        _ => panic!(),
    }
}

#[test]
fn writes_that_touch_nothing_are_not_found() {
    assert!(remote_write_result(1, 7).is_ok());
    match remote_write_result(0, 7) {
        Err(IrError::NotFound(m)) => assert_eq!(m, "IR remote 7 not found"),
        _ => panic!(),
    }
    match button_delete_result(0, -3) {
        Err(IrError::NotFound(m)) => assert_eq!(m, "IR button -3 not found"),
        _ => panic!(),
    }
    assert!(button_delete_result(2, 3).is_ok());
}

#[test]
fn insert_errors_distinguish_name_clashes() {
    match remote_write_error(true, "tv", "UNIQUE constraint failed".to_string()) {
        IrError::Conflict(m) => assert_eq!(m, "remote 'tv' already exists"),
        _ => panic!(),
    }
    match remote_write_error(false, "tv", "disk I/O error".to_string()) {
        IrError::Persistence(m) => assert_eq!(m, "disk I/O error"),
        _ => panic!(),
    }
}

#[test]
fn slot_rules() {
    match slot_plan(false, Some(1)) {
        Err(IrError::BadRequest(m)) => assert_eq!(m, "only the KVM-switch remote can bind slots"),
        _ => panic!(),
    }
    match slot_plan(true, Some(9)) {
        Err(IrError::BadRequest(m)) => assert_eq!(m, "slot must be between 1 and 8, got 9"),
        _ => panic!(),
    }
    match slot_plan(true, Some(0)) {
        Err(IrError::BadRequest(m)) => assert_eq!(m, "slot must be between 1 and 8, got 0"),
        _ => panic!(),
    }
    let p = slot_plan(true, Some(8)).unwrap();
    assert_eq!(p.clear_others, Some(8));
    assert_eq!(p.slot, Some(8));
    let p = slot_plan(true, None).unwrap();
    assert_eq!(p.clear_others, None);
    assert_eq!(p.slot, None);
    // Unbinding is allowed on any remote.
    let p = slot_plan(false, None).unwrap();
    assert_eq!(p.clear_others, None);
    assert_eq!(p.slot, None);
}

#[test]
fn kvm_flags_mark_exactly_one_remote() {
    let rows = vec![row(1, "tv", true), row(2, "amp", false), row(3, "box", false)];
    assert_eq!(kvm_flags(&rows, 2).unwrap(), vec![(1, false), (2, true), (3, false)]);
    match kvm_flags(&rows, 7) {
        Err(IrError::NotFound(m)) => assert_eq!(m, "IR remote 7 not found"),
        _ => panic!(),
    }
}

#[test]
fn binding_a_slot_takes_it_from_the_other_buttons() {
    let mut a = button(1, 5, "a");
    a.slot = Some(3);
    let b = button(2, 5, "b");
    let mut c = button(3, 6, "c");
    c.slot = Some(3);
    let bs = vec![a, b, c];
    let plan = slot_plan(true, Some(3)).unwrap();
    assert_eq!(slots_after(&bs, 2, &plan), vec![(1, None), (2, Some(3)), (3, Some(3))]);
    let unbind = slot_plan(false, None).unwrap();
    assert_eq!(slots_after(&bs, 1, &unbind), vec![(1, None), (2, None), (3, Some(3))]);
}
