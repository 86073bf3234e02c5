use one_kvm_ir::api::{
    button_insert, export_button, export_disposition, export_filename, export_pack, find_remote, learn_request_name,
    pack_counts_fit, pack_header_check, send_request_check, update_request_check, ImportAction, IrButtonUpdateRequest, IrLearnRequest,
    IrPackButton, IrPackRemote, IrRemotePack, PackImport,
};
use one_kvm_ir::error::IrError;
use one_kvm_ir::store::{IrButtonRecord, IrRemoteRecord};

#[test]
fn learn_request_checks() {
    let req = IrLearnRequest { remote_id: 1, name: "  power ".into() };
    assert_eq!(learn_request_name(&req, true).unwrap(), "power");
    match learn_request_name(&req, false) {
        Err(IrError::BadRequest(m)) => assert_eq!(m, "IR remote is disabled"),
        _ => panic!(),
    }
    let blank = IrLearnRequest { remote_id: 1, name: " ".into() };
    match learn_request_name(&blank, false) {
        Err(IrError::BadRequest(m)) => assert_eq!(m, "button name must not be empty"),
        _ => panic!(),
    }
    assert!(send_request_check(true).is_ok());
    assert!(send_request_check(false).is_err());
}

#[test]
fn update_request_checks() {
    match update_request_check(&IrButtonUpdateRequest { name: None, slot: None }) {
        Err(IrError::BadRequest(m)) => assert_eq!(m, "nothing to update"),
        _ => panic!(),
    }
    match update_request_check(&IrButtonUpdateRequest { name: Some("\t".into()), slot: Some(None) }) {
        Err(IrError::BadRequest(m)) => assert_eq!(m, "button name must not be empty"),
        _ => panic!(),
    }
    assert!(update_request_check(&IrButtonUpdateRequest { name: None, slot: Some(None) }).is_ok());
    assert!(update_request_check(&IrButtonUpdateRequest { name: Some("x".into()), slot: None }).is_ok());
}

fn pack(format: &str, version: u32, remotes: Vec<IrPackRemote>) -> IrRemotePack {
    IrRemotePack { format: format.into(), version, remotes }
}

#[test]
fn pack_headers() {
    assert!(pack_header_check(&pack("one-kvm-ir-pack", 1, vec![])).is_ok());
    match pack_header_check(&pack("lirc", 1, vec![])) {
        Err(IrError::BadRequest(m)) => assert_eq!(m, "unsupported pack format 'lirc' (expected 'one-kvm-ir-pack')"),
        _ => panic!(),
    }
    match pack_header_check(&pack("one-kvm-ir-pack", 2, vec![])) {
        Err(IrError::BadRequest(m)) => assert_eq!(m, "unsupported pack version 2"),
        _ => panic!(),
    }
}

fn pbutton(name: &str, raw: Option<Vec<u32>>, carrier: Option<i64>) -> IrPackButton {
    IrPackButton { name: name.into(), protocol: " nec ".into(), scancode: Some(7), raw, carrier }
}

#[test]
fn imported_button_rows() {
    let ins = button_insert(3, &pbutton(" power ", Some(vec![9000, 4500]), None));
    assert_eq!(ins.remote_id, 3);
    assert_eq!(ins.name, "power");
    assert_eq!(ins.proto, "nec");
    assert_eq!(ins.scancode, Some(7));
    assert_eq!(ins.raw.as_deref(), Some("[9000,4500]"));
    assert_eq!(ins.carrier, 38000);
    let ins = button_insert(3, &pbutton("x", Some(vec![]), Some(36000)));
    assert_eq!(ins.raw.as_deref(), Some("[]"));
    assert_eq!(ins.carrier, 36000);
    assert_eq!(button_insert(3, &pbutton("x", None, None)).raw, None);
}

/// Runs an import against an in-memory library of (remote id, name) and
/// (remote id, button name) rows.
fn run_import(remotes: Vec<IrPackRemote>, existing_remotes: &mut Vec<(i64, String)>, buttons: &mut Vec<(i64, String)>) -> (u32, u32, u32, u32) {
    let mut imp = PackImport::new(remotes);
    let mut action = imp.start();
    loop {
        action = match action {
            ImportAction::LookupRemote(name) => {
                let found = existing_remotes.iter().find(|(_, n)| *n == name).map(|(id, _)| *id);
                imp.on_lookup(found)
            }
            ImportAction::CreateRemote(name) => {
                let id = existing_remotes.len() as i64 + 100;
                existing_remotes.push((id, name));
                imp.on_created(id)
            }
            ImportAction::CheckButton { remote_id, name } => {
                let exists = buttons.iter().any(|(r, n)| *r == remote_id && *n == name);
                imp.on_exists(exists)
            }
            ImportAction::InsertButton(ins) => {
                buttons.push((ins.remote_id, ins.name));
                imp.on_inserted()
            }
            ImportAction::Done(t) => return (t.remotes_imported, t.remotes_merged, t.buttons_imported, t.buttons_skipped),
        }
    }
}

#[test]
fn import_merges_creates_and_skips() {
    let mut existing = vec![(1, "tv".to_string())];
    let mut buttons = vec![(1, "power".to_string())];
    let pack_remotes = vec![
        IrPackRemote { name: " tv ".into(), buttons: vec![pbutton("power", None, None), pbutton("mute", None, None), pbutton("  ", None, None)] },
        IrPackRemote { name: "".into(), buttons: vec![pbutton("ignored", None, None)] },
        IrPackRemote { name: "amp".into(), buttons: vec![pbutton("vol+", None, None), pbutton("vol+", None, None)] },
        IrPackRemote { name: "amp".into(), buttons: vec![] },
    ];
    let counts = run_import(pack_remotes, &mut existing, &mut buttons);
    assert_eq!(counts, (1, 2, 2, 2));
    assert_eq!(existing, vec![(1, "tv".to_string()), (101, "amp".to_string())]);
    assert_eq!(
        buttons,
        vec![(1, "power".to_string()), (1, "mute".to_string()), (101, "vol+".to_string())]
    );
}

#[test]
fn empty_import() {
    let mut existing = vec![];
    let mut buttons = vec![];
    assert_eq!(run_import(vec![], &mut existing, &mut buttons), (0, 0, 0, 0));
}

fn record(id: i64, name: &str, buttons: Vec<IrButtonRecord>) -> IrRemoteRecord {
    IrRemoteRecord { id, name: name.into(), is_kvm: false, buttons }
}

fn stored(id: i64, name: &str) -> IrButtonRecord {
    IrButtonRecord { id, remote_id: 1, name: name.into(), proto: "nec".into(), scancode: Some(id), has_raw: true, carrier: 36000, slot: None }
}

#[test]
fn export_finds_the_remote() {
    let list = vec![record(1, "tv", vec![]), record(2, "amp", vec![]), record(2, "dup", vec![])];
    assert_eq!(find_remote(list, 2).unwrap().name, "amp");
    match find_remote(vec![record(1, "tv", vec![])], 5) {
        Err(IrError::NotFound(m)) => assert_eq!(m, "IR remote 5 not found"),
        _ => panic!(),
    }
}

#[test]
fn export_pack_carries_buttons_and_raw_data() {
    let remote = record(1, "Living Room/TV", vec![stored(1, "power"), stored(2, "mute"), stored(3, "vol")]);
    let pack = export_pack(&remote, vec![Some("[1,2,3]".into()), Some("not json".into())]);
    assert_eq!(pack.format, "one-kvm-ir-pack");
    assert_eq!(pack.version, 1);
    assert_eq!(pack.remotes.len(), 1);
    let r = &pack.remotes[0];
    assert_eq!(r.name, "Living Room/TV");
    assert_eq!(r.buttons.len(), 3);
    assert_eq!(r.buttons[0].raw, Some(vec![1, 2, 3]));
    assert_eq!(r.buttons[1].raw, None);
    assert_eq!(r.buttons[2].raw, None);
    assert_eq!(r.buttons[0].carrier, Some(36000));
    assert_eq!(r.buttons[0].protocol, "nec");
    assert_eq!(r.buttons[2].scancode, Some(3));
}

#[test]
fn raw_data_survives_import_then_export() {
    let v = vec![9000u32, 4500, 560, 1690, 4294967295, 0];
    let ins = button_insert(1, &pbutton("p", Some(v.clone()), None));
    let back = export_button(&stored(1, "p"), ins.raw);
    assert_eq!(back.raw, Some(v));
}

#[test]
fn export_file_names_are_safe() {
    assert_eq!(export_filename("Living Room/TV"), "Living_Room_TV.onekvm-ir.json");
    assert_eq!(export_filename("a-b_C9"), "a-b_C9.onekvm-ir.json");
    assert_eq!(export_filename("télé"), "t_l_.onekvm-ir.json");
    assert_eq!(export_disposition("tv 1"), "attachment; filename=\"tv_1.onekvm-ir.json\"");
}

#[test]
fn small_packs_fit_the_counters() {
    let b = IrPackButton { name: "a".into(), protocol: "nec".into(), scancode: Some(1), raw: None, carrier: None };
    let remotes = vec![
        IrPackRemote { name: "tv".into(), buttons: vec![b] },
        IrPackRemote { name: " ".into(), buttons: vec![] },
    ];
    assert!(pack_counts_fit(&remotes));
    assert!(pack_counts_fit(&Vec::new()));
}

fn reimport_pack() -> Vec<IrPackRemote> {
    vec![
        IrPackRemote { name: "tv".into(), buttons: vec![pbutton("power", None, None), pbutton("mute", None, None)] },
        IrPackRemote { name: " amp".into(), buttons: vec![pbutton("vol+", None, None)] },
    ]
}

#[test]
fn importing_twice_imports_nothing_the_second_time() {
    let mut existing = vec![(1, "tv".to_string())];
    let mut buttons = vec![(1, "power".to_string())];
    let first = run_import(reimport_pack(), &mut existing, &mut buttons);
    assert_eq!(first, (1, 1, 2, 1));
    let (rows_before, buttons_before) = (existing.clone(), buttons.clone());
    let second = run_import(reimport_pack(), &mut existing, &mut buttons);
    assert_eq!(second, (0, first.0 + first.1, 0, first.2 + first.3));
    assert_eq!(existing, rows_before);
    assert_eq!(buttons, buttons_before);
}

#[test]
fn try_new_accepts_ordinary_packs() {
    assert!(PackImport::try_new(reimport_pack()).is_ok());
    assert!(PackImport::try_new(vec![]).is_ok());
}
