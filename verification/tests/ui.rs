use gvls::crypto::{check_password, hash_password};
use gvls::models::{Permission, Vni, Vtep};
use gvls::ui::accounts::{AccountCreation, PasswordChange};
use gvls::ui::context::Context;
use gvls::ui::db::{get_vni_id2vni, get_vtep_id2name, AccountDbRow, IdName, IdVni, RrDbRow, VniDbRow, VtepDbRow};
use gvls::ui::requests::{create_vtep_secrets, new_vni_record, new_vtep_record, vtep_name_for, VtepSecrets};
use gvls::ui::updates::{VniUpdate, VtepUpdate};

fn ctx() -> Context {
    Context::new("u".to_string(), "p".to_string(), "192.0.2.9".to_string(), "5432".to_string(), "gvls".to_string())
}

fn account_row(id: i32, mail: &str, password: &str, perm: i32) -> AccountDbRow {
    AccountDbRow { id, mail_addr: mail.to_string(), password: password.to_string(), perm, vni_ids: vec![], vtep_ids: vec![] }
}

/// An administrator (id 1) and a free account (id 2).
fn base() -> Context {
    let mut c = ctx();
    let admin = hash_password("admin-pw").unwrap();
    let user = hash_password("user-pw").unwrap();
    c.restore_accounts(&vec![account_row(1, "admin@example.org", &admin, 1), account_row(2, "user@example.org", &user, 2)], &vec![], &vec![])
        .unwrap();
    c
}

fn vtep(id: i32, name: &str, owner: i32) -> Vtep {
    Vtep {
        id,
        name: name.to_string(),
        description: String::new(),
        password: "h".to_string(),
        bgp_pass: "b".to_string(),
        account_id: owner,
        vnis: vec![],
        ipv6_addr: None,
        last_update: None,
    }
}

fn vni(n: i32, owner: i32) -> Vni {
    Vni { id: n, vni: n, description: String::new(), account_id: owner, vteps: vec![] }
}

fn sorted<T: Ord + Clone>(v: &[T]) -> Vec<T> {
    let mut w = v.to_vec();
    w.sort();
    w
}

#[test]
fn connection_text() {
    assert_eq!(ctx().conn_str(), "user=u password=p dbname=gvls hostaddr=192.0.2.9 port=5432");
}

#[test]
fn vtep_names_are_padded() {
    assert_eq!(vtep_name_for(1), "gv0001");
    assert_eq!(vtep_name_for(12345), "gv12345");
    assert_eq!(vtep_name_for(-3), "gv-003");
}

#[test]
fn sign_in() {
    let c = base();
    assert_eq!(c.auth_account("admin@example.org", "admin-pw").account_id, Ok(1));
    assert_eq!(c.auth_account("admin@example.org", "nope").account_id, Err("Auth failed".to_string()));
    assert_eq!(c.auth_account("who@example.org", "admin-pw").account_id, Err("Auth failed".to_string()));
    assert_eq!(c.get_account_by_id(2).account.unwrap().mail_addr, "user@example.org");
    assert!(c.get_account_by_id(3).account.is_none());
}

#[test]
fn account_creation_rules() {
    let c = base();
    assert_eq!(c.create_account_check(9, "a@b", "pw", 2), Err("Account not found".to_string()));
    assert_eq!(c.create_account_check(2, "a@b", "pw", 2), Err("Permission denied".to_string()));
    assert_eq!(c.create_account_check(1, "  ", "pw", 2), Err("Mail address and password are required".to_string()));
    assert_eq!(c.create_account_check(1, "a@b", "", 2), Err("Mail address and password are required".to_string()));
    assert_eq!(c.create_account_check(1, "user@example.org", "pw", 2), Err("Account already exists".to_string()));
    assert_eq!(c.create_account_check(1, "a@b", "pw", 7), Err("Unknown permission".to_string()));
    assert_eq!(c.create_account_check(1, "a@b", "pw", 3), Ok(Permission::Pro));
}

#[test]
fn resource_limits() {
    let mut c = base();
    assert_eq!(c.create_vni_check(2, None), Ok(2));
    c.create_vni_apply(vni(100, 2));
    assert_eq!(c.create_vni_check(2, None), Err("Free account can own at most 1 VNI(s)".to_string()));
    assert_eq!(c.create_vni_check(1, Some(2)), Err("Free account can own at most 1 VNI(s)".to_string()));
    assert_eq!(c.create_vni_check(1, None), Ok(1));
    assert_eq!(c.create_vtep_check(2, None, ""), Err("VTEP password is required".to_string()));
    for (i, n) in ["gv0001", "gv0002", "gv0003"].iter().enumerate() {
        assert_eq!(c.create_vtep_check(2, None, "pw"), Ok(2));
        c.create_vtep_apply(vtep(i as i32 + 1, n, 2));
    }
    assert_eq!(c.create_vtep_check(2, None, "pw"), Err("Free account can own at most 3 VTEP(s)".to_string()));
    assert_eq!(c.create_vtep_check(2, Some(1), "pw"), Err("Free account can own at most 3 VTEP(s)".to_string()));
    assert_eq!(c.create_vtep_check(1, Some(1), "pw"), Ok(1));
    assert_eq!(c.create_vtep_check(1, Some(9), "pw"), Err("Owner account not found".to_string()));
}

#[test]
fn joining_a_vni_is_recorded_on_both_sides() {
    let mut c = base();
    c.create_vni_apply(vni(100, 2));
    c.create_vtep_apply(vtep(1, "gv0001", 2));
    match c.update_vtep_vnis(2, "gv0001", "desc", &vec![100]) {
        VtepUpdate::Updated { vtep, vnis, added, removed, description_changed } => {
            assert_eq!(vtep.vnis, vec![100]);
            assert_eq!(vtep.description, "desc");
            assert_eq!(added, vec![100]);
            assert!(removed.is_empty());
            assert!(description_changed);
            assert_eq!(vnis.len(), 1);
            assert_eq!(vnis[0].vteps, vec!["gv0001".to_string()]);
        }
        _ => panic!("expected an update"),
    }
    assert_eq!(c.vnis[0].vteps, vec!["gv0001".to_string()]);
    assert!(matches!(c.update_vtep_vnis(2, "gv0001", "desc", &vec![100]), VtepUpdate::Unchanged));
    match c.update_vni_vteps(2, 100, "desc", &vec![]) {
        VniUpdate::Updated { removed, .. } => assert_eq!(removed, vec!["gv0001".to_string()]),
        _ => panic!("expected an update"),
    }
    assert!(c.vteps[0].vnis.is_empty());
    assert!(c.vnis[0].vteps.is_empty());
}

#[test]
fn update_refusals() {
    let mut c = base();
    c.create_vni_apply(vni(100, 1));
    c.create_vtep_apply(vtep(1, "gv0001", 2));
    match c.update_vtep_vnis(2, "gv0009", "", &vec![]) {
        VtepUpdate::Rejected(e) => assert_eq!(e, "VTEP not found"),
        _ => panic!(),
    }
    match c.update_vtep_vnis(2, "gv0001", "", &vec![101]) {
        VtepUpdate::Rejected(e) => assert_eq!(e, "VNI 101 not found"),
        _ => panic!(),
    }
    match c.update_vni_vteps(2, 100, "", &vec![]) {
        VniUpdate::Rejected(e) => assert_eq!(e, "Permission denied"),
        _ => panic!(),
    }
}

#[test]
fn deleting_a_vtep_leaves_its_vnis_and_owner() {
    let mut c = base();
    c.create_vni_apply(vni(100, 2));
    c.create_vtep_apply(vtep(1, "gv0001", 2));
    c.update_vtep_vnis(2, "gv0001", "", &vec![100]);
    assert_eq!(c.delete_vtep(1, "gv0002").err().unwrap(), "VTEP not found");
    let d = c.delete_vtep(2, "gv0001").ok().unwrap();
    assert!(d.vtep.vnis.is_empty());
    assert_eq!(d.vnis.len(), 1);
    assert!(d.vnis[0].vteps.is_empty());
    assert!(d.owner.unwrap().vteps.is_empty());
    assert!(c.vteps.is_empty());
    let d = c.delete_vni(1, 100).ok().unwrap();
    assert_eq!(d.vni.vni, 100);
    assert!(c.vnis.is_empty());
}

#[test]
fn password_change() {
    let mut c = base();
    match c.change_password(2, "wrong", "new-pw") {
        PasswordChange::Rejected(_) => {}
        _ => panic!("expected a refusal"),
    }
    match c.change_password(2, "user-pw", "new-pw") {
        PasswordChange::Changed(Some(a)) => assert_eq!(a.id, 2),
        _ => panic!("expected a change"),
    }
    assert_eq!(c.auth_account("user@example.org", "new-pw").account_id, Ok(2));
    assert_eq!(c.auth_account("user@example.org", "user-pw").account_id, Err("Auth failed".to_string()));
}

#[test]
fn id_maps_keep_the_last_row() {
    let m = get_vtep_id2name(vec![
        IdName { id: 1, name: "a".to_string() },
        IdName { id: 2, name: "b".to_string() },
        IdName { id: 1, name: "c".to_string() },
    ]);
    assert_eq!(m.len(), 2);
    assert_eq!(m.iter().find(|x| x.id == 1).unwrap().name, "c");
    let n = get_vni_id2vni(vec![IdVni { id: 5, vni: 50 }, IdVni { id: 5, vni: 55 }]);
    assert_eq!(n.len(), 1);
    assert_eq!(n[0].vni, 55);
}

#[test]
fn restore_from_rows() {
    let id2name = vec![IdName { id: 10, name: "gv0010".to_string() }];
    let id2vni = vec![IdVni { id: 20, vni: 200 }];
    let mut c = ctx();
    let rows = vec![AccountDbRow {
        id: 1,
        mail_addr: "a@b".to_string(),
        password: "h".to_string(),
        perm: 3,
        vni_ids: vec![20, 21, 20],
        vtep_ids: vec![10, 99],
    }];
    assert_eq!(c.restore_accounts(&rows, &id2name, &id2vni), Ok(()));
    assert_eq!(c.accounts.len(), 1);
    assert_eq!(c.accounts[0].perm, Permission::Pro);
    assert_eq!(c.accounts[0].vnis, vec![200]);
    assert_eq!(c.accounts[0].vteps, vec!["gv0010".to_string()]);
    c.restore_rrs(&vec![RrDbRow { id: 1, name: "rr1".to_string(), password: "h".to_string() }]);
    assert_eq!(c.rrs[0].name, "rr1");
    assert!(c.rrs[0].ipv4_addr.is_none());
    c.restore_vteps(
        &vec![VtepDbRow {
            id: 10,
            name: "gv0010".to_string(),
            description: "d".to_string(),
            password: "h".to_string(),
            bgp_pass: "b".to_string(),
            account_id: 1,
            vni_ids: vec![20],
        }],
        &id2vni,
    );
    assert_eq!(c.vteps[0].vnis, vec![200]);
    c.restore_vnis(&vec![VniDbRow { id: 20, vni: 200, description: String::new(), account_id: 1, vtep_ids: vec![10] }], &id2name);
    assert_eq!(c.vnis[0].vteps, vec!["gv0010".to_string()]);
    assert_eq!(c.vni_numbers_to_ids(&vec![200]), Ok(vec![20]));
    assert_eq!(c.vni_numbers_to_ids(&vec![201]), Err("VNI 201 not found".to_string()));
    assert_eq!(c.vtep_names_to_ids(&vec!["gv0010".to_string()]), Ok(vec![10]));
    assert_eq!(c.vtep_names_to_ids(&vec!["x".to_string()]), Err("VTEP x not found".to_string()));
}

#[test]
fn restore_stops_at_an_unknown_permission() {
    let mut c = ctx();
    let rows = vec![account_row(1, "a@b", "h", 1), account_row(2, "c@d", "h", 9), account_row(3, "e@f", "h", 2)];
    assert_eq!(c.restore_accounts(&rows, &vec![], &vec![]), Err("Unknown permission".to_string()));
    assert_eq!(c.accounts.len(), 1);
    assert_eq!(c.accounts[0].mail_addr, "a@b");
}

#[test]
fn a_later_row_replaces_an_earlier_one_with_the_same_mail() {
    let mut c = ctx();
    let rows = vec![account_row(1, "a@b", "h", 1), account_row(5, "a@b", "h2", 2)];
    c.restore_accounts(&rows, &vec![], &vec![]).unwrap();
    assert_eq!(c.accounts.len(), 1);
    assert_eq!(c.accounts[0].id, 5);
    assert_eq!(c.accounts[0].perm, Permission::Free);
}

#[test]
fn ids_are_sorted() {
    let mut c = ctx();
    c.create_vni_apply(Vni { id: 30, vni: 3, description: String::new(), account_id: 1, vteps: vec![] });
    c.create_vni_apply(Vni { id: 10, vni: 1, description: String::new(), account_id: 1, vteps: vec![] });
    let ids = c.vni_numbers_to_ids(&vec![3, 1]).unwrap();
    assert_eq!(ids, sorted(&[10, 30]));
}

#[test]
fn a_created_account_signs_in_with_its_password() {
    let mut c = base();
    let hash = hash_password("fresh-pw").unwrap();
    c.create_account_apply(7, "new@example.org", hash, Permission::Pro);
    assert_eq!(c.auth_account("new@example.org", "fresh-pw").account_id, Ok(7));
    assert_eq!(c.auth_account("new@example.org", "other").account_id, Err("Auth failed".to_string()));
}

#[test]
fn ids_written_read_back_give_the_same_numbers_and_names() {
    let mut c = base();
    c.create_vni_apply(Vni { id: 41, vni: 100, description: String::new(), account_id: 1, vteps: vec![] });
    c.create_vni_apply(Vni { id: 42, vni: 200, description: String::new(), account_id: 1, vteps: vec![] });
    c.create_vtep_apply(vtep(51, "gv0051", 1));
    let vni_ids = c.vni_numbers_to_ids(&vec![200, 100]).unwrap();
    let vtep_ids = c.vtep_names_to_ids(&vec!["gv0051".to_string()]).unwrap();
    let id2vni = get_vni_id2vni(c.vnis.iter().map(|v| IdVni { id: v.id, vni: v.vni }).collect());
    let id2name = get_vtep_id2name(c.vteps.iter().map(|v| IdName { id: v.id, name: v.name.clone() }).collect());
    let mut d = ctx();
    let row = AccountDbRow {
        id: 9,
        mail_addr: "x@y".to_string(),
        password: "h".to_string(),
        perm: Context::permission_code(Permission::Free),
        vni_ids,
        vtep_ids,
    };
    d.restore_accounts(&vec![row], &id2name, &id2vni).unwrap();
    assert_eq!(sorted(&d.accounts[0].vnis), vec![100, 200]);
    assert_eq!(d.accounts[0].vteps, vec!["gv0051".to_string()]);
    assert_eq!(d.accounts[0].perm, Permission::Free);
}

#[test]
fn created_records_start_empty() {
    let secrets = VtepSecrets { name: "gv0007".to_string(), password: "h".to_string(), bgp_pass: "bp".to_string() };
    let v = new_vtep_record(7, secrets, "d".to_string(), 3);
    assert_eq!(v.id, 7);
    assert_eq!(v.name, "gv0007");
    assert_eq!(v.description, "d");
    assert_eq!(v.password, "h");
    assert_eq!(v.bgp_pass, "bp");
    assert_eq!(v.account_id, 3);
    assert!(v.vnis.is_empty());
    assert_eq!(v.ipv6_addr, None);
    assert_eq!(v.last_update, None);
    let n = new_vni_record(2, 100, "x".to_string(), 3);
    assert_eq!((n.id, n.vni, n.description.as_str(), n.account_id), (2, 100, "x", 3));
    assert!(n.vteps.is_empty());
}

#[test]
fn the_current_account_follows_the_session() {
    let c = base();
    assert!(c.current_account(None).is_none());
    assert_eq!(c.current_account(Some(1)).unwrap().mail_addr, "admin@example.org");
    assert_eq!(c.current_account(Some(2)).unwrap().mail_addr, "user@example.org");
    assert!(c.current_account(Some(3)).is_none());
}

#[test]
fn new_vtep_secrets() {
    let s = create_vtep_secrets(7, "vtep-pw").unwrap();
    assert_eq!(s.name, "gv0007");
    assert!(check_password("vtep-pw", &s.password));
    assert!(!check_password("other", &s.password));
    assert_ne!(s.password, "vtep-pw");
    assert_eq!(s.bgp_pass.len(), 9);
    assert!(s.bgp_pass.chars().all(|c| c.is_ascii_alphanumeric()));
    assert_eq!(create_vtep_secrets(12345, "x").unwrap().name, "gv12345");
}

#[test]
fn account_creation_is_prepared_with_a_hash() {
    let c = base();
    match c.create_account_prepare(1, "a@b", "new-pw", 3) {
        AccountCreation::Ready(p, h) => {
            assert_eq!(p, Permission::Pro);
            assert!(check_password("new-pw", &h));
        }
        _ => panic!("expected a prepared account"),
    }
    assert!(matches!(c.create_account_prepare(2, "a@b", "pw", 2), AccountCreation::Rejected(e) if e == "Permission denied"));
    assert!(matches!(c.create_account_prepare(1, "user@example.org", "pw", 2), AccountCreation::Rejected(e) if e == "Account already exists"));
}
