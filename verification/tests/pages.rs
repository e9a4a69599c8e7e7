use gvls::models::{Account, Permission};
use gvls::ui::pages::accounts::{accounts_action, may_view, AccountsAction, AccountsInput};
use gvls::ui::pages::forms::{
    cookie_name, op_outcome, session_cookie, setting_check, signin_error, signin_failed_path, vnis_action, vteps_action,
    AuthRedirect, PageOutcome, SettingInput, SigninQuery, VniInput, VnisAction, VtepInput, VtepsAction,
};
use gvls::ui::pages::{authority_from_account, build_owners, owner_mail_addr, Authority};

fn account(id: i32, mail: &str, perm: Permission) -> Account {
    Account { id, mail_addr: mail.to_string(), password: String::new(), perm, vnis: vec![], vteps: vec![] }
}

#[test]
fn authority() {
    assert!(authority_from_account(None) == Authority::Anonymous);
    assert!(authority_from_account(Some(&account(1, "a", Permission::Admin))) == Authority::Admin);
    assert!(authority_from_account(Some(&account(1, "a", Permission::Pro))) == Authority::Pro);
    assert!(may_view(Authority::Admin));
    assert!(!may_view(Authority::Free));
}

#[test]
fn owners() {
    let accounts = vec![account(1, "a@x", Permission::Admin), account(2, "b@x", Permission::Free)];
    assert_eq!(owner_mail_addr(&accounts, 2), "b@x");
    assert_eq!(owner_mail_addr(&accounts, 3), "-");
    let o = build_owners(&accounts);
    assert_eq!(o.len(), 2);
    assert_eq!(o[1].id, 2);
    assert_eq!(o[1].mail_addr, "b@x");
}

#[test]
fn outcomes_and_cookies() {
    assert!(matches!(op_outcome(true, "m".to_string(), "/vteps"), PageOutcome::Redirect(p) if p == "/vteps"));
    assert!(matches!(op_outcome(false, "m".to_string(), "/vteps"), PageOutcome::Render(m) if m == "m"));
    assert_eq!(cookie_name(), "SESSION");
    assert_eq!(session_cookie("abc"), "SESSION=abc; SameSite=Lax; HttpOnly; Path=/");
    assert_eq!(signin_failed_path(), "/signin?error=Authentication%20failed");
    assert_eq!(AuthRedirect.target(), "/signin");
    assert_eq!(signin_error(SigninQuery { error: None }), "");
    assert_eq!(signin_error(SigninQuery { error: Some("x".to_string()) }), "x");
}

#[test]
fn setting_form() {
    let ok = SettingInput { current_password: "a".to_string(), new_password: "b".to_string(), new_password_confirm: "b".to_string() };
    assert_eq!(setting_check(&ok), Ok(()));
    let bad = SettingInput { current_password: "a".to_string(), new_password: "b".to_string(), new_password_confirm: "c".to_string() };
    assert_eq!(setting_check(&bad), Err("New passwords do not match".to_string()));
}

#[test]
fn account_form() {
    let a = accounts_action(AccountsInput { action: "create".to_string(), account_id: None, mail_addr: Some("m".to_string()), password: None, perm: None });
    assert!(matches!(a, AccountsAction::Create { ref mail_addr, ref password, perm_code: 2 } if mail_addr == "m" && password.is_empty()));
    let d = accounts_action(AccountsInput { action: "delete".to_string(), account_id: None, mail_addr: None, password: None, perm: None });
    assert!(matches!(d, AccountsAction::Delete { account_id: 0 }));
    let s = accounts_action(AccountsInput { action: "save".to_string(), account_id: Some(4), mail_addr: None, password: None, perm: Some(3) });
    assert!(matches!(s, AccountsAction::Save { account_id: 4, perm_code: 3 }));
    let u = accounts_action(AccountsInput { action: "x".to_string(), account_id: None, mail_addr: None, password: None, perm: None });
    assert!(matches!(u, AccountsAction::Unknown));
}

#[test]
fn vtep_and_vni_forms() {
    let v = vteps_action(VtepInput {
        action: "update".to_string(),
        owner_account_id: None,
        description: None,
        password: None,
        vtep_name: Some("gv0001".to_string()),
        vnis: None,
    });
    assert!(matches!(v, VtepsAction::Update { ref vtep_name, ref description, ref vnis } if vtep_name == "gv0001" && description.is_empty() && vnis.is_empty()));
    let c = vteps_action(VtepInput {
        action: "create".to_string(),
        owner_account_id: Some(2),
        description: Some("d".to_string()),
        password: Some("p".to_string()),
        vtep_name: None,
        vnis: None,
    });
    assert!(matches!(c, VtepsAction::Create { owner_account_id: Some(2), .. }));
    let n = vnis_action(VniInput { action: "delete".to_string(), owner_account_id: None, description: None, vni_value: Some(7), vteps: None });
    assert!(matches!(n, VnisAction::Delete { vni: 7 }));
    let n = vnis_action(VniInput { action: "delete".to_string(), owner_account_id: None, description: None, vni_value: None, vteps: None });
    assert!(matches!(n, VnisAction::Delete { vni: 0 }));
}
