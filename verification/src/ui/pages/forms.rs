//! What the forms of the pages decide before and after a request.
use vstd::prelude::*;
use crate::text::{owned, str_eq};

verus! {

/// A missing form field is empty.
pub open spec fn text_or_empty(o: Option<String>) -> Seq<char> {
    match o {
        Some(s) => s@,
        None => seq![],
    }
}

pub fn or_empty(o: Option<String>) -> (r: String)
    ensures
        r@ == text_or_empty(o),
{
    match o {
        Some(s) => s,
        None => String::new(),
    }
}

/// Where a page goes after a request: back to itself on success, or it is
/// shown again with the message.
pub enum PageOutcome {
    Redirect(String),
    Render(String),
}

/// The outcome of a request answered `ok` with `message`, on the page at `path`.
pub fn op_outcome(ok: bool, message: String, path: &str) -> (r: PageOutcome)
    ensures
        ok ==> (r matches PageOutcome::Redirect(p) && p@ == path@),
        !ok ==> (r matches PageOutcome::Render(m) && m@ == message@),
{
    if ok {
        PageOutcome::Redirect(owned(path))
    } else {
        PageOutcome::Render(message)
    }
}

/// The setting form: the new password must be typed twice alike.
pub fn setting_check(input: &SettingInput) -> (r: Result<(), String>)
    ensures
        match r {
            Ok(()) => input.new_password@ == input.new_password_confirm@,
            Err(m) => input.new_password@ != input.new_password_confirm@ && m@ == "New passwords do not match"@,
        },
{
    if !str_eq(input.new_password.as_str(), input.new_password_confirm.as_str()) {
        return Err(owned("New passwords do not match"));
    }
    Ok(())
}

/// The name of the session cookie.
pub fn cookie_name() -> (r: String)
    ensures
        r@ == "SESSION"@,
{
    owned("SESSION")
}

/// The `Set-Cookie` value for a stored session.
pub fn session_cookie(value: &str) -> (r: String)
    ensures
        r@ == "SESSION="@ + value@ + "; SameSite=Lax; HttpOnly; Path=/"@,
{
    let mut s = owned("SESSION=");
    s.push_str(value);
    s.push_str("; SameSite=Lax; HttpOnly; Path=/");
    s
}

/// Where a failed sign-in goes.
pub fn signin_failed_path() -> (r: String)
    ensures
        r@ == "/signin?error=Authentication%20failed"@,
{
    owned("/signin?error=Authentication%20failed")
}


pub open spec fn int_or(o: Option<i32>, d: i32) -> i32 {
    match o {
        Some(x) => x,
        None => d,
    }
}

/// A missing list is empty.
pub open spec fn list_or_empty<T>(o: Option<Vec<T>>) -> Seq<T> {
    match o {
        Some(v) => v@,
        None => seq![],
    }
}

pub open spec fn texts_or_empty(o: Option<Vec<String>>) -> Seq<Seq<char>> {
    match o {
        Some(v) => Seq::new(v@.len(), |i: int| v@[i]@),
        None => seq![],
    }
}

/// What a form on the VTEP page asks for.
pub enum VtepsAction {
    Create { owner_account_id: Option<i32>, description: String, password: String },
    Update { vtep_name: String, description: String, vnis: Vec<i32> },
    Delete { vtep_name: String },
    Unknown,
}

pub enum VtepsActionView {
    Create { owner_account_id: Option<i32>, description: Seq<char>, password: Seq<char> },
    Update { vtep_name: Seq<char>, description: Seq<char>, vnis: Seq<i32> },
    Delete { vtep_name: Seq<char> },
    Unknown,
}

impl View for VtepsAction {
    type V = VtepsActionView;

    open spec fn view(&self) -> VtepsActionView {
        match self {
            VtepsAction::Create { owner_account_id, description, password } => VtepsActionView::Create {
                owner_account_id: *owner_account_id,
                description: description@,
                password: password@,
            },
            VtepsAction::Update { vtep_name, description, vnis } => VtepsActionView::Update {
                vtep_name: vtep_name@,
                description: description@,
                vnis: vnis@,
            },
            VtepsAction::Delete { vtep_name } => VtepsActionView::Delete { vtep_name: vtep_name@ },
            VtepsAction::Unknown => VtepsActionView::Unknown,
        }
    }
}

/// The request of the VTEP form: `create`, `update` (its VNIs and
/// description), `delete`; missing fields are empty.
pub open spec fn vteps_action_of(
    action: Seq<char>,
    owner_account_id: Option<i32>,
    description: Seq<char>,
    password: Seq<char>,
    vtep_name: Seq<char>,
    vnis: Seq<i32>,
) -> VtepsActionView {
    if action == "create"@ {
        VtepsActionView::Create { owner_account_id, description, password }
    } else if action == "update"@ {
        VtepsActionView::Update { vtep_name, description, vnis }
    } else if action == "delete"@ {
        VtepsActionView::Delete { vtep_name }
    } else {
        VtepsActionView::Unknown
    }
}

fn ints_or_empty(o: Option<Vec<i32>>) -> (r: Vec<i32>)
    ensures
        r@ == list_or_empty(o),
{
    match o {
        Some(v) => v,
        None => Vec::new(),
    }
}

/// The fields of the VTEP form.
pub struct VtepInput {
    pub action: String,
    pub owner_account_id: Option<i32>,
    pub description: Option<String>,
    pub password: Option<String>,
    pub vtep_name: Option<String>,
    pub vnis: Option<Vec<i32>>,
}

/// The request of the VTEP form (see `vteps_action_of`).
pub fn vteps_action(input: VtepInput) -> (r: VtepsAction)
    ensures
        r@ == vteps_action_of(
            input.action@,
            input.owner_account_id,
            text_or_empty(input.description),
            text_or_empty(input.password),
            text_or_empty(input.vtep_name),
            list_or_empty(input.vnis),
        ),
{
    let action = input.action.as_str();
    if str_eq(action, "create") {
        VtepsAction::Create {
            owner_account_id: input.owner_account_id,
            description: or_empty(input.description),
            password: or_empty(input.password),
        }
    } else if str_eq(action, "update") {
        VtepsAction::Update {
            vtep_name: or_empty(input.vtep_name),
            description: or_empty(input.description),
            vnis: ints_or_empty(input.vnis),
        }
    } else if str_eq(action, "delete") {
        VtepsAction::Delete { vtep_name: or_empty(input.vtep_name) }
    } else {
        VtepsAction::Unknown
    }
}

/// What a form on the VNI page asks for.
pub enum VnisAction {
    Create { owner_account_id: Option<i32>, description: String },
    Update { vni: i32, description: String, vteps: Vec<String> },
    Delete { vni: i32 },
    Unknown,
}

pub enum VnisActionView {
    Create { owner_account_id: Option<i32>, description: Seq<char> },
    Update { vni: i32, description: Seq<char>, vteps: Seq<Seq<char>> },
    Delete { vni: i32 },
    Unknown,
}

impl View for VnisAction {
    type V = VnisActionView;

    open spec fn view(&self) -> VnisActionView {
        match self {
            VnisAction::Create { owner_account_id, description } => VnisActionView::Create {
                owner_account_id: *owner_account_id,
                description: description@,
            },
            VnisAction::Update { vni, description, vteps } => VnisActionView::Update {
                vni: *vni,
                description: description@,
                vteps: Seq::new(vteps@.len(), |i: int| vteps@[i]@),
            },
            VnisAction::Delete { vni } => VnisActionView::Delete { vni: *vni },
            VnisAction::Unknown => VnisActionView::Unknown,
        }
    }
}

/// The request of the VNI form: `create`, `update` (its VTEPs and
/// description), `delete`; a missing VNI number is 0, other fields empty.
pub open spec fn vnis_action_of(
    action: Seq<char>,
    owner_account_id: Option<i32>,
    description: Seq<char>,
    vni_value: Option<i32>,
    vteps: Seq<Seq<char>>,
) -> VnisActionView {
    if action == "create"@ {
        VnisActionView::Create { owner_account_id, description }
    } else if action == "update"@ {
        VnisActionView::Update { vni: int_or(vni_value, 0), description, vteps }
    } else if action == "delete"@ {
        VnisActionView::Delete { vni: int_or(vni_value, 0) }
    } else {
        VnisActionView::Unknown
    }
}

/// The fields of the VNI form.
pub struct VniInput {
    pub action: String,
    pub owner_account_id: Option<i32>,
    pub description: Option<String>,
    pub vni_value: Option<i32>,
    pub vteps: Option<Vec<String>>,
}

/// The request of the VNI form (see `vnis_action_of`).
pub fn vnis_action(input: VniInput) -> (r: VnisAction)
    ensures
        r@ == vnis_action_of(input.action@, input.owner_account_id, text_or_empty(input.description), input.vni_value, texts_or_empty(input.vteps)),
{
    let ghost vteps0 = input.vteps;
    let vni = match input.vni_value {
        Some(x) => x,
        None => 0,
    };
    let action = input.action.as_str();
    if str_eq(action, "create") {
        VnisAction::Create { owner_account_id: input.owner_account_id, description: or_empty(input.description) }
    } else if str_eq(action, "update") {
        let vs = match input.vteps {
            Some(v) => v,
            None => Vec::new(),
        };
        let r = VnisAction::Update { vni, description: or_empty(input.description), vteps: vs };
        assert(texts_or_empty(vteps0) =~= Seq::new(vs@.len(), |i: int| vs@[i]@));
        r
    } else if str_eq(action, "delete") {
        VnisAction::Delete { vni }
    } else {
        VnisAction::Unknown
    }
}

/// The fields of the setting form.
pub struct SettingInput {
    pub current_password: String,
    pub new_password: String,
    pub new_password_confirm: String,
}

/// The fields of the sign-in form.
pub struct SigninInput {
    pub mail_addr: String,
    pub password: String,
}

/// The query of the sign-in page: an error to show.
pub struct SigninQuery {
    pub error: Option<String>,
}

/// The error the sign-in page shows: none when the query has none.
pub fn signin_error(query: SigninQuery) -> (r: String)
    ensures
        r@ == text_or_empty(query.error),
{
    or_empty(query.error)
}

/// The session of a signed-in visitor.
pub struct AppSession {
    pub account_id: i32,
}

/// Where a visitor without a session is sent.
pub struct AuthRedirect;

impl AuthRedirect {
    pub fn target(&self) -> (r: String)
        ensures
            r@ == "/signin"@,
    {
        owned("/signin")
    }
}

} // verus!
