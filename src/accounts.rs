//! The checks on the account forms: first-run setup, password and username
//! changes, and user creation, update and deletion.
use vstd::prelude::*;
use crate::config::{Config, TextMap};
use crate::snapshot::lookup;
use crate::permissions::{NetworkGrant, NetworkPermissions, User, any_permission};
use crate::text::{strs_chars, trim_str, trimmed};

verus! {

/// Why an account form was refused.
#[derive(Debug, Clone, Copy, PartialEq, Eq, Structural)]
pub enum AccountError {
    UsernameRequired,
    PasswordTooShort,
    PasswordMismatch,
    TokenRequired,
    UsernameTaken,
    CannotDeleteSelf,
    LastAdmin,
}

impl AccountError {
    /// The message shown for the error.
    pub fn message(&self) -> (r: &'static str)
        ensures
            r@.len() > 0,
    {
        proof {
            reveal_strlit("Username is required.");
            reveal_strlit("Password is too short.");
            reveal_strlit("Passwords do not match.");
            reveal_strlit("ZeroTier auth token is required.");
            reveal_strlit("Username already taken.");
            reveal_strlit("Cannot delete your own account.");
            reveal_strlit("Cannot delete the last admin user.");
        }
        match self {
            AccountError::UsernameRequired => "Username is required.",
            AccountError::PasswordTooShort => "Password is too short.",
            AccountError::PasswordMismatch => "Passwords do not match.",
            AccountError::TokenRequired => "ZeroTier auth token is required.",
            AccountError::UsernameTaken => "Username already taken.",
            AccountError::CannotDeleteSelf => "Cannot delete your own account.",
            AccountError::LastAdmin => "Cannot delete the last admin user.",
        }
    }
}

/// The first-run form: the administrator's account and the controller token.
pub struct SetupForm {
    pub username: String,
    pub password: String,
    pub password_confirm: String,
    pub zt_token: String,
}

/// The byte length of a text, as `str::len` counts it.
pub open spec fn byte_len(s: Seq<char>) -> usize {
    vstd::utf8::encode_utf8(s).len() as usize
}

/// Checks the setup form in order: a username, a password of at least
/// eight bytes, the same password twice, a token. On success, the trimmed
/// username and token.
pub fn check_setup(form: &SetupForm) -> (r: Result<(String, String), AccountError>)
    ensures
        trimmed(form.username@).len() == 0 ==> r == Err::<(String, String), AccountError>(AccountError::UsernameRequired),
        trimmed(form.username@).len() > 0 && byte_len(form.password@) < 8 ==> r == Err::<(String, String), AccountError>(AccountError::PasswordTooShort),
        trimmed(form.username@).len() > 0 && byte_len(form.password@) >= 8
            && form.password@ != form.password_confirm@ ==> r == Err::<(String, String), AccountError>(AccountError::PasswordMismatch),
        trimmed(form.username@).len() > 0 && byte_len(form.password@) >= 8
            && form.password@ == form.password_confirm@ && trimmed(form.zt_token@).len() == 0 ==> r == Err::<(String, String), AccountError>(AccountError::TokenRequired),
        r is Ok <==> (trimmed(form.username@).len() > 0 && byte_len(form.password@) >= 8
            && form.password@ == form.password_confirm@ && trimmed(form.zt_token@).len() > 0),
        r matches Ok(v) ==> v.0@ == trimmed(form.username@) && v.1@ == trimmed(form.zt_token@),
{
    let username = trim_str(form.username.as_str());
    if username.unicode_len() == 0 {
        return Err(AccountError::UsernameRequired);
    }
    if form.password.as_str().len() < 8 {
        return Err(AccountError::PasswordTooShort);
    }
    if form.password != form.password_confirm {
        return Err(AccountError::PasswordMismatch);
    }
    let token = trim_str(form.zt_token.as_str());
    if token.unicode_len() == 0 {
        return Err(AccountError::TokenRequired);
    }
    Ok((String::from_str(username), String::from_str(token)))
}

/// The form that changes one's own password.
pub struct PasswordChangeForm {
    pub current_password: String,
    pub new_password: String,
    pub confirm_password: String,
}

/// Checks the new password of the form: the same twice, then at least
/// four bytes. The current password is checked against its hash by the
/// caller.
pub fn check_new_password(form: &PasswordChangeForm) -> (r: Result<(), AccountError>)
    ensures
        form.new_password@ != form.confirm_password@ ==> r == Err::<(), AccountError>(AccountError::PasswordMismatch),
        form.new_password@ == form.confirm_password@ && byte_len(form.new_password@) < 4 ==> r == Err::<(), AccountError>(AccountError::PasswordTooShort),
        r is Ok <==> (form.new_password@ == form.confirm_password@ && byte_len(form.new_password@) >= 4),
{
    if form.new_password != form.confirm_password {
        return Err(AccountError::PasswordMismatch);
    }
    if form.new_password.as_str().len() < 4 {
        return Err(AccountError::PasswordTooShort);
    }
    Ok(())
}

/// The form that changes one's own username.
pub struct UsernameChangeForm {
    pub new_username: String,
}

/// The form that creates a user; `is_admin` is `true` when ticked.
pub struct CreateUserForm {
    pub username: String,
    pub password: String,
    pub is_admin: Option<String>,
}

/// The form that updates a user; an empty password keeps the current one,
/// and `permissions` holds the names of the ticked permission fields.
pub struct UpdateUserForm {
    pub username: String,
    pub password: String,
    pub is_admin: Option<String>,
    pub permissions: TextMap,
}

/// Whether the administrator box of a user form is ticked.
pub open spec fn admin_ticked(o: Option<String>) -> bool {
    match o {
        Some(v) => v@ == "true"@,
        None => false,
    }
}

pub fn is_admin_ticked(o: &Option<String>) -> (r: bool)
    ensures
        r == admin_ticked(*o),
{
    match o {
        Some(v) => crate::text::str_eq(v.as_str(), "true"),
        None => false,
    }
}

/// Whether a user other than `user_id` already has the name `name`.
pub open spec fn taken_by_other(users: Seq<User>, name: Seq<char>, user_id: u64) -> bool {
    exists|i: int|
        0 <= i < users.len() && users[i].username@ == name && users[i].id != user_id && forall|j: int|
            0 <= j < i ==> users[j].username@ != name
}

/// Checks a new username for user `user_id`: not blank once trimmed, and
/// not the name of another user. On success, the trimmed name.
pub fn check_username(config: &Config, user_id: u64, form: &UsernameChangeForm) -> (r: Result<String, AccountError>)
    ensures
        trimmed(form.new_username@).len() == 0 ==> r == Err::<String, AccountError>(AccountError::UsernameRequired),
        trimmed(form.new_username@).len() > 0 && taken_by_other(config.users@, trimmed(form.new_username@), user_id)
            ==> r == Err::<String, AccountError>(AccountError::UsernameTaken),
        r is Ok <==> (trimmed(form.new_username@).len() > 0 && !taken_by_other(config.users@, trimmed(form.new_username@), user_id)),
        r matches Ok(n) ==> n@ == trimmed(form.new_username@),
{
    let new_username = form.new_username.as_str();
    let name = trim_str(new_username);
    if name.unicode_len() == 0 {
        return Err(AccountError::UsernameRequired);
    }
    match config.find_user_by_username(name) {
        Some(existing) => {
            if existing.id != user_id {
                return Err(AccountError::UsernameTaken);
            }
        },
        None => {},
    }
    Ok(String::from_str(name))
}

/// Checks the form that creates a user: a username, a password of at least
/// four bytes, and a name no user has yet. On success, the trimmed name.
pub fn check_new_user(config: &Config, form: &CreateUserForm) -> (r: Result<String, AccountError>)
    ensures
        trimmed(form.username@).len() == 0 ==> r == Err::<String, AccountError>(AccountError::UsernameRequired),
        trimmed(form.username@).len() > 0 && byte_len(form.password@) < 4 ==> r == Err::<String, AccountError>(AccountError::PasswordTooShort),
        r is Ok <==> (trimmed(form.username@).len() > 0 && byte_len(form.password@) >= 4 && forall|i: int|
            0 <= i < config.users@.len() ==> (#[trigger] config.users@[i]).username@ != trimmed(form.username@)),
        r matches Ok(n) ==> n@ == trimmed(form.username@),
{
    let password = form.password.as_str();
    let name = trim_str(form.username.as_str());
    if name.unicode_len() == 0 {
        return Err(AccountError::UsernameRequired);
    }
    if password.len() < 4 {
        return Err(AccountError::PasswordTooShort);
    }
    if config.find_user_by_username(name).is_some() {
        return Err(AccountError::UsernameTaken);
    }
    Ok(String::from_str(name))
}

/// The number of administrators.
pub open spec fn admin_count(users: Seq<User>) -> nat
    decreases users.len(),
{
    if users.len() == 0 {
        0
    } else {
        admin_count(users.drop_last()) + if users.last().is_admin { 1nat } else { 0nat }
    }
}

/// Whether the first user with id `id` is an administrator.
pub open spec fn first_with_id_is_admin(users: Seq<User>, id: u64) -> bool {
    exists|i: int|
        0 <= i < users.len() && users[i].id == id && users[i].is_admin && forall|j: int|
            0 <= j < i ==> users[j].id != id
}

/// Checks that `current_id` may delete user `target_id`: not itself, and
/// not the last administrator.
pub fn check_user_deletion(config: &Config, current_id: u64, target_id: u64) -> (r: Result<(), AccountError>)
    ensures
        target_id == current_id ==> r == Err::<(), AccountError>(AccountError::CannotDeleteSelf),
        target_id != current_id && first_with_id_is_admin(config.users@, target_id)
            && admin_count(config.users@) <= 1 ==> r == Err::<(), AccountError>(AccountError::LastAdmin),
        r is Ok <==> (target_id != current_id && !(first_with_id_is_admin(config.users@, target_id)
            && admin_count(config.users@) <= 1)),
{
    if target_id == current_id {
        return Err(AccountError::CannotDeleteSelf);
    }
    let target_is_admin = match config.find_user_by_id(target_id) {
        Some(u) => u.is_admin,
        None => false,
    };
    let ghost users = config.users@;
    let mut admins: usize = 0;
    let mut i: usize = 0;
    while i < config.users.len()
        invariant
            users == config.users@,
            i <= users.len(),
            admins == admin_count(users.take(i as int)),
            admins <= i,
        decreases users.len() - i,
    {
        proof {
            assert(users.take(i + 1).drop_last() =~= users.take(i as int));
        }
        if config.users[i].is_admin {
            admins = admins + 1;
        }
        i = i + 1;
    }
    proof {
        assert(users.take(users.len() as int) =~= users);
    }
    if target_is_admin && admins <= 1 {
        return Err(AccountError::LastAdmin);
    }
    Ok(())
}

/// The name of the form field that grants `what` on network `nwid`.
pub open spec fn perm_field(nwid: Seq<char>, what: Seq<char>) -> Seq<char> {
    "perm_"@ + nwid + "_"@ + what
}

/// The permissions the user form ticks for network `nwid`.
pub open spec fn ticked_permissions(fields: Seq<(Seq<char>, Seq<char>)>, nwid: Seq<char>) -> NetworkPermissions {
    NetworkPermissions {
        read: lookup(fields, perm_field(nwid, "read"@)) is Some,
        authorize: lookup(fields, perm_field(nwid, "authorize"@)) is Some,
        modify: lookup(fields, perm_field(nwid, "modify"@)) is Some,
        delete: lookup(fields, perm_field(nwid, "delete"@)) is Some,
    }
}

/// The grants the user form gives: for each network in turn, the ticked
/// permissions when at least one is ticked.
pub open spec fn form_grants(networks: Seq<Seq<char>>, fields: Seq<(Seq<char>, Seq<char>)>) -> Seq<(Seq<char>, NetworkPermissions)>
    decreases networks.len(),
{
    if networks.len() == 0 {
        Seq::empty()
    } else {
        let before = form_grants(networks.drop_last(), fields);
        let p = ticked_permissions(fields, networks.last());
        if any_permission(p) {
            before.push((networks.last(), p))
        } else {
            before
        }
    }
}

pub open spec fn grants_view(g: Seq<NetworkGrant>) -> Seq<(Seq<char>, NetworkPermissions)> {
    g.map_values(|x: NetworkGrant| (x.nwid@, x.permissions))
}

fn field_ticked(fields: &TextMap, nwid: &str, what: &str) -> (r: bool)
    ensures
        r == (lookup(fields@, perm_field(nwid@, what@)) is Some),
{
    let mut key = String::from_str("perm_");
    key.append(nwid);
    key.append("_");
    key.append(what);
    proof {
        reveal_strlit("perm_");
        reveal_strlit("_");
    }
    fields.get(key.as_str()).is_some()
}

/// The per-network grants of the user form, whose ticked fields are the
/// keys of `fields`, over the networks `networks` shown in it.
pub fn grants_from_form(networks: &Vec<String>, fields: &TextMap) -> (r: Vec<NetworkGrant>)
    ensures
        grants_view(r@) == form_grants(strs_chars(networks@), fields@),
{
    let ghost ns = strs_chars(networks@);
    let mut out: Vec<NetworkGrant> = Vec::new();
    let mut i: usize = 0;
    while i < networks.len()
        invariant
            ns == strs_chars(networks@),
            i <= networks@.len(),
            grants_view(out@) == form_grants(ns.take(i as int), fields@),
        decreases networks@.len() - i,
    {
        proof {
            assert(ns.take(i + 1).drop_last() =~= ns.take(i as int));
            assert(ns.take(i + 1).last() == networks@[i as int]@);
            reveal_strlit("read");
            reveal_strlit("authorize");
            reveal_strlit("modify");
            reveal_strlit("delete");
        }
        let nwid = networks[i].as_str();
        let p = NetworkPermissions {
            read: field_ticked(fields, nwid, "read"),
            authorize: field_ticked(fields, nwid, "authorize"),
            modify: field_ticked(fields, nwid, "modify"),
            delete: field_ticked(fields, nwid, "delete"),
        };
        if p.has_any() {
            let ghost before = out@;
            let g = NetworkGrant { nwid: networks[i].clone(), permissions: p };
            out.push(g);
            proof {
                assert(grants_view(out@) =~= grants_view(before).push((g.nwid@, p)));
            }
        }
        i = i + 1;
    }
    proof {
        assert(ns.take(networks@.len() as int) =~= ns);
    }
    out
}

/// What a valid user update sets: the trimmed name, the new password when
/// one was given, and the administrator flag.
#[derive(Debug)]
pub struct UserUpdate {
    pub username: String,
    pub password: Option<String>,
    pub is_admin: bool,
}

/// Checks the form that updates user `user_id`: a username that no other
/// user has, and a new password, when given, of at least four bytes.
pub fn check_user_update(config: &Config, user_id: u64, form: &UpdateUserForm) -> (r: Result<UserUpdate, AccountError>)
    ensures
        trimmed(form.username@).len() == 0 ==> r matches Err(AccountError::UsernameRequired),
        trimmed(form.username@).len() > 0 && taken_by_other(config.users@, trimmed(form.username@), user_id)
            ==> r matches Err(AccountError::UsernameTaken),
        trimmed(form.username@).len() > 0 && !taken_by_other(config.users@, trimmed(form.username@), user_id)
            && form.password@.len() > 0 && byte_len(form.password@) < 4 ==> r matches Err(AccountError::PasswordTooShort),
        r is Ok <==> (trimmed(form.username@).len() > 0 && !taken_by_other(config.users@, trimmed(form.username@), user_id)
            && (form.password@.len() == 0 || byte_len(form.password@) >= 4)),
        r matches Ok(u) ==> u.username@ == trimmed(form.username@) && u.is_admin == admin_ticked(form.is_admin)
            && (form.password@.len() == 0 ==> u.password is None)
            && (form.password@.len() > 0 ==> (u.password matches Some(p) && p@ == form.password@)),
{
    let username = match check_username(config, user_id, &UsernameChangeForm { new_username: form.username.clone() }) {
        Ok(n) => n,
        Err(e) => return Err(e),
    };
    let password = if form.password.as_str().is_empty() {
        None
    } else {
        if form.password.as_str().len() < 4 {
            return Err(AccountError::PasswordTooShort);
        }
        Some(form.password.clone())
    };
    Ok(UserUpdate { username, password, is_admin: is_admin_ticked(&form.is_admin) })
}

} // verus!
