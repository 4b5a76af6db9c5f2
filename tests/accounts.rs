use tierdrop::accounts::{
    check_new_password, check_new_user, check_setup, check_user_deletion, check_user_update,
    check_username, grants_from_form, is_admin_ticked, AccountError, CreateUserForm,
    PasswordChangeForm, SetupForm, UpdateUserForm, UsernameChangeForm,
};
use tierdrop::config::{Config, TextMap};
use tierdrop::permissions::{NetworkPermissions, User};

fn config_with(users: Vec<User>) -> Config {
    Config {
        username: None,
        password_hash: None,
        users,
        next_user_id: 10,
        zt_token: "SECRET-REDACTED".to_string(),
        zt_base_url: "http://localhost:9993".to_string(),
        member_names: TextMap::new(),
        rules_source: TextMap::new(),
    }
}

fn setup(username: &str, password: &str, confirm: &str, token: &str) -> SetupForm {
    SetupForm {
        username: username.to_string(),
        password: password.to_string(),
        password_confirm: confirm.to_string(),
        zt_token: token.to_string(),
    }
}

#[test]
fn setup_form_checks_in_order() {
    assert_eq!(check_setup(&setup("  ", "x", "y", "")), Err(AccountError::UsernameRequired));
    assert_eq!(check_setup(&setup("admin", "short", "short", "t")), Err(AccountError::PasswordTooShort));
    assert_eq!(check_setup(&setup("admin", "longenough", "different", "t")), Err(AccountError::PasswordMismatch));
    assert_eq!(check_setup(&setup("admin", "longenough", "longenough", " ")), Err(AccountError::TokenRequired));
    assert_eq!(
        check_setup(&setup(" admin ", "longenough", "longenough", " tok ")),
        Ok(("admin".to_string(), "tok".to_string()))
    );
}

#[test]
fn new_password_checks() {
    let form = |n: &str, c: &str| PasswordChangeForm {
        current_password: "old".to_string(),
        new_password: n.to_string(),
        confirm_password: c.to_string(),
    };
    assert_eq!(check_new_password(&form("abc", "abd")), Err(AccountError::PasswordMismatch));
    assert_eq!(check_new_password(&form("abc", "abc")), Err(AccountError::PasswordTooShort));
    assert_eq!(check_new_password(&form("abcd", "abcd")), Ok(()));
}

#[test]
fn username_changes() {
    let c = config_with(vec![
        User::new(1, "alice".to_string(), "h".to_string(), true, 0),
        User::new(2, "bob".to_string(), "h".to_string(), false, 0),
    ]);
    let form = |n: &str| UsernameChangeForm { new_username: n.to_string() };
    assert_eq!(check_username(&c, 2, &form("  ")), Err(AccountError::UsernameRequired));
    assert_eq!(check_username(&c, 2, &form("alice")), Err(AccountError::UsernameTaken));
    assert_eq!(check_username(&c, 2, &form(" bob ")), Ok("bob".to_string()));
    assert_eq!(check_username(&c, 2, &form("carol")), Ok("carol".to_string()));
}

#[test]
fn new_user_checks() {
    let c = config_with(vec![User::new(1, "alice".to_string(), "h".to_string(), true, 0)]);
    let form = |u: &str, p: &str| CreateUserForm {
        username: u.to_string(),
        password: p.to_string(),
        is_admin: None,
    };
    assert_eq!(check_new_user(&c, &form("", "pass")), Err(AccountError::UsernameRequired));
    assert_eq!(check_new_user(&c, &form("bob", "abc")), Err(AccountError::PasswordTooShort));
    assert_eq!(check_new_user(&c, &form("alice", "abcd")), Err(AccountError::UsernameTaken));
    assert_eq!(check_new_user(&c, &form(" bob", "abcd")), Ok("bob".to_string()));
}

#[test]
fn user_update_checks() {
    let c = config_with(vec![
        User::new(1, "alice".to_string(), "h".to_string(), true, 0),
        User::new(2, "bob".to_string(), "h".to_string(), false, 0),
    ]);
    let form = |u: &str, p: &str, admin: Option<&str>| UpdateUserForm {
        username: u.to_string(),
        password: p.to_string(),
        is_admin: admin.map(|a| a.to_string()),
        permissions: TextMap::new(),
    };
    assert!(matches!(check_user_update(&c, 2, &form(" ", "", None)), Err(AccountError::UsernameRequired)));
    assert!(matches!(check_user_update(&c, 2, &form("alice", "", None)), Err(AccountError::UsernameTaken)));
    assert!(matches!(check_user_update(&c, 2, &form("bob", "abc", None)), Err(AccountError::PasswordTooShort)));
    let u = check_user_update(&c, 2, &form(" robert ", "", Some("true"))).unwrap();
    assert_eq!(u.username, "robert");
    assert_eq!(u.password, None);
    assert!(u.is_admin);
    let u = check_user_update(&c, 2, &form("bob", "secret", Some("on"))).unwrap();
    assert_eq!(u.password, Some("secret".to_string()));
    assert!(!u.is_admin);
    assert!(is_admin_ticked(&Some("true".to_string())));
    assert!(!is_admin_ticked(&None));
}

#[test]
fn deletion_checks() {
    let c = config_with(vec![
        User::new(1, "alice".to_string(), "h".to_string(), true, 0),
        User::new(2, "bob".to_string(), "h".to_string(), false, 0),
    ]);
    assert_eq!(check_user_deletion(&c, 1, 1), Err(AccountError::CannotDeleteSelf));
    assert_eq!(check_user_deletion(&c, 2, 1), Err(AccountError::LastAdmin));
    assert_eq!(check_user_deletion(&c, 1, 2), Ok(()));
    assert_eq!(check_user_deletion(&c, 1, 99), Ok(()));
}

#[test]
fn error_messages() {
    assert_eq!(AccountError::PasswordMismatch.message(), "Passwords do not match.");
    assert_eq!(AccountError::LastAdmin.message(), "Cannot delete the last admin user.");
}

#[test]
fn grants_follow_ticked_fields() {
    let mut fields = TextMap::new();
    fields.insert("perm_net1_read".to_string(), "on".to_string());
    fields.insert("perm_net1_modify".to_string(), "on".to_string());
    fields.insert("username".to_string(), "bob".to_string());
    let networks = vec!["net1".to_string(), "net2".to_string()];
    let g = grants_from_form(&networks, &fields);
    assert_eq!(g.len(), 1);
    assert_eq!(g[0].nwid, "net1");
    assert_eq!(
        g[0].permissions,
        NetworkPermissions { read: true, authorize: false, modify: true, delete: false }
    );
}
