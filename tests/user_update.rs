use academy_auth::access_token::Authentication;
use academy_auth::auth::hash_refresh_token;
use academy_auth::ids::{SessionId, UserId};
use academy_auth::user_service::{
    plan_user_update, NewsletterAction, PasswordUpdate, PatchValue, UserAccount, UserUpdateError,
    UserUpdateRequest,
};

fn auth(id: u128, admin: bool) -> Authentication {
    Authentication {
        user_id: UserId(id),
        session_id: SessionId(1),
        refresh_token_hash: hash_refresh_token("t"),
        admin,
        email_verified: true,
    }
}

fn foo(email: Option<&str>) -> UserAccount {
    UserAccount {
        id: UserId(1),
        name: "foo".to_string(),
        email: email.map(|e| e.to_string()),
        email_verified: true,
        enabled: true,
        admin: false,
        newsletter: false,
    }
}

fn nothing() -> UserUpdateRequest {
    UserUpdateRequest {
        name: PatchValue::Unchanged,
        email: PatchValue::Unchanged,
        email_verified: PatchValue::Unchanged,
        password: PatchValue::Unchanged,
        enabled: PatchValue::Unchanged,
        admin: PatchValue::Unchanged,
        newsletter: PatchValue::Unchanged,
    }
}

#[test]
fn enable_self() {
    let req = UserUpdateRequest { newsletter: PatchValue::Update(true), ..nothing() };
    let plan = plan_user_update(&auth(1, false), &foo(Some("foo@example.com")), req).unwrap();
    match plan.newsletter {
        NewsletterAction::RequestSubscription(e) => assert_eq!(e, "foo@example.com"),
        other => panic!("unexpected {:?}", other),
    }
}

#[test]
fn enable_admin() {
    let req = UserUpdateRequest { newsletter: PatchValue::Update(true), ..nothing() };
    let plan = plan_user_update(&auth(2, true), &foo(Some("foo@example.com")), req).unwrap();
    assert!(matches!(plan.newsletter, NewsletterAction::SetFlag(true)));
}

#[test]
fn enable_self_no_email() {
    let req = UserUpdateRequest { newsletter: PatchValue::Update(true), ..nothing() };
    let r = plan_user_update(&auth(1, false), &foo(None), req);
    assert_eq!(r.unwrap_err(), UserUpdateError::NoEmail);
}

#[test]
fn disable_self() {
    let mut user = foo(Some("foo@example.com"));
    user.newsletter = true;
    let req = UserUpdateRequest { newsletter: PatchValue::Update(false), ..nothing() };
    let plan = plan_user_update(&auth(1, false), &user, req).unwrap();
    assert!(matches!(plan.newsletter, NewsletterAction::SetFlag(false)));
}

#[test]
fn unchanged_values_are_dropped() {
    let req = UserUpdateRequest {
        name: PatchValue::Update("foo".to_string()),
        email: PatchValue::Update("foo@example.com".to_string()),
        enabled: PatchValue::Update(true),
        newsletter: PatchValue::Update(false),
        ..nothing()
    };
    let plan = plan_user_update(&auth(1, false), &foo(Some("foo@example.com")), req).unwrap();
    assert!(plan.name.is_none() && plan.email.is_none() && plan.enabled.is_none());
    assert!(matches!(plan.newsletter, NewsletterAction::Keep));
    assert!(!plan.bypass_name_rate_limit);
}

#[test]
fn new_email_drops_verification() {
    let req = UserUpdateRequest { email: PatchValue::Update("new@example.com".to_string()), ..nothing() };
    let plan = plan_user_update(&auth(1, false), &foo(Some("foo@example.com")), req).unwrap();
    assert_eq!(plan.email, Some((Some("new@example.com".to_string()), false)));
}

#[test]
fn admin_only_flags() {
    let req = UserUpdateRequest { admin: PatchValue::Update(true), ..nothing() };
    assert_eq!(plan_user_update(&auth(1, false), &foo(None), req).unwrap_err(), UserUpdateError::Forbidden);
    let req = UserUpdateRequest { enabled: PatchValue::Update(false), ..nothing() };
    assert_eq!(plan_user_update(&auth(1, true), &foo(None), req).unwrap_err(), UserUpdateError::CannotDisableSelf);
    let req = UserUpdateRequest { admin: PatchValue::Update(true), ..nothing() };
    assert_eq!(plan_user_update(&auth(1, true), &foo(None), req).unwrap_err(), UserUpdateError::CannotDemoteSelf);
    let req = UserUpdateRequest { admin: PatchValue::Update(true), name: PatchValue::Update("x".to_string()), ..nothing() };
    let plan = plan_user_update(&auth(2, true), &foo(None), req).unwrap();
    assert_eq!(plan.admin, Some(true));
    assert_eq!(plan.name, Some("x".to_string()));
    assert!(plan.bypass_name_rate_limit);
}

#[test]
fn password_changes() {
    let req = UserUpdateRequest { password: PatchValue::Update(PasswordUpdate::Remove), ..nothing() };
    assert_eq!(plan_user_update(&auth(1, false), &foo(None), req).unwrap_err(), UserUpdateError::CannotRemovePassword);
    let req = UserUpdateRequest { password: PatchValue::Update(PasswordUpdate::Change("pw".to_string())), ..nothing() };
    assert_eq!(plan_user_update(&auth(1, false), &foo(None), req).unwrap().password, Some("pw".to_string()));
}
