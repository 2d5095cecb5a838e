use openmusicgang::context::Context;
use openmusicgang::error::ErrorCode;
use openmusicgang::repository::{
    apply_update, authorize_owner, first_found, prepare_new_user, store_error, UserService,
    UserTable,
};
use openmusicgang::service::{UserFilter, UserUpdate};
use openmusicgang::user::{User, Validable};

fn new_user(name: &str, email: &str) -> User {
    let mut user = User::new();
    user.name = name.to_string();
    user.email = email.to_string();
    user.password = Some("password".to_string());
    user
}

#[test]
fn test_user_service() {
    let mut user_service = UserService::new();

    let mut user = User::new();

    user.name = "Bob Smith".to_string();
    user.email = "bob.smith@test.com".to_string();
    user.password = Some("password".to_string());

    // create a user.
    let res = user_service.create_user(&Context::background(), &mut user);
    if let Err(error) = res {
        panic!("{}", error.describe());
    }

    // retry the create user with the same email, should fail.
    let res = user_service.create_user(&Context::background(), &mut user);
    assert!(res.is_err());

    // find the user by id.
    let res = user_service.find_user_by_id(&Context::background(), 1);
    assert!(res.is_ok());
    let user = res.unwrap();
    assert_eq!(user.id, 1);
    assert_eq!(user.name, "Bob Smith");
    assert_eq!(user.email, "bob.smith@test.com");
    assert_eq!(user.password, Some("password".to_string()));

    // find the user by email.
    let res = user_service
        .find_user_by_email(&Context::background(), "bob.smith@test.com".to_string());
    assert!(res.is_ok());

    // find a user with a non-existent id, error should be ENOTFOUND.
    let res = user_service.find_user_by_id(&Context::background(), 2);
    assert!(res.is_err());

    let err = res.unwrap_err();
    assert_eq!(err.code, ErrorCode::ENOTFOUND);

    // find a user with a non-existent email, error should be ENOTFOUND.
    let res =
        user_service.find_user_by_email(&Context::background(), "another@test.com".to_string());
    assert!(res.is_err());

    let err = res.unwrap_err();
    assert_eq!(err.code, ErrorCode::ENOTFOUND);

    // update the user and check that the update was successful.
    let ctx = Context::with_user(Context::background(), user.clone());
    let mut update = UserUpdate::default();

    update.name = Some("Mark Smith".to_string());

    let res = user_service.update_user(&ctx, user.id, update);
    assert!(res.is_ok());

    let user = res.unwrap();
    assert_eq!(user.id, 1);
    assert_eq!(user.name, "Mark Smith");

    // delete the user and check that the delete was successful.
    let ctx = Context::with_user(Context::background(), user);
    let res = user_service.delete_user(&ctx, 1);
    assert!(res.is_ok());

    let res = user_service.find_user_by_id(&Context::background(), 1);
    assert!(res.is_err());

    let err = res.unwrap_err();
    assert_eq!(err.code, ErrorCode::ENOTFOUND);

    // create a new user, try to update but with another context, error should be EUNAUTHORIZED.
    let mut user = User::new();
    user.name = "John Smith".to_string();
    user.email = "john.smith@test.com".to_string();
    user.password = Some("password".to_string());

    let res = user_service.create_user(&Context::background(), &mut user);
    assert!(res.is_ok());

    let mut update = UserUpdate::default();
    update.name = Some("Mark Smith".to_string());

    let res = user_service.update_user(&Context::background(), user.id, update);
    assert!(res.is_err());

    let err = res.unwrap_err();
    assert_eq!(err.code, ErrorCode::EUNAUTHORIZED);

    // create a new user, try to delete but with another context, error should be EUNAUTHORIZED.
    let mut user = User::new();
    user.name = "Steve Smith".to_string();
    user.email = "steve.smith@test.com".to_string();
    user.password = Some("password".to_string());

    let res = user_service.create_user(&Context::background(), &mut user);
    assert!(res.is_ok());

    let res = user_service.delete_user(&Context::background(), user.id);
    assert!(res.is_err());

    let err = res.unwrap_err();
    assert_eq!(err.code, ErrorCode::EUNAUTHORIZED);
}

#[test]
fn created_user_is_found_unchanged() {
    let mut service = UserService::new();
    let mut user = new_user("Ann Lee", "ann@test.com");
    assert!(service.create_user(&Context::background(), &mut user).is_ok());
    assert_eq!(user.id, 1);
    let found = service.find_user_by_id(&Context::background(), user.id).unwrap();
    assert_eq!(found.name, "Ann Lee");
    assert_eq!(found.email, "ann@test.com");
    assert_eq!(found.password, Some("password".to_string()));
    assert!(found.id != 0);
    assert!(found.created_at <= found.updated_at);
    assert_eq!(found, user);

    let mut second = new_user("Ben Lee", "ben@test.com");
    second.password = None;
    assert!(service.create_user(&Context::background(), &mut second).is_ok());
    assert_eq!(second.id, 2);
    let found = service.find_user_by_id(&Context::background(), 2).unwrap();
    assert_eq!(found.password, None);
}

#[test]
fn duplicate_email_conflicts() {
    let mut service = UserService::new();
    let mut first = new_user("Ann Lee", "same@test.com");
    assert!(service.create_user(&Context::background(), &mut first).is_ok());
    let mut second = new_user("Other Name", "same@test.com");
    let err = service.create_user(&Context::background(), &mut second).unwrap_err();
    assert_eq!(err.code, ErrorCode::ECONFLICT);
    assert_eq!(second.id, 0);
    let found = service.find_user_by_id(&Context::background(), first.id).unwrap();
    assert_eq!(found.name, "Ann Lee");
    let (users, total) = service.find_users(&Context::background(), UserFilter::default()).unwrap();
    assert_eq!(total, 1);
    assert_eq!(users.len(), 1);
}

#[test]
fn invalid_users_are_refused() {
    let mut service = UserService::new();
    let mut no_name = new_user("", "a@test.com");
    assert_eq!(
        service.create_user(&Context::background(), &mut no_name).unwrap_err().code,
        ErrorCode::EINVALID
    );
    let mut no_email = new_user("Ann", "");
    assert_eq!(
        service.create_user(&Context::background(), &mut no_email).unwrap_err().code,
        ErrorCode::EINVALID
    );
    let mut empty_password = new_user("Ann", "a@test.com");
    empty_password.password = Some("".to_string());
    assert_eq!(
        service.create_user(&Context::background(), &mut empty_password).unwrap_err().code,
        ErrorCode::EINVALID
    );
    let (_, total) = service.find_users(&Context::background(), UserFilter::default()).unwrap();
    assert_eq!(total, 0);
}

#[test]
fn missing_keys_are_not_found() {
    let service = UserService::new();
    assert_eq!(
        service.find_user_by_id(&Context::background(), 1).unwrap_err().code,
        ErrorCode::ENOTFOUND
    );
    assert_eq!(
        service
            .find_user_by_email(&Context::background(), "nobody@test.com".to_string())
            .unwrap_err()
            .code,
        ErrorCode::ENOTFOUND
    );
}

#[test]
fn delete_needs_matching_identity() {
    let mut service = UserService::new();
    let mut owner = new_user("Ann Lee", "ann@test.com");
    service.create_user(&Context::background(), &mut owner).unwrap();
    let mut other = new_user("Ben Lee", "ben@test.com");
    service.create_user(&Context::background(), &mut other).unwrap();

    let ctx = Context::with_user(Context::background(), other.clone());
    let err = service.delete_user(&ctx, owner.id).unwrap_err();
    assert_eq!(err.code, ErrorCode::EUNAUTHORIZED);
    assert!(service.find_user_by_id(&Context::background(), owner.id).is_ok());

    let ctx = Context::with_user(Context::background(), owner.clone());
    assert!(service.delete_user(&ctx, owner.id).is_ok());
    assert_eq!(
        service.find_user_by_id(&Context::background(), owner.id).unwrap_err().code,
        ErrorCode::ENOTFOUND
    );
    assert_eq!(
        service.delete_user(&ctx, owner.id).unwrap_err().code,
        ErrorCode::ENOTFOUND
    );
    assert!(service.find_user_by_id(&Context::background(), other.id).is_ok());
}

#[test]
fn update_needs_matching_identity() {
    let mut service = UserService::new();
    let mut owner = new_user("Ann Lee", "ann@test.com");
    service.create_user(&Context::background(), &mut owner).unwrap();

    let update = UserUpdate { name: Some("X".to_string()) };
    let err = service.update_user(&Context::background(), owner.id, update.clone()).unwrap_err();
    assert_eq!(err.code, ErrorCode::EUNAUTHORIZED);
    let stored = service.find_user_by_id(&Context::background(), owner.id).unwrap();
    assert_eq!(stored.name, "Ann Lee");

    let ctx = Context::with_user(Context::background(), owner.clone());
    let updated = service.update_user(&ctx, owner.id, update).unwrap();
    assert_eq!(updated.name, "X");
    assert_eq!(updated.email, "ann@test.com");
    assert_eq!(updated.password, Some("password".to_string()));
    assert_eq!(updated.id, owner.id);
    assert_eq!(updated.created_at, owner.created_at);
    let stored = service.find_user_by_id(&Context::background(), owner.id).unwrap();
    assert_eq!(stored, updated);

    let err = service
        .update_user(&ctx, owner.id, UserUpdate { name: Some("".to_string()) })
        .unwrap_err();
    assert_eq!(err.code, ErrorCode::EINVALID);
    let stored = service.find_user_by_id(&Context::background(), owner.id).unwrap();
    assert_eq!(stored.name, "X");

    let unchanged = service.update_user(&ctx, owner.id, UserUpdate::default()).unwrap();
    assert_eq!(unchanged.name, "X");

    let err = service.update_user(&ctx, 99, UserUpdate::default()).unwrap_err();
    assert_eq!(err.code, ErrorCode::ENOTFOUND);
}

#[test]
fn find_users_filters_and_pages() {
    let mut service = UserService::new();
    let names = ["A", "B", "C", "D", "E"];
    for (i, name) in names.iter().enumerate() {
        let mut user = new_user(name, &format!("u{}@test.com", i));
        service.create_user(&Context::background(), &mut user).unwrap();
    }

    let (users, total) = service.find_users(&Context::background(), UserFilter::default()).unwrap();
    assert_eq!(total, 5);
    assert_eq!(users.iter().map(|u| u.id).collect::<Vec<_>>(), vec![1, 2, 3, 4, 5]);

    let filter = UserFilter { limit: 2, offset: 1, ..UserFilter::default() };
    let (users, total) = service.find_users(&Context::background(), filter).unwrap();
    assert_eq!(total, 5);
    assert_eq!(users.iter().map(|u| u.id).collect::<Vec<_>>(), vec![2, 3]);

    let filter = UserFilter { offset: 4, ..UserFilter::default() };
    let (users, _) = service.find_users(&Context::background(), filter).unwrap();
    assert_eq!(users.iter().map(|u| u.id).collect::<Vec<_>>(), vec![5]);

    let filter = UserFilter { offset: 9, ..UserFilter::default() };
    let (users, total) = service.find_users(&Context::background(), filter).unwrap();
    assert!(users.is_empty());
    assert_eq!(total, 5);

    let filter = UserFilter { name: Some("C".to_string()), ..UserFilter::default() };
    let (users, total) = service.find_users(&Context::background(), filter).unwrap();
    assert_eq!(total, 1);
    assert_eq!(users[0].id, 3);

    let filter = UserFilter {
        id: Some(3),
        name: Some("D".to_string()),
        ..UserFilter::default()
    };
    let (users, total) = service.find_users(&Context::background(), filter).unwrap();
    assert_eq!(total, 0);
    assert!(users.is_empty());
}

#[test]
fn table_snapshot_and_select() {
    let table = UserTable::new();
    let copy = table.snapshot();
    let (users, total) = copy.select(&UserFilter::default());
    assert!(users.is_empty());
    assert_eq!(total, 0);
}

#[test]
fn decision_helpers() {
    let mut owner = new_user("Ann Lee", "ann@test.com");
    owner.id = 4;
    assert!(authorize_owner(&Context::background(), &owner).is_err());
    let ctx = Context::with_user(Context::background(), owner.clone());
    assert!(authorize_owner(&ctx, &owner).is_ok());

    assert_eq!(first_found(&Vec::new()).unwrap_err().code, ErrorCode::ENOTFOUND);
    assert_eq!(first_found(&vec![owner.clone()]).unwrap(), owner);

    let mut fresh = new_user("Ann Lee", "ann@test.com");
    assert!(prepare_new_user(&mut fresh, 1234).is_ok());
    assert_eq!(fresh.created_at, 1234);
    assert_eq!(fresh.updated_at, 1234);
    let mut bad = new_user("", "ann@test.com");
    assert_eq!(prepare_new_user(&mut bad, 5).unwrap_err().code, ErrorCode::EINVALID);
    assert_eq!(bad.created_at, 5);

    let updated = apply_update(owner.clone(), UserUpdate { name: Some("Zed".to_string()) }, 77)
        .unwrap();
    assert_eq!(updated.name, "Zed");
    assert_eq!(updated.updated_at, 77);
    assert_eq!(updated.created_at, owner.created_at);
    assert_eq!(
        apply_update(owner, UserUpdate { name: Some("".to_string()) }, 1).unwrap_err().code,
        ErrorCode::EINVALID
    );

    let unsaved = new_user("Ann Lee", "ann@test.com");
    assert_eq!(
        apply_update(unsaved, UserUpdate::default(), 1).unwrap_err().code,
        ErrorCode::EINVALID
    );

    let e = store_error(true, "duplicate key".to_string());
    assert_eq!(e.code, ErrorCode::ECONFLICT);
    assert_eq!(e.message, "duplicate key");
    assert_eq!(store_error(false, "io".to_string()).code, ErrorCode::EINTERNAL);
}

#[test]
fn user_validation() {
    let user = new_user("Ann", "a@test.com");
    assert!(user.validate().is_ok());
    assert_eq!(User::new().validate().unwrap_err().message, "name is required");
    let mut no_email = new_user("Ann", "");
    no_email.password = None;
    assert_eq!(no_email.validate().unwrap_err().message, "email is required");
    let mut empty = new_user("Ann", "a@test.com");
    empty.password = Some(String::new());
    assert_eq!(
        empty.validate().unwrap_err().message,
        "password cannot be empty if provided"
    );
    assert_eq!(user.validate_stored().unwrap_err().message, "id is required");
    let mut stored = user.clone();
    stored.id = 3;
    assert!(stored.validate_stored().is_ok());
    stored.name = String::new();
    assert_eq!(stored.validate_stored().unwrap_err().code, ErrorCode::EINVALID);
    let fresh = User::new();
    assert_eq!(fresh.id, 0);
    assert_eq!(fresh.created_at, fresh.updated_at);
    assert_eq!(fresh.duplicate(), fresh);
}
