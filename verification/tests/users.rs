use transactions_lib::models::{User, UserId};
use transactions_lib::repos::Repos;
use transactions_lib::users::UsersServiceImpl;

fn new_user() -> User {
    User {
        id: UserId(3),
        name: "fksjdlfkjsdlkfdlksf".to_string(),
        authentication_token: "fksjdlfkjsdlkfdlksf".to_string(),
    }
}

#[test]
fn test_create() {
    let mut repos = Repos::new();
    let users_service = UsersServiceImpl::new();
    let user = users_service.create_user(&mut repos, new_user());
    assert!(user.is_ok());
}

#[test]
fn test_get_by_auth_token() {
    let mut repos = Repos::new();
    let users_service = UsersServiceImpl::new();
    let user = users_service.create_user(&mut repos, new_user());
    assert!(user.is_ok());
    let user = users_service
        .find_user_by_authentication_token(&repos, user.unwrap().authentication_token)
        .unwrap();
    assert!(user.is_some());
    assert_eq!(user.unwrap().id, UserId(3));
}

#[test]
fn unknown_token_finds_nobody() {
    let mut repos = Repos::new();
    let users_service = UsersServiceImpl::new();
    users_service.create_user(&mut repos, new_user()).unwrap();
    assert!(users_service.find_user_by_authentication_token(&repos, "other".to_string()).unwrap().is_none());
}
