use transactions_lib::accounts::{AccountsServiceImpl, CreateAccount, UpdateAccount};
use transactions_lib::auth::AuthServiceImpl;
use transactions_lib::error::{ErrorContext, ErrorKind};
use transactions_lib::models::{AccountId, AccountKind, Currency, User, UserId};
use transactions_lib::repos::Repos;

fn create_account_service(repos: &mut Repos, token: &str, user_id: UserId) -> AccountsServiceImpl {
    repos.create_user(User { id: user_id, name: "user".to_string(), authentication_token: token.to_string() });
    AccountsServiceImpl::new(AuthServiceImpl::new())
}

fn new_account(id: u128, user_id: UserId, name: &str, currency: Currency) -> CreateAccount {
    CreateAccount { id: AccountId(id), user_id, currency, name: name.to_string() }
}

fn token() -> Option<String> {
    Some("token".to_string())
}

#[test]
fn test_account_create() {
    let mut repos = Repos::new();
    let user_id = UserId(7);
    let service = create_account_service(&mut repos, "token", user_id);
    let account = service.create_account(&mut repos, new_account(1, user_id, "test test test acc", Currency::Eth), "0xabc".to_string(), AccountId(5000 + 1));
    assert_eq!(account.id, AccountId(1));
    assert_eq!(account.kind, AccountKind::Cr);
    assert_eq!(account.name, Some("test test test acc".to_string()));
    // the debit side of the wallet is created at the same address
    let dr = repos.get_account_by_address(&"0xabc".to_string(), Currency::Eth, AccountKind::Dr).unwrap();
    assert_eq!(dr.user_id, user_id);
    assert_ne!(dr.id, account.id);
    assert_eq!(dr.id, AccountId(5001));
    assert!(repos.accounts_are_paired());
}

#[test]
fn test_account_get() {
    let mut repos = Repos::new();
    let user_id = UserId(7);
    let service = create_account_service(&mut repos, "token", user_id);
    let account = service.get_account(&repos, token(), AccountId(1));
    assert!(account.is_ok());
    assert!(account.unwrap().is_none());
}

#[test]
fn test_account_update() {
    let mut repos = Repos::new();
    let user_id = UserId(7);
    let service = create_account_service(&mut repos, "token", user_id);
    service.create_account(&mut repos, new_account(1, user_id, "test test test acc", Currency::Eth), "0xabc".to_string(), AccountId(5000 + 1));
    let payload = UpdateAccount { name: Some("test test test 2acc".to_string()), erc20_approved: None };
    let account = service.update_account(&mut repos, token(), AccountId(1), payload);
    assert!(account.is_ok());
    assert_eq!(account.unwrap().name, Some("test test test 2acc".to_string()));
    assert_eq!(repos.get_account(AccountId(1)).unwrap().name, Some("test test test 2acc".to_string()));
}

#[test]
fn test_account_delete() {
    let mut repos = Repos::new();
    let user_id = UserId(7);
    let service = create_account_service(&mut repos, "token", user_id);
    service.create_account(&mut repos, new_account(1, user_id, "test test test acc", Currency::Eth), "0xabc".to_string(), AccountId(5000 + 1));
    let account = service.delete_account(&mut repos, token(), AccountId(1));
    assert!(account.is_ok());
    assert!(repos.get_account(AccountId(1)).is_none());
}

#[test]
fn test_account_get_for_users() {
    let mut repos = Repos::new();
    let user_id = UserId(7);
    let service = create_account_service(&mut repos, "token", user_id);
    let account = service.get_accounts_for_user(&repos, token(), user_id, 0, 10);
    assert!(account.is_ok());
}

#[test]
fn accounts_test_account_get_balance() {
    let mut repos = Repos::new();
    let user_id = UserId(7);
    let service = create_account_service(&mut repos, "token", user_id);
    service.create_account(&mut repos, new_account(1, user_id, "test test test acc", Currency::Eth), "0xabc".to_string(), AccountId(5000 + 1));
    let account = service.get_account_balance(&repos, token(), AccountId(1));
    assert!(account.is_ok());
    assert_eq!(account.unwrap().balance.raw(), 0);
}

#[test]
fn test_account_get_balance_for_users() {
    let mut repos = Repos::new();
    let user_id = UserId(7);
    let service = create_account_service(&mut repos, "token", user_id);
    service.create_account(&mut repos, new_account(1, user_id, "test test test acc", Currency::Eth), "0xabc".to_string(), AccountId(5000 + 1));
    service.create_account(&mut repos, new_account(2, user_id, "test tвфвest test acc", Currency::Stq), "0xdef".to_string(), AccountId(5000 + 2));
    let balance = service.get_user_balance(&repos, token(), user_id);
    assert!(balance.is_ok());
    let balance = balance.unwrap();
    assert_eq!(balance.len(), 2);
}

#[test]
fn other_users_accounts_are_refused() {
    let mut repos = Repos::new();
    let owner = UserId(7);
    let service = create_account_service(&mut repos, "token", owner);
    repos.create_user(User { id: UserId(8), name: "other".to_string(), authentication_token: "other".to_string() });
    service.create_account(&mut repos, new_account(1, owner, "mine", Currency::Eth), "0xabc".to_string(), AccountId(5000 + 1));
    let err = service.get_account(&repos, Some("other".to_string()), AccountId(1)).unwrap_err();
    assert!(matches!(err.kind, ErrorKind::Unauthorized));
    assert_eq!(err.context, Some(ErrorContext::InvalidToken));
    let err = service
        .update_account(&mut repos, Some("other".to_string()), AccountId(1), UpdateAccount { name: Some("x".to_string()), erc20_approved: None })
        .unwrap_err();
    assert!(matches!(err.kind, ErrorKind::Unauthorized));
    assert_eq!(repos.get_account(AccountId(1)).unwrap().name, Some("mine".to_string()));
    assert!(service.delete_account(&mut repos, Some("other".to_string()), AccountId(1)).is_err());
    assert!(repos.get_account(AccountId(1)).is_some());
}

#[test]
fn missing_or_unknown_token_is_unauthorized() {
    let mut repos = Repos::new();
    let service = create_account_service(&mut repos, "token", UserId(7));
    let err = service.get_account(&repos, None, AccountId(1)).unwrap_err();
    assert!(matches!(err.kind, ErrorKind::Unauthorized));
    assert_eq!(err.context, None);
    let err = service.get_account(&repos, Some("nobody".to_string()), AccountId(1)).unwrap_err();
    assert!(matches!(err.kind, ErrorKind::Unauthorized));
    assert_eq!(err.context, Some(ErrorContext::NoAuthToken));
}

#[test]
fn accounts_are_paged() {
    let mut repos = Repos::new();
    let user_id = UserId(7);
    let service = create_account_service(&mut repos, "token", user_id);
    for i in 0..3u128 {
        service.create_account(&mut repos, new_account(10 + i, user_id, "acc", Currency::Eth), format!("0x{}", i), AccountId(5000 + 10 + i));
    }
    // six accounts: each wallet has its credit and debit side
    assert_eq!(service.get_accounts_for_user(&repos, token(), user_id, 0, 10).unwrap().len(), 6);
    let page = service.get_accounts_for_user(&repos, token(), user_id, 4, 10).unwrap();
    assert_eq!(page.len(), 2);
    assert_eq!(page[0].id, AccountId(12));
    assert_eq!(service.get_accounts_for_user(&repos, token(), user_id, 1, 2).unwrap().len(), 2);
    assert!(service.get_accounts_for_user(&repos, token(), user_id, -1, 2).is_err());
    assert!(service.get_accounts_for_user(&repos, token(), UserId(8), 0, 2).is_err());
}
