use async_await_future::repository::InMemoryUserRepository;
use async_await_future::user_service::{AppConfig, AppState, UserService};
use async_await_future::users::{
    AppError, CreateUserRequest, UpdateUserRequest, UserRepository, UserResponse,
};

fn service() -> UserService<InMemoryUserRepository> {
    UserService::new(InMemoryUserRepository::new())
}

fn invalid(r: Result<impl Sized, AppError>) -> String {
    match r {
        Err(AppError::InvalidInput(m)) => m,
        _ => panic!("expected invalid input"),
    }
}

#[test]
fn seeded_user_is_found() {
    let s = service();
    let u = s.get_user_by_id(1).ok().unwrap();
    assert_eq!(u.name, "John Doe");
    assert_eq!(u.email, "john@example.com");
    assert!(matches!(s.get_user_by_id(2), Err(AppError::UserNotFound)));
    assert_eq!(s.list_users().ok().unwrap().len(), 1);
}

#[test]
fn create_user_validates_and_assigns_ids() {
    let mut s = service();
    let bad_name = CreateUserRequest { name: "   ".to_string(), email: "a@b".to_string() };
    assert_eq!(invalid(s.create_user(bad_name)), "Name cannot be empty");
    let bad_email = CreateUserRequest { name: "Ann".to_string(), email: "ann.example.com".to_string() };
    assert_eq!(invalid(s.create_user(bad_email)), "Invalid email format");
    let dup = CreateUserRequest { name: "Ann".to_string(), email: "john@example.com".to_string() };
    assert_eq!(invalid(s.create_user(dup)), "Email already exists");
    let ok = CreateUserRequest { name: "Ann".to_string(), email: "ann@example.com".to_string() };
    let u = s.create_user(ok).ok().unwrap();
    assert_eq!(u.id, 2);
    let ok2 = CreateUserRequest { name: "Bob".to_string(), email: "bob@example.com".to_string() };
    assert_eq!(s.create_user(ok2).ok().unwrap().id, 3);
    assert_eq!(s.list_users().ok().unwrap().len(), 3);
}

#[test]
fn update_user_changes_given_fields() {
    let mut s = service();
    let ann = CreateUserRequest { name: "Ann".to_string(), email: "ann@example.com".to_string() };
    s.create_user(ann).ok().unwrap();
    let req = UpdateUserRequest { name: Some("Johnny".to_string()), email: None };
    let u = s.update_user(1, req).ok().unwrap();
    assert_eq!(u.name, "Johnny");
    assert_eq!(u.email, "john@example.com");
    let clash = UpdateUserRequest { name: None, email: Some("ann@example.com".to_string()) };
    assert_eq!(invalid(s.update_user(1, clash)), "Email already exists");
    let same = UpdateUserRequest { name: None, email: Some("john@example.com".to_string()) };
    assert!(s.update_user(1, same).is_ok());
    let blank = UpdateUserRequest { name: Some("".to_string()), email: None };
    assert_eq!(invalid(s.update_user(1, blank)), "Name cannot be empty");
    let bad = UpdateUserRequest { name: None, email: Some("nope".to_string()) };
    assert_eq!(invalid(s.update_user(1, bad)), "Invalid email format");
    let missing = UpdateUserRequest { name: None, email: None };
    assert!(matches!(s.update_user(9, missing), Err(AppError::UserNotFound)));
}

#[test]
fn delete_user_removes_once() {
    let mut s = service();
    assert!(s.delete_user(1).is_ok());
    assert!(matches!(s.delete_user(1), Err(AppError::UserNotFound)));
    assert!(matches!(s.get_user_by_id(1), Err(AppError::UserNotFound)));
}

#[test]
fn repository_direct_use_and_response() {
    let repo = InMemoryUserRepository::new();
    let u = repo.find_by_id(1).ok().unwrap().unwrap();
    let resp = UserResponse::from(u);
    assert_eq!(resp.id, 1);
    assert_eq!(resp.name, "John Doe");
    assert!(repo.find_by_id(5).ok().unwrap().is_none());
}

#[test]
fn app_errors_and_config() {
    assert_eq!(AppError::UserNotFound.status_code(), 404);
    assert_eq!(AppError::InvalidInput("x".to_string()).status_code(), 400);
    assert_eq!(AppError::InternalServerError.status_code(), 500);
    assert_eq!(AppError::UserNotFound.message(), "Not found");
    assert_eq!(AppError::InternalServerError.message(), "Internal server error");
    assert_eq!(AppConfig::new().example_field, "example_value");
    assert_eq!(AppConfig::default().example_field, "example_value");
    let state = AppState::new();
    assert_eq!(state.config.example_field, "example_value");
    assert!(state.user_repository.find_by_id(1).ok().unwrap().is_some());
}
