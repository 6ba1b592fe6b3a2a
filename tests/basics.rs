use async_await_future::basics::{
    add, cal, divide, modulo, multiply, plus_100, subtract, check_grade, check_grade2, check_grade3, fibonacci, implicit_return_sum,
    mutate_number, sum, GradeResult,
};
use async_await_future::connection::{
    check_number, join_strings, longest, map_role_as_enum, DatabaseConnection,
    DatabaseConnection2, Role,
};
use async_await_future::person::{Person, Speaking};

#[test]
fn sums() {
    assert_eq!(add(10, 20), 30);
    assert_eq!(sum(50, 50), 100);
    assert_eq!(implicit_return_sum(20, 30), 50);
    assert_eq!(cal(10, 30, |a, b| a - b), -20);
    assert_eq!(cal(10, 30, |a, b| a % b), 10);
}

#[test]
fn mutate_number_adds_one() {
    let mut n = 5;
    mutate_number(&mut n);
    assert_eq!(n, 6);
}

#[test]
fn grades() {
    assert!(matches!(check_grade(-1), GradeResult::Error(e) if e == "Score must be between 0 and 100"));
    assert!(matches!(check_grade(90), GradeResult::Value(g) if g == "A"));
    assert_eq!(check_grade2(101), None);
    assert_eq!(check_grade2(0), Some("A".to_string()));
    assert_eq!(check_grade3(100), Ok("A".to_string()));
    assert_eq!(check_grade3(-5), Err("Score must be between 0 and 100".to_string()));
}

#[test]
fn fibonacci_values() {
    assert_eq!(fibonacci(0), 0);
    assert_eq!(fibonacci(1), 1);
    assert_eq!(fibonacci(10), 55);
    assert_eq!(fibonacci(50), 12586269025);
    assert_eq!(fibonacci(186), 332825110087067562321196029789634457848);
}

#[test]
fn person_speaks() {
    let p = Person::new("Alice".to_string(), 20);
    assert_eq!(p.get_name(), "Alice");
    assert_eq!(p.get_age(), 20);
    assert_eq!(p.speak(), "Alice says: Hello!");
}

#[test]
fn connections_and_strings() {
    let s = String::from("my_db_pool");
    let c = DatabaseConnection::new(s.as_str());
    assert_eq!(c.get_connection_str(), "my_db_pool");
    let c2 = DatabaseConnection2::new(s.clone());
    assert_eq!(c2.get_connection_str(), "my_db_pool");
    assert_eq!(join_strings("hello", "world"), "hello world");
    assert_eq!(longest("long string is long", "xyz"), "long string is long");
    assert_eq!(longest("ab", "cd"), "cd");
    assert_eq!(check_number(&20), "Greater than 10");
    assert_eq!(check_number(&10), "10 or less");
}

#[test]
fn roles() {
    assert_eq!(map_role_as_enum("admin"), Some(Role::Admin));
    assert_eq!(map_role_as_enum("user"), Some(Role::User));
    assert_eq!(map_role_as_enum("Admin"), None);
    assert_eq!(map_role_as_enum(""), None);
}

#[test]
fn arithmetic() {
    assert_eq!(plus_100(-5), 95);
    assert_eq!(subtract(3, 10), -7);
    assert_eq!(multiply(-6, 7), -42);
    assert_eq!(divide(7, 2), 3);
    assert_eq!(divide(-7, 2), -3);
    assert_eq!(divide(7, -2), -3);
    assert_eq!(divide(-7, -2), 3);
    assert_eq!(divide(i32::MIN, 1), i32::MIN);
    assert_eq!(modulo(7, 2), 1);
    assert_eq!(modulo(-7, 2), -1);
    assert_eq!(modulo(7, -2), 1);
    assert_eq!(modulo(-7, -2), -1);
    assert_eq!(modulo(i32::MIN, 3), i32::MIN % 3);
}
