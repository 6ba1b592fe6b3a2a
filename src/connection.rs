use vstd::prelude::*;

verus! {

/// A connection that borrows its connection string.
pub struct DatabaseConnection<'a> {
    pool: &'a str,
}

/// A connection that owns its connection string.
pub struct DatabaseConnection2 {
    pool: String,
}

impl DatabaseConnection2 {
    pub closed spec fn pool(&self) -> Seq<char> {
        self.pool@
    }

    pub fn new(sql: String) -> (r: DatabaseConnection2)
        ensures
            r.pool() == sql@,
    {
        DatabaseConnection2 { pool: sql }
    }

    pub fn get_connection_str(&self) -> (r: &str)
        ensures
            r@ == self.pool(),
    {
        self.pool.as_str()
    }
}

impl<'a> DatabaseConnection<'a> {
    pub closed spec fn pool(&self) -> &'a str {
        self.pool
    }

    pub fn new(sql: &'a str) -> (r: DatabaseConnection<'a>)
        ensures
            r.pool() == sql,
    {
        DatabaseConnection { pool: sql }
    }

    pub fn get_connection_str(&self) -> (r: &str)
        ensures
            r == self.pool(),
    {
        self.pool
    }
}

/// The two strings with one space between them.
pub fn join_strings(str1: &str, str2: &str) -> (r: String)
    ensures
        r@ == str1@ + " "@ + str2@,
{
    let mut r = String::from_str(str1);
    r.append(" ");
    r.append(str2);
    r
}

/// The string with more bytes; the second one when they are equally long.
pub fn longest<'a>(x: &'a str, y: &'a str) -> (r: &'a str)
    ensures
        r == if x.len() > y.len() {
            x
        } else {
            y
        },
{
    if x.len() > y.len() {
        x
    } else {
        y
    }
}

/// Describes how a number compares with ten.
pub fn check_number(x: &i32) -> (r: &'static str)
    ensures
        *x > 10 ==> r@ == "Greater than 10"@,
        *x <= 10 ==> r@ == "10 or less"@,
{
    proof {
        reveal_strlit("Greater than 10");
        reveal_strlit("10 or less");
    }
    if *x > 10 {
        "Greater than 10"
    } else {
        "10 or less"
    }
}

/// The roles a user can have.
#[derive(Debug, Clone, Copy, PartialEq, Eq, Structural)]
pub enum Role {
    Admin,
    User,
}

/// The role that a name stands for: "admin" or "user".
pub fn map_role_as_enum(role_str: &str) -> (r: Option<Role>)
    ensures
        role_str@ == "admin"@ ==> r == Some(Role::Admin),
        role_str@ == "user"@ ==> r == Some(Role::User),
        role_str@ != "admin"@ && role_str@ != "user"@ ==> r is None,
{
    proof {
        reveal_strlit("admin");
        reveal_strlit("user");
        assert("user"@.len() != "admin"@.len());
    }
    let given = role_str.to_owned();
    if given == "admin".to_owned() {
        Some(Role::Admin)
    } else if given == "user".to_owned() {
        Some(Role::User)
    } else {
        None
    }
}

} // verus!
