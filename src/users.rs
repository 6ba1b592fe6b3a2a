use vstd::prelude::*;

verus! {

/// A stored user.
pub struct User {
    pub id: u32,
    pub name: String,
    pub email: String,
}

/// What a user is, apart from the id: name and email.
pub open spec fn record(u: User) -> (Seq<char>, Seq<char>) {
    (u.name@, u.email@)
}

impl Clone for User {
    fn clone(&self) -> (r: Self)
        ensures
            r.id == self.id,
            record(r) == record(*self),
    {
        User { id: self.id, name: self.name.clone(), email: self.email.clone() }
    }
}

/// The fields of a user to create.
pub struct CreateUserRequest {
    pub name: String,
    pub email: String,
}

/// The fields of a user to change; `None` keeps the current value.
pub struct UpdateUserRequest {
    pub name: Option<String>,
    pub email: Option<String>,
}

/// A user as it is handed out.
pub struct UserResponse {
    pub id: u32,
    pub name: String,
    pub email: String,
}

impl From<User> for UserResponse {
    fn from(user: User) -> (r: Self)
        ensures
            r.id == user.id,
            r.name@ == user.name@,
            r.email@ == user.email@,
    {
        Self { id: user.id, name: user.name, email: user.email }
    }
}

impl vstd::std_specs::convert::FromSpecImpl<User> for UserResponse {
    open spec fn obeys_from_spec() -> bool {
        false
    }

    open spec fn from_spec(v: User) -> UserResponse {
        arbitrary()
    }
}

/// What can go wrong in the user service.
pub enum AppError {
    UserNotFound,
    InvalidInput(String),
    InternalServerError,
}

pub type AppResult<T> = Result<T, AppError>;

impl AppError {
    /// The HTTP status code the error is reported with.
    pub fn status_code(&self) -> (r: u16)
        ensures
            r == match self {
                AppError::UserNotFound => 404u16,
                AppError::InvalidInput(_) => 400u16,
                AppError::InternalServerError => 500u16,
            },
    {
        match self {
            AppError::UserNotFound => 404,
            AppError::InvalidInput(_) => 400,
            AppError::InternalServerError => 500,
        }
    }

    /// The message the error is reported with.
    pub fn message(&self) -> (r: String)
        ensures
            r@ == match self {
                AppError::UserNotFound => "Not found"@,
                AppError::InvalidInput(m) => m@,
                AppError::InternalServerError => "Internal server error"@,
            },
    {
        proof {
            reveal_strlit("Not found");
            reveal_strlit("Internal server error");
        }
        match self {
            AppError::UserNotFound => "Not found".to_owned(),
            AppError::InvalidInput(m) => m.clone(),
            AppError::InternalServerError => "Internal server error".to_owned(),
        }
    }
}

/// What is left of a string once leading and trailing whitespace is
/// removed.
pub uninterp spec fn trimmed(s: Seq<char>) -> Seq<char>;

/// Relies on str::trim: the result depends on the characters alone, and an
/// empty string stays empty.
#[verifier::external_body]
fn trim_str(s: &str) -> (r: &str)
    ensures
        r@ == trimmed(s@),
        s@.len() == 0 ==> r@.len() == 0,
{
    s.trim()
}

/// Whether a string is empty once surrounding whitespace is removed.
pub open spec fn blank(s: Seq<char>) -> bool {
    trimmed(s).len() == 0
}

/// Whether nothing but whitespace is left of `s`.
pub(crate) fn is_blank(s: &str) -> (r: bool)
    ensures
        r == blank(s@),
        s@.len() == 0 ==> r,
{
    trim_str(s).is_empty()
}

/// Relies on str::contains with a char pattern: whether `c` occurs in `s`.
#[verifier::external_body]
pub(crate) fn contains_char(s: &str, c: char) -> (r: bool)
    ensures
        r == s@.contains(c),
{
    s.contains(c)
}

/// A name is accepted when it is not blank.
pub open spec fn valid_name(name: Seq<char>) -> bool {
    !blank(name)
}

/// An email is accepted when it is not blank and holds an '@'.
pub open spec fn valid_email(email: Seq<char>) -> bool {
    !blank(email) && email.contains('@')
}

/// Whether some stored user other than `except` has this email.
pub open spec fn email_taken(
    users: Map<u32, (Seq<char>, Seq<char>)>,
    email: Seq<char>,
    except: Option<u32>,
) -> bool {
    exists|id: u32| users.contains_key(id) && users[id].1 == email && Some(id) != except
}

/// Storage for users, keyed by id.
pub trait UserRepository {
    /// The stored users: id to name and email.
    spec fn users(&self) -> Map<u32, (Seq<char>, Seq<char>)>;

    /// Whether a new id can still be handed out.
    spec fn has_free_id(&self) -> bool;

    /// The id that the next saved user gets.
    spec fn next_id(&self) -> u32;

    /// The repository's internal consistency, kept by every operation.
    spec fn wf(&self) -> bool;

    fn find_by_id(&self, id: u32) -> (r: AppResult<Option<User>>)
        requires
            self.wf(),
        ensures
            match r {
                Ok(Some(u)) => self.users().contains_key(id) && u.id == id && record(u)
                    == self.users()[id],
                Ok(None) => !self.users().contains_key(id),
                Err(_) => false,
            },
    ;

    fn find_all(&self) -> (r: AppResult<Vec<User>>)
        requires
            self.wf(),
        ensures
            r matches Ok(v) && v@.len() == self.users().len() && (forall|i: int|
                0 <= i < v@.len() ==> self.users().contains_key(#[trigger] v@[i].id)
                    && self.users()[v@[i].id] == record(v@[i])) && (forall|i: int, j: int|
                0 <= i < j < v@.len() ==> #[trigger] v@[i].id != #[trigger] v@[j].id),
    ;

    /// Stores `user` under a fresh id, unless another user has its email.
    fn save(&mut self, user: User) -> (r: AppResult<User>)
        requires
            old(self).wf(),
        ensures
            final(self).wf(),
            email_taken(old(self).users(), user.email@, None) ==> (r matches Err(
                AppError::InvalidInput(m),
            ) && m@ == "Email already exists"@),
            !email_taken(old(self).users(), user.email@, None) && old(self).has_free_id()
                ==> r is Ok,
            match r {
                Ok(u) => !old(self).users().contains_key(u.id) && record(u) == record(user)
                    && u.id == old(self).next_id() && final(self).next_id() == old(self).next_id()
                    + 1 && final(self).users() == old(self).users().insert(u.id, record(user)),
                Err(_) => final(self).users() == old(self).users() && final(self).has_free_id()
                    == old(self).has_free_id() && final(self).next_id() == old(self).next_id(),
            },
    ;

    /// Replaces the stored user with `user`'s id.
    fn update(&mut self, user: User) -> (r: AppResult<User>)
        requires
            old(self).wf(),
        ensures
            final(self).wf(),
            !old(self).users().contains_key(user.id) <==> r matches Err(AppError::UserNotFound),
            old(self).users().contains_key(user.id) && email_taken(
                old(self).users(),
                user.email@,
                Some(user.id),
            ) ==> (r matches Err(AppError::InvalidInput(m)) && m@ == "Email already exists"@),
            old(self).users().contains_key(user.id) && !email_taken(
                old(self).users(),
                user.email@,
                Some(user.id),
            ) ==> r is Ok,
            final(self).has_free_id() == old(self).has_free_id(),
            final(self).next_id() == old(self).next_id(),
            match r {
                Ok(u) => u.id == user.id && record(u) == record(user) && final(self).users()
                    == old(self).users().insert(user.id, record(user)),
                Err(_) => final(self).users() == old(self).users(),
            },
    ;

    /// Removes the stored user with this id.
    fn delete(&mut self, id: u32) -> (r: AppResult<()>)
        requires
            old(self).wf(),
        ensures
            final(self).wf(),
            !old(self).users().contains_key(id) <==> r matches Err(AppError::UserNotFound),
            r is Ok || r matches Err(AppError::UserNotFound),
            final(self).has_free_id() == old(self).has_free_id(),
            final(self).next_id() == old(self).next_id(),
            final(self).users() == old(self).users().remove(id),
    ;
}

} // verus!
