use vstd::prelude::*;
use crate::repository::InMemoryUserRepository;
use crate::users::{
    contains_char, email_taken, is_blank, record, valid_email, valid_name, AppError,
    AppResult, CreateUserRequest, UpdateUserRequest, User, UserRepository,
};

verus! {

/// The message for a blank name.
pub open spec fn name_error() -> Seq<char> {
    "Name cannot be empty"@
}

/// The message for an unacceptable email.
pub open spec fn email_error() -> Seq<char> {
    "Invalid email format"@
}

/// Checks a name: `Err` with the name message when it is blank.
fn check_name(name: &String) -> (r: AppResult<()>)
    ensures
        valid_name(name@) <==> r is Ok,
        r matches Err(e) ==> e matches AppError::InvalidInput(m) && m@ == name_error(),
{
    proof {
        reveal_strlit("Name cannot be empty");
    }
    if is_blank(name.as_str()) {
        return Err(AppError::InvalidInput("Name cannot be empty".to_owned()));
    }
    Ok(())
}

/// Checks an email: `Err` with the email message when it is blank or has no
/// '@'.
fn check_email(email: &String) -> (r: AppResult<()>)
    ensures
        valid_email(email@) <==> r is Ok,
        r matches Err(e) ==> e matches AppError::InvalidInput(m) && m@ == email_error(),
{
    proof {
        reveal_strlit("Invalid email format");
    }
    if is_blank(email.as_str()) || !contains_char(email.as_str(), '@') {
        return Err(AppError::InvalidInput("Invalid email format".to_owned()));
    }
    Ok(())
}

/// The rules for creating, reading, changing and removing users, over a
/// repository.
pub struct UserService<R> {
    repository: R,
}

impl<R: UserRepository> UserService<R> {
    pub closed spec fn repository(&self) -> R {
        self.repository
    }

    pub fn new(repository: R) -> (r: Self)
        ensures
            r.repository() == repository,
    {
        Self { repository }
    }

    /// All stored users.
    pub fn list_users(&self) -> (r: AppResult<Vec<User>>)
        requires
            self.repository().wf(),
        ensures
            r matches Ok(v) && v@.len() == self.repository().users().len() && (forall|i: int|
                0 <= i < v@.len() ==> self.repository().users().contains_key(#[trigger] v@[i].id)
                    && self.repository().users()[v@[i].id] == record(v@[i])) && (forall|
                i: int,
                j: int,
            | 0 <= i < j < v@.len() ==> #[trigger] v@[i].id != #[trigger] v@[j].id),
    {
        self.repository.find_all()
    }

    /// Creates a user after checking the name, then the email.
    pub fn create_user(&mut self, request: CreateUserRequest) -> (r: AppResult<User>)
        requires
            old(self).repository().wf(),
        ensures
            final(self).repository().wf(),
            !valid_name(request.name@) ==> (r matches Err(AppError::InvalidInput(m)) && m@
                == name_error()),
            valid_name(request.name@) && !valid_email(request.email@) ==> (r matches Err(
                AppError::InvalidInput(m),
            ) && m@ == email_error()),
            valid_name(request.name@) && valid_email(request.email@) && email_taken(
                old(self).repository().users(),
                request.email@,
                None,
            ) ==> (r matches Err(AppError::InvalidInput(m)) && m@ == "Email already exists"@),
            valid_name(request.name@) && valid_email(request.email@) && !email_taken(
                old(self).repository().users(),
                request.email@,
                None,
            ) && old(self).repository().has_free_id() ==> r is Ok,
            match r {
                Ok(u) => !old(self).repository().users().contains_key(u.id) && u.id == old(self).repository().next_id() && final(self).repository().next_id() == old(self).repository().next_id() + 1 && u.name@
                    == request.name@ && u.email@ == request.email@
                    && final(self).repository().users() == old(self).repository().users().insert(
                    u.id,
                    (request.name@, request.email@),
                ),
                Err(_) => final(self).repository().users() == old(self).repository().users(),
            },
    {
        match check_name(&request.name) {
            Err(e) => {
                return Err(e);
            },
            Ok(()) => {},
        }
        match check_email(&request.email) {
            Err(e) => {
                return Err(e);
            },
            Ok(()) => {},
        }
        let user = User { id: 0, name: request.name, email: request.email };
        self.repository.save(user)
    }

    /// The stored user with this id.
    pub fn get_user_by_id(&self, id: u32) -> (r: AppResult<User>)
        requires
            self.repository().wf(),
        ensures
            self.repository().users().contains_key(id) <==> r is Ok,
            r is Err ==> r matches Err(AppError::UserNotFound),
            r matches Ok(u) ==> u.id == id && record(u) == self.repository().users()[id],
    {
        match self.repository.find_by_id(id) {
            Ok(Some(user)) => Ok(user),
            Ok(None) => Err(AppError::UserNotFound),
            Err(e) => Err(e),
        }
    }

    /// Changes the given fields of the user with this id, checking a new name,
    /// then a new email.
    pub fn update_user(&mut self, id: u32, request: UpdateUserRequest) -> (r: AppResult<User>)
        requires
            old(self).repository().wf(),
        ensures
            final(self).repository().wf(),
            !old(self).repository().users().contains_key(id) ==> r matches Err(
                AppError::UserNotFound,
            ),
            old(self).repository().users().contains_key(id) && (request.name matches Some(n)
                && !valid_name(n@)) ==> (r matches Err(AppError::InvalidInput(m)) && m@
                == name_error()),
            old(self).repository().users().contains_key(id) && !(request.name matches Some(n)
                && !valid_name(n@)) && (request.email matches Some(e) && !valid_email(e@)) ==> (r matches Err(
                AppError::InvalidInput(m),
            ) && m@ == email_error()),
            match r {
                Ok(u) => u.id == id && old(self).repository().users().contains_key(id)
                    && u.name@ == (match request.name {
                    Some(n) => n@,
                    None => old(self).repository().users()[id].0,
                }) && u.email@ == (match request.email {
                    Some(e) => e@,
                    None => old(self).repository().users()[id].1,
                }) && !email_taken(old(self).repository().users(), u.email@, Some(id))
                    && final(self).repository().users() == old(self).repository().users().insert(
                    id,
                    record(u),
                ),
                Err(_) => final(self).repository().users() == old(self).repository().users(),
            },
            old(self).repository().users().contains_key(id) && !(request.name matches Some(n)
                && !valid_name(n@)) && !(request.email matches Some(e) && !valid_email(e@))
                && email_taken(
                old(self).repository().users(),
                match request.email {
                    Some(e) => e@,
                    None => old(self).repository().users()[id].1,
                },
                Some(id),
            ) ==> (r matches Err(AppError::InvalidInput(m)) && m@ == "Email already exists"@),
            old(self).repository().users().contains_key(id) && !(request.name matches Some(n)
                && !valid_name(n@)) && !(request.email matches Some(e) && !valid_email(e@))
                && !email_taken(
                old(self).repository().users(),
                match request.email {
                    Some(e) => e@,
                    None => old(self).repository().users()[id].1,
                },
                Some(id),
            ) ==> r is Ok,
    {
        let mut user = match self.get_user_by_id(id) {
            Ok(u) => u,
            Err(e) => {
                return Err(e);
            },
        };
        match request.name {
            Some(name) => {
                match check_name(&name) {
                    Err(e) => {
                        return Err(e);
                    },
                    Ok(()) => {},
                }
                user.name = name;
            },
            None => {},
        }
        match request.email {
            Some(email) => {
                match check_email(&email) {
                    Err(e) => {
                        return Err(e);
                    },
                    Ok(()) => {},
                }
                user.email = email;
            },
            None => {},
        }
        self.repository.update(user)
    }

    /// Removes the user with this id.
    pub fn delete_user(&mut self, id: u32) -> (r: AppResult<()>)
        requires
            old(self).repository().wf(),
        ensures
            final(self).repository().wf(),
            !old(self).repository().users().contains_key(id) <==> r matches Err(
                AppError::UserNotFound,
            ),
            r is Ok || r matches Err(AppError::UserNotFound),
            final(self).repository().users() == old(self).repository().users().remove(id),
    {
        self.repository.delete(id)
    }
}

/// Settings of the service.
pub struct AppConfig {
    pub example_field: String,
}

impl AppConfig {
    /// The default settings: `example_field` is "example_value".
    pub fn new() -> (r: Self)
        ensures
            r.example_field@ == "example_value"@,
    {
        proof {
            reveal_strlit("example_value");
        }
        Self { example_field: "example_value".to_owned() }
    }
}

impl Default for AppConfig {
    fn default() -> (r: Self)
        ensures
            r.example_field@ == "example_value"@,
    {
        Self::new()
    }
}

/// What the request handlers share: the settings and the user storage.
pub struct AppState {
    pub config: AppConfig,
    pub user_repository: InMemoryUserRepository,
}

impl AppState {
    /// The default settings with a freshly seeded repository.
    pub fn new() -> (r: Self)
        ensures
            r.config.example_field@ == "example_value"@,
            r.user_repository.wf(),
            r.user_repository.next_id() == 2,
            r.user_repository.users() == Map::<u32, (Seq<char>, Seq<char>)>::empty().insert(
                1,
                ("John Doe"@, "john@example.com"@),
            ),
    {
        Self { config: AppConfig::new(), user_repository: InMemoryUserRepository::new() }
    }
}

impl Default for AppState {
    fn default() -> (r: Self)
        ensures
            r.config.example_field@ == "example_value"@,
            r.user_repository.wf(),
    {
        Self::new()
    }
}

} // verus!
