use vstd::prelude::*;
use crate::users::{email_taken, record, AppError, AppResult, User, UserRepository};

verus! {

/// The map a list of users with distinct ids stands for.
pub open spec fn users_map(s: Seq<User>) -> Map<u32, (Seq<char>, Seq<char>)>
    decreases s.len(),
{
    if s.len() == 0 {
        Map::empty()
    } else {
        users_map(s.drop_last()).insert(s.last().id, record(s.last()))
    }
}

/// No two users of the list share an id.
pub open spec fn distinct_ids(s: Seq<User>) -> bool {
    forall|i: int, j: int| 0 <= i < j < s.len() ==> #[trigger] s[i].id != #[trigger] s[j].id
}

/// A list's map has exactly the list's ids, each with its user's record.
proof fn lemma_users_map(s: Seq<User>)
    requires
        distinct_ids(s),
    ensures
        forall|i: int|
            0 <= i < s.len() ==> users_map(s).contains_key(#[trigger] s[i].id) && users_map(s)[s[i].id]
                == record(s[i]),
        forall|id: u32|
            #[trigger] users_map(s).contains_key(id) ==> exists|i: int| 0 <= i < s.len() && s[i].id == id,
        users_map(s).len() == s.len(),
        users_map(s).dom().finite(),
    decreases s.len(),
{
    if s.len() > 0 {
        let init = s.drop_last();
        assert(distinct_ids(init)) by {
            assert forall|i: int, j: int| 0 <= i < j < init.len() implies #[trigger] init[i].id
                != #[trigger] init[j].id by {
                assert(init[i] == s[i] && init[j] == s[j]);
            }
        }
        lemma_users_map(init);
        let last = s.last();
        assert(!users_map(init).contains_key(last.id)) by {
            if users_map(init).contains_key(last.id) {
                let i = choose|i: int| 0 <= i < init.len() && init[i].id == last.id;
                assert(s[i].id != s[s.len() - 1].id);
            }
        }
        assert forall|i: int| 0 <= i < s.len() implies users_map(s).contains_key(#[trigger] s[i].id)
            && users_map(s)[s[i].id] == record(s[i]) by {
            if i < s.len() - 1 {
                assert(s[i] == init[i]);
                assert(s[i].id != last.id);
            }
        }
        assert forall|id: u32| #[trigger] users_map(s).contains_key(id) implies exists|i: int|
            0 <= i < s.len() && s[i].id == id by {
            if id != last.id {
                let i = choose|i: int| 0 <= i < init.len() && init[i].id == id;
                assert(s[i] == init[i]);
            } else {
                assert(s[s.len() - 1].id == id);
            }
        }
    }
}

/// Users kept in memory, with the next id to hand out.
pub struct InMemoryUserRepository {
    storage: Vec<User>,
    next_id: u32,
}

impl InMemoryUserRepository {
    /// Distinct ids, all below the next id to hand out.
    pub closed spec fn ids_ok(&self) -> bool {
        &&& distinct_ids(self.storage@)
        &&& forall|i: int| 0 <= i < self.storage@.len() ==> #[trigger] self.storage@[i].id < self.next_id
    }

    /// A repository holding the seed user 1, "John Doe", john@example.com.
    pub fn new() -> (r: Self)
        ensures
            r.wf(),
            r.users() == Map::<u32, (Seq<char>, Seq<char>)>::empty().insert(
                1,
                ("John Doe"@, "john@example.com"@),
            ),
            r.has_free_id(),
            r.next_id() == 2,
    {
        proof {
            reveal_strlit("John Doe");
            reveal_strlit("john@example.com");
        }
        let mut storage: Vec<User> = Vec::new();
        storage.push(User { id: 1, name: "John Doe".to_owned(), email: "john@example.com".to_owned() });
        let r = Self { storage, next_id: 2 };
        assert(r.storage@.len() == 1);
        assert(r.storage@.drop_last() =~= Seq::<User>::empty());
        assert(users_map(r.storage@) == users_map(Seq::<User>::empty()).insert(
            r.storage@.last().id,
            record(r.storage@.last()),
        ));
        assert(r.users() =~= Map::<u32, (Seq<char>, Seq<char>)>::empty().insert(
            1,
            ("John Doe"@, "john@example.com"@),
        ));
        r
    }

    /// The position of the user with this id, if there is one.
    fn position(&self, id: u32) -> (r: Option<usize>)
        requires
            self.wf(),
        ensures
            match r {
                Some(i) => i < self.storage@.len() && self.storage@[i as int].id == id,
                None => forall|i: int| 0 <= i < self.storage@.len() ==> #[trigger] self.storage@[i].id != id,
            },
    {
        let mut i: usize = 0;
        while i < self.storage.len()
            invariant
                i <= self.storage@.len(),
                forall|j: int| 0 <= j < i ==> #[trigger] self.storage@[j].id != id,
            decreases self.storage@.len() - i,
        {
            if self.storage[i].id == id {
                return Some(i);
            }
            i = i + 1;
        }
        None
    }

    /// Whether a user other than the one with id `except` has this email.
    fn has_email(&self, email: &String, except: Option<u32>) -> (r: bool)
        requires
            self.wf(),
        ensures
            r == email_taken(self.users(), email@, except),
    {
        proof {
            lemma_users_map(self.storage@);
        }
        let mut i: usize = 0;
        while i < self.storage.len()
            invariant
                distinct_ids(self.storage@),
                i <= self.storage@.len(),
                forall|j: int|
                    0 <= j < i ==> !(#[trigger] self.storage@[j].email@ == email@ && Some(
                        self.storage@[j].id,
                    ) != except),
            decreases self.storage@.len() - i,
        {
            let u = &self.storage[i];
            let other = match except {
                Some(x) => u.id != x,
                None => true,
            };
            if other && u.email == *email {
                proof {
                    lemma_users_map(self.storage@);
                    assert(self.storage@[i as int].id == u.id);
                    assert(self.users().contains_key(u.id));
                    assert(self.users()[u.id].1 == email@);
                }
                return true;
            }
            i = i + 1;
        }
        proof {
            if email_taken(self.users(), email@, except) {
                let id = choose|id: u32| self.users().contains_key(id) && self.users()[id].1 == email@
                    && Some(id) != except;
                let j = choose|j: int| 0 <= j < self.storage@.len() && self.storage@[j].id == id;
                assert(self.users()[self.storage@[j].id] == record(self.storage@[j]));
                assert(false);
            }
        }
        false
    }
}

impl UserRepository for InMemoryUserRepository {
    closed spec fn wf(&self) -> bool {
        self.ids_ok()
    }

    closed spec fn users(&self) -> Map<u32, (Seq<char>, Seq<char>)> {
        users_map(self.storage@)
    }

    closed spec fn has_free_id(&self) -> bool {
        self.next_id < u32::MAX
    }

    closed spec fn next_id(&self) -> u32 {
        self.next_id
    }

    fn find_by_id(&self, id: u32) -> (r: AppResult<Option<User>>) {
        proof {
            lemma_users_map(self.storage@);
        }
        match self.position(id) {
            Some(i) => Ok(Some(self.storage[i].clone())),
            None => Ok(None),
        }
    }

    fn find_all(&self) -> (r: AppResult<Vec<User>>) {
        proof {
            lemma_users_map(self.storage@);
        }
        let mut out: Vec<User> = Vec::new();
        let mut i: usize = 0;
        while i < self.storage.len()
            invariant
                i <= self.storage@.len(),
                out@.len() == i,
                forall|j: int| 0 <= j < i ==> (#[trigger] out@[j]).id == self.storage@[j].id && record(out@[j]) == record(self.storage@[j]),
            decreases self.storage@.len() - i,
        {
            out.push(self.storage[i].clone());
            i = i + 1;
        }
        Ok(out)
    }

    fn save(&mut self, user: User) -> (r: AppResult<User>) {
        if self.has_email(&user.email, None) {
            proof {
                reveal_strlit("Email already exists");
            }
            return Err(AppError::InvalidInput("Email already exists".to_owned()));
        }
        if self.next_id == u32::MAX {
            return Err(AppError::InternalServerError);
        }
        let id = self.next_id;
        proof {
            lemma_users_map(self.storage@);
        }
        let stored = User { id, name: user.name.clone(), email: user.email.clone() };
        let ghost before = self.storage@;
        self.storage.push(stored);
        self.next_id = id + 1;
        proof {
            assert(self.storage@.drop_last() =~= before);
        }
        Ok(User { id, name: user.name, email: user.email })
    }

    fn update(&mut self, user: User) -> (r: AppResult<User>) {
        proof {
            lemma_users_map(self.storage@);
        }
        let i = match self.position(user.id) {
            Some(i) => i,
            None => {
                return Err(AppError::UserNotFound);
            },
        };
        if self.has_email(&user.email, Some(user.id)) {
            proof {
                reveal_strlit("Email already exists");
            }
            return Err(AppError::InvalidInput("Email already exists".to_owned()));
        }
        let ghost before = self.storage@;
        let stored = user.clone();
        self.storage.set(i, stored);
        proof {
            let after = self.storage@;
            assert(distinct_ids(after)) by {
                assert forall|a: int, b: int| 0 <= a < b < after.len() implies #[trigger] after[a].id
                    != #[trigger] after[b].id by {
                    assert(after[a].id == before[a].id && after[b].id == before[b].id);
                }
            }
            lemma_users_map(after);
            assert(users_map(after) =~= users_map(before).insert(user.id, record(user))) by {
                assert forall|id: u32| #[trigger] users_map(after).contains_key(id) <==> users_map(before).insert(user.id, record(user)).contains_key(id) by {
                    if users_map(after).contains_key(id) {
                        let k = choose|k: int| 0 <= k < after.len() && after[k].id == id;
                        assert(users_map(before).contains_key(before[k].id));
                    }
                    if users_map(before).contains_key(id) {
                        let k = choose|k: int| 0 <= k < before.len() && before[k].id == id;
                        assert(users_map(after).contains_key(after[k].id));
                    }
                }
                assert forall|id: u32| #[trigger] users_map(after).contains_key(id) implies users_map(after)[id] == users_map(before).insert(user.id, record(user))[id] by {
                    let k = choose|k: int| 0 <= k < after.len() && after[k].id == id;
                    assert(users_map(after)[after[k].id] == record(after[k]));
                    if k != i {
                        assert(users_map(before)[before[k].id] == record(before[k]));
                    }
                }
            }
        }
        Ok(user)
    }

    fn delete(&mut self, id: u32) -> (r: AppResult<()>) {
        proof {
            lemma_users_map(self.storage@);
        }
        let i = match self.position(id) {
            Some(i) => i,
            None => {
                proof {
                    assert(users_map(self.storage@).remove(id) =~= users_map(self.storage@));
                }
                return Err(AppError::UserNotFound);
            },
        };
        let ghost before = self.storage@;
        self.storage.remove(i);
        proof {
            let after = self.storage@;
            assert(after =~= before.remove(i as int));
            assert(distinct_ids(after)) by {
                assert forall|a: int, b: int| 0 <= a < b < after.len() implies #[trigger] after[a].id
                    != #[trigger] after[b].id by {
                    if a < i {
                        if b < i {
                            assert(after[b] == before[b]);
                        } else {
                            assert(after[b] == before[b + 1]);
                        }
                        assert(after[a] == before[a]);
                    } else {
                        assert(after[a] == before[a + 1] && after[b] == before[b + 1]);
                    }
                }
            }
            lemma_users_map(after);
            assert forall|k: int| 0 <= k < after.len() implies #[trigger] after[k].id != id by {
                if k < i {
                    assert(after[k] == before[k]);
                } else {
                    assert(after[k] == before[k + 1]);
                }
            }
            assert(users_map(after) =~= users_map(before).remove(id)) by {
                assert forall|x: u32| #[trigger] users_map(after).contains_key(x) <==> users_map(before).remove(id).contains_key(x) by {
                    if users_map(after).contains_key(x) {
                        let k = choose|k: int| 0 <= k < after.len() && after[k].id == x;
                        if k < i {
                            assert(after[k] == before[k]);
                            assert(users_map(before).contains_key(before[k].id));
                        } else {
                            assert(after[k] == before[k + 1]);
                            assert(users_map(before).contains_key(before[k + 1].id));
                        }
                    }
                    if users_map(before).remove(id).contains_key(x) {
                        let k = choose|k: int| 0 <= k < before.len() && before[k].id == x;
                        if k < i {
                            assert(after[k] == before[k]);
                            assert(users_map(after).contains_key(after[k].id));
                        } else {
                            assert(k != i);
                            assert(after[k - 1] == before[k]);
                            assert(users_map(after).contains_key(after[k - 1].id));
                        }
                    }
                }
                assert forall|x: u32| #[trigger] users_map(after).contains_key(x) implies users_map(after)[x] == users_map(before).remove(id)[x] by {
                    let k = choose|k: int| 0 <= k < after.len() && after[k].id == x;
                    assert(users_map(after)[after[k].id] == record(after[k]));
                    if k < i {
                        assert(after[k] == before[k]);
                        assert(users_map(before)[before[k].id] == record(before[k]));
                    } else {
                        assert(after[k] == before[k + 1]);
                        assert(users_map(before)[before[k + 1].id] == record(before[k + 1]));
                    }
                }
            }
        }
        Ok(())
    }
}

} // verus!
