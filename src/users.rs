//! The user records that authentication reads: flags and password hashes.
use vstd::prelude::*;

use crate::crypto::{argon2_hash, password_matches};
use crate::ids::UserId;

verus! {

/// What authentication needs to know of a user account.
#[derive(Clone, Copy, Debug, PartialEq, Eq, Structural)]
pub struct User {
    pub id: UserId,
    pub admin: bool,
    pub enabled: bool,
    pub email_verified: bool,
}

/// A stored user and the hash of their password, if one is set.
pub type UserEntry = (User, Option<Seq<char>>);

pub open spec fn user_ids_unique(v: Seq<UserEntry>) -> bool {
    forall|i: int, j: int|
        0 <= i < v.len() && 0 <= j < v.len() && i != j ==> (#[trigger] v[i]).0.id != (
        #[trigger] v[j]).0.id
}

pub open spec fn has_user(v: Seq<UserEntry>, id: u128) -> bool {
    exists|i: int| 0 <= i < v.len() && (#[trigger] v[i]).0.id.0 == id
}

pub open spec fn user_position(v: Seq<UserEntry>, id: u128) -> int {
    choose|i: int| 0 <= i < v.len() && (#[trigger] v[i]).0.id.0 == id
}

/// The user with id `id`, if any.
pub open spec fn user_by_id(v: Seq<UserEntry>, id: u128) -> Option<User> {
    if has_user(v, id) {
        Some(v[user_position(v, id)].0)
    } else {
        None
    }
}

/// The password hash of user `id`; `None` where there is no such user or no
/// password is set.
pub open spec fn password_hash_of(v: Seq<UserEntry>, id: u128) -> Option<Seq<char>> {
    if has_user(v, id) {
        v[user_position(v, id)].1
    } else {
        None
    }
}

/// The characters of an optional text.
pub open spec fn text_of(s: Option<String>) -> Option<Seq<char>> {
    match s {
        Some(t) => Some(t@),
        None => None,
    }
}

/// A user with a password hash exists.
pub proof fn lemma_password_implies_user(v: Seq<UserEntry>, id: u128)
    requires
        password_hash_of(v, id) is Some,
    ensures
        user_by_id(v, id) matches Some(u) && u.id.0 == id,
{
    let p = user_position(v, id);
    assert(v[p].0.id.0 == id);
}

/// Hashes a password with a fresh salt; `None` where hashing fails.
pub fn hash_password(password: &str) -> (r: Option<String>)
    ensures
        r matches Some(h) ==> password_matches(password@, h@),
        password@.len() < 0x4000_0000 ==> r is Some,
{
    argon2_hash(password)
}

struct UserRecord {
    user: User,
    password_hash: Option<String>,
}

/// Every user account.
pub struct UserStore {
    records: Vec<UserRecord>,
}

impl View for UserStore {
    type V = Seq<UserEntry>;

    closed spec fn view(&self) -> Seq<UserEntry> {
        self.records@.map_values(|r: UserRecord| (r.user, text_of(r.password_hash)))
    }
}

impl UserStore {
    pub open spec fn wf(&self) -> bool {
        user_ids_unique(self@)
    }

    pub fn new() -> (r: UserStore)
        ensures
            r@ == Seq::<UserEntry>::empty(),
            r.wf(),
    {
        let r = UserStore { records: Vec::new() };
        assert(r@ =~= Seq::<UserEntry>::empty());
        r
    }

    fn find(&self, id: UserId) -> (r: Option<usize>)
        requires
            self.wf(),
        ensures
            match r {
                Some(i) => i < self@.len() && self@[i as int].0.id == id && user_position(
                    self@,
                    id.0,
                ) == i,
                None => !has_user(self@, id.0),
            },
    {
        let mut i: usize = 0;
        while i < self.records.len()
            invariant
                i <= self.records@.len(),
                self@.len() == self.records@.len(),
                self.wf(),
                forall|j: int| 0 <= j < i ==> (#[trigger] self@[j]).0.id.0 != id.0,
            decreases self.records@.len() - i,
        {
            assert(self@[i as int].0 == self.records@[i as int].user);
            if self.records[i].user.id == id {
                proof {
                    let k = user_position(self@, id.0);
                    if k != i as int {
                        assert(self@[k].0.id != self@[i as int].0.id);
                    }
                }
                return Some(i);
            }
            i = i + 1;
        }
        None
    }

    /// Whether user `id` exists.
    pub fn contains(&self, id: UserId) -> (r: bool)
        requires
            self.wf(),
        ensures
            r == has_user(self@, id.0),
    {
        self.find(id).is_some()
    }

    /// The user with id `id`.
    pub fn get(&self, id: UserId) -> (r: Option<User>)
        requires
            self.wf(),
        ensures
            r == user_by_id(self@, id.0),
    {
        match self.find(id) {
            Some(i) => {
                assert(self@[i as int].0 == self.records@[i as int].user);
                Some(self.records[i].user)
            },
            None => None,
        }
    }

    /// The stored password hash of user `id`.
    pub fn get_password_hash(&self, id: UserId) -> (r: Option<&String>)
        requires
            self.wf(),
        ensures
            match r {
                Some(h) => password_hash_of(self@, id.0) == Some(h@),
                None => password_hash_of(self@, id.0).is_none(),
            },
    {
        match self.find(id) {
            Some(i) => {
                let rec = &self.records[i];
                assert(self@[i as int].1 == text_of(rec.password_hash));
                match &rec.password_hash {
                    Some(h) => Some(h),
                    None => None,
                }
            },
            None => None,
        }
    }

    /// Adds a user; refused, leaving the store as it was, where the id is taken.
    pub fn create(&mut self, user: User, password_hash: Option<String>) -> (r: bool)
        requires
            old(self).wf(),
        ensures
            final(self).wf(),
            r == !has_user(old(self)@, user.id.0),
            r ==> final(self)@ == old(self)@.push((user, text_of(password_hash))),
            !r ==> final(self)@ == old(self)@,
    {
        if self.find(user.id).is_some() {
            return false;
        }
        let ghost before = self@;
        let ghost entry = (user, text_of(password_hash));
        self.records.push(UserRecord { user, password_hash });
        assert(self@ =~= before.push(entry));
        assert forall|i: int, j: int|
            0 <= i < self@.len() && 0 <= j < self@.len() && i != j implies (#[trigger] self@[i]).0.id
            != (#[trigger] self@[j]).0.id by {
            if i == before.len() as int {
                assert(self@[j] == before[j]);
            } else if j == before.len() as int {
                assert(self@[i] == before[i]);
            }
        }
        true
    }

    /// Sets the password hash of user `id`; whether the user exists.
    pub fn save_password_hash(&mut self, id: UserId, hash: String) -> (r: bool)
        requires
            old(self).wf(),
        ensures
            final(self).wf(),
            r == has_user(old(self)@, id.0),
            r ==> final(self)@ == old(self)@.update(
                user_position(old(self)@, id.0),
                (old(self)@[user_position(old(self)@, id.0)].0, Some(hash@)),
            ),
            !r ==> final(self)@ == old(self)@,
    {
        match self.find(id) {
            Some(i) => {
                let ghost before = self@;
                let ghost h = hash@;
                let rec = self.records.remove(i);
                self.records.insert(i, UserRecord { user: rec.user, password_hash: Some(hash) });
                assert(self@ =~= before.update(i as int, (before[i as int].0, Some(h))));
                assert forall|a: int, b: int|
                    0 <= a < self@.len() && 0 <= b < self@.len() && a != b implies (
                    #[trigger] self@[a]).0.id != (#[trigger] self@[b]).0.id by {
                    assert(self@[a].0 == before[a].0 && self@[b].0 == before[b].0);
                }
                true
            },
            None => false,
        }
    }

    /// Removes user `id`; whether it was there.
    pub fn delete(&mut self, id: UserId) -> (r: bool)
        requires
            old(self).wf(),
        ensures
            final(self).wf(),
            r == has_user(old(self)@, id.0),
            r ==> final(self)@ == old(self)@.remove(user_position(old(self)@, id.0)),
            !r ==> final(self)@ == old(self)@,
    {
        match self.find(id) {
            Some(i) => {
                let ghost before = self@;
                self.records.remove(i);
                assert(self@ =~= before.remove(i as int));
                assert forall|a: int, b: int|
                    0 <= a < self@.len() && 0 <= b < self@.len() && a != b implies (
                    #[trigger] self@[a]).0.id != (#[trigger] self@[b]).0.id by {
                    let a2 = if a < i { a } else { a + 1 };
                    let b2 = if b < i { b } else { b + 1 };
                    assert(self@[a] == before[a2] && self@[b] == before[b2]);
                }
                true
            },
            None => false,
        }
    }
}

} // verus!
