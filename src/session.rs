//! Sessions: one per login on a device.
use vstd::prelude::*;
use vstd::string::{StrSliceExecFns, StringExecFns};

use crate::ids::{SessionId, UserId};

verus! {

/// Longest device name that is kept, in characters.
pub const DEVICE_NAME_MAX_LEN: usize = 256;

/// Name of the device that a session was opened on; at most
/// [`DEVICE_NAME_MAX_LEN`] characters.
#[derive(Debug)]
pub struct DeviceName {
    name: String,
}

impl View for DeviceName {
    type V = Seq<char>;

    closed spec fn view(&self) -> Seq<char> {
        self.name@
    }
}

/// The first `DEVICE_NAME_MAX_LEN` characters of `s`, or all of it.
pub open spec fn truncated_device_name(s: Seq<char>) -> Seq<char> {
    if s.len() <= DEVICE_NAME_MAX_LEN {
        s
    } else {
        s.subrange(0, DEVICE_NAME_MAX_LEN as int)
    }
}

impl DeviceName {
    /// Accepts a name of at most `DEVICE_NAME_MAX_LEN` characters.
    pub fn try_new(s: String) -> (r: Option<DeviceName>)
        ensures
            r.is_some() <==> s@.len() <= DEVICE_NAME_MAX_LEN,
            r.is_some() ==> r.unwrap()@ == s@,
    {
        if s.unicode_len() <= DEVICE_NAME_MAX_LEN {
            Some(DeviceName { name: s })
        } else {
            None
        }
    }

    /// Keeps the first `DEVICE_NAME_MAX_LEN` characters of `s`.
    pub fn from_string_truncated(s: String) -> (r: DeviceName)
        ensures
            r@ == truncated_device_name(s@),
            r@.len() <= DEVICE_NAME_MAX_LEN,
    {
        let n = s.unicode_len();
        if n <= DEVICE_NAME_MAX_LEN {
            DeviceName { name: s }
        } else {
            let head = s.as_str().substring_char(0, DEVICE_NAME_MAX_LEN);
            DeviceName { name: String::from_str(head) }
        }
    }

    pub fn as_str(&self) -> (r: &str)
        ensures
            r@ == self@,
    {
        self.name.as_str()
    }

    pub fn into_inner(self) -> (r: String)
        ensures
            r@ == self@,
    {
        self.name
    }

    /// A second name with the same characters.
    pub fn duplicate(&self) -> (r: DeviceName)
        ensures
            r@ == self@,
    {
        DeviceName { name: self.name.clone() }
    }
}

} // verus!

verus! {

/// One-way digest of a refresh token. Access tokens carry it to bind them to
/// the session, and the session store finds a session by it.
#[derive(Debug)]
pub struct SessionRefreshTokenHash(pub Vec<u8>);

impl View for SessionRefreshTokenHash {
    type V = Seq<u8>;

    open spec fn view(&self) -> Seq<u8> {
        self.0@
    }
}

impl SessionRefreshTokenHash {
    /// A second hash with the same bytes.
    pub fn duplicate(&self) -> (r: SessionRefreshTokenHash)
        ensures
            r@ == self@,
    {
        let v = self.0.clone();
        assert(v@ =~= self.0@);
        SessionRefreshTokenHash(v)
    }

    /// Whether both hashes hold the same bytes.
    pub fn same_as(&self, other: &SessionRefreshTokenHash) -> (r: bool)
        ensures
            r == (self@ == other@),
    {
        crate::crypto::bytes_equal(self.0.as_slice(), other.0.as_slice())
    }
}

} // verus!

verus! {

/// One login session on one device. Its refresh-token hash is held beside it
/// by the [`SessionStore`].
#[derive(Debug)]
pub struct Session {
    pub id: SessionId,
    pub user_id: UserId,
    pub device_name: Option<DeviceName>,
    pub created_at: u64,
    pub updated_at: u64,
}

/// The mathematical content of a [`Session`].
pub struct SessionView {
    pub id: u128,
    pub user_id: u128,
    pub device_name: Option<Seq<char>>,
    pub created_at: u64,
    pub updated_at: u64,
}

impl View for Session {
    type V = SessionView;

    open spec fn view(&self) -> SessionView {
        SessionView {
            id: self.id.0,
            user_id: self.user_id.0,
            device_name: match self.device_name {
                Some(d) => Some(d@),
                None => None,
            },
            created_at: self.created_at,
            updated_at: self.updated_at,
        }
    }
}

impl Session {
    /// A session with the same content.
    pub fn duplicate(&self) -> (r: Session)
        ensures
            r@ == self@,
    {
        let device_name = match &self.device_name {
            Some(d) => Some(d.duplicate()),
            None => None,
        };
        Session {
            id: self.id,
            user_id: self.user_id,
            device_name,
            created_at: self.created_at,
            updated_at: self.updated_at,
        }
    }
}

/// A stored session with the hash of its current refresh token.
pub type SessionEntry = (SessionView, Seq<u8>);

/// No two entries share a session id or a refresh-token hash.
pub open spec fn entries_unique(v: Seq<SessionEntry>) -> bool {
    forall|i: int, j: int|
        0 <= i < v.len() && 0 <= j < v.len() && i != j ==> (#[trigger] v[i]).0.id != (
        #[trigger] v[j]).0.id && v[i].1 != v[j].1
}

pub open spec fn has_id(v: Seq<SessionEntry>, id: u128) -> bool {
    exists|i: int| 0 <= i < v.len() && (#[trigger] v[i]).0.id == id
}

pub open spec fn has_hash(v: Seq<SessionEntry>, h: Seq<u8>) -> bool {
    exists|i: int| 0 <= i < v.len() && (#[trigger] v[i]).1 == h
}

/// Where the session `id` stands (meaningful when `has_id`).
pub open spec fn position_of_id(v: Seq<SessionEntry>, id: u128) -> int {
    choose|i: int| 0 <= i < v.len() && (#[trigger] v[i]).0.id == id
}

/// Where the session bound to `h` stands (meaningful when `has_hash`).
pub open spec fn position_of_hash(v: Seq<SessionEntry>, h: Seq<u8>) -> int {
    choose|i: int| 0 <= i < v.len() && (#[trigger] v[i]).1 == h
}

/// The session with id `id`, if any.
pub open spec fn session_by_id(v: Seq<SessionEntry>, id: u128) -> Option<SessionView> {
    if has_id(v, id) {
        Some(v[position_of_id(v, id)].0)
    } else {
        None
    }
}

/// The session whose refresh token hashes to `h`, if any.
pub open spec fn session_by_hash(v: Seq<SessionEntry>, h: Seq<u8>) -> Option<SessionView> {
    if has_hash(v, h) {
        Some(v[position_of_hash(v, h)].0)
    } else {
        None
    }
}

/// The refresh-token hashes of the sessions of user `u`, in store order.
pub open spec fn hashes_of_user(v: Seq<SessionEntry>, u: u128) -> Seq<Seq<u8>>
    decreases v.len(),
{
    if v.len() == 0 {
        Seq::empty()
    } else {
        let rest = hashes_of_user(v.drop_last(), u);
        if v.last().0.user_id == u {
            rest.push(v.last().1)
        } else {
            rest
        }
    }
}

/// The store after session `id` took the refresh-token hash `h` at time `now`.
pub open spec fn rotated(v: Seq<SessionEntry>, id: u128, h: Seq<u8>, now: u64) -> Seq<SessionEntry> {
    let i = position_of_id(v, id);
    v.update(i, (SessionView { updated_at: now, ..v[i].0 }, h))
}

/// Why the session store refused a change.
#[derive(Debug, PartialEq, Eq, Structural)]
pub enum SessionStoreError {
    /// No session has that id.
    NotFound,
    /// The id or the refresh-token hash is taken by another session.
    Conflict,
}

struct SessionRecord {
    session: Session,
    refresh_token_hash: SessionRefreshTokenHash,
}

/// Every active session, each with the hash of its current refresh token.
pub struct SessionStore {
    records: Vec<SessionRecord>,
}

impl View for SessionStore {
    type V = Seq<SessionEntry>;

    closed spec fn view(&self) -> Seq<SessionEntry> {
        self.records@.map_values(|r: SessionRecord| (r.session@, r.refresh_token_hash@))
    }
}

impl SessionStore {
    pub open spec fn wf(&self) -> bool {
        entries_unique(self@)
    }

    pub fn new() -> (r: SessionStore)
        ensures
            r@ == Seq::<SessionEntry>::empty(),
            r.wf(),
    {
        let r = SessionStore { records: Vec::new() };
        assert(r@ =~= Seq::<SessionEntry>::empty());
        r
    }

    fn find_id(&self, id: SessionId) -> (r: Option<usize>)
        requires
            self.wf(),
        ensures
            match r {
                Some(i) => i < self@.len() && self@[i as int].0.id == id.0 && position_of_id(
                    self@,
                    id.0,
                ) == i,
                None => !has_id(self@, id.0),
            },
    {
        let mut i: usize = 0;
        while i < self.records.len()
            invariant
                i <= self.records@.len(),
                self@.len() == self.records@.len(),
                self.wf(),
                forall|j: int| 0 <= j < i ==> (#[trigger] self@[j]).0.id != id.0,
            decreases self.records@.len() - i,
        {
            assert(self@[i as int].0.id == self.records@[i as int].session.id.0);
            if self.records[i].session.id == id {
                proof {
                    assert(self@[i as int].0.id == id.0);
                    let k = position_of_id(self@, id.0);
                    assert(self@[k].0.id == id.0);
                    if k != i as int {
                        assert(self@[k].0.id != self@[i as int].0.id);
                    }
                }
                return Some(i);
            }
            i = i + 1;
        }
        None
    }

    fn find_hash(&self, h: &SessionRefreshTokenHash) -> (r: Option<usize>)
        requires
            self.wf(),
        ensures
            match r {
                Some(i) => i < self@.len() && self@[i as int].1 == h@ && position_of_hash(self@, h@)
                    == i,
                None => !has_hash(self@, h@),
            },
    {
        let mut i: usize = 0;
        while i < self.records.len()
            invariant
                i <= self.records@.len(),
                self@.len() == self.records@.len(),
                self.wf(),
                forall|j: int| 0 <= j < i ==> (#[trigger] self@[j]).1 != h@,
            decreases self.records@.len() - i,
        {
            assert(self@[i as int].1 == self.records@[i as int].refresh_token_hash@);
            if self.records[i].refresh_token_hash.same_as(h) {
                proof {
                    assert(self@[i as int].1 == h@);
                    let k = position_of_hash(self@, h@);
                    assert(self@[k].1 == h@);
                    if k != i as int {
                        assert(self@[k].1 != self@[i as int].1);
                    }
                }
                return Some(i);
            }
            i = i + 1;
        }
        None
    }

    /// The session with id `id`.
    pub fn get(&self, id: SessionId) -> (r: Option<&Session>)
        requires
            self.wf(),
        ensures
            match r {
                Some(s) => session_by_id(self@, id.0) == Some(s@),
                None => session_by_id(self@, id.0).is_none(),
            },
    {
        match self.find_id(id) {
            Some(i) => {
                assert(self@[i as int].0 == self.records@[i as int].session@);
                Some(&self.records[i].session)
            },
            None => None,
        }
    }

    /// The refresh-token hash of session `id`.
    pub fn refresh_token_hash_of(&self, id: SessionId) -> (r: Option<&SessionRefreshTokenHash>)
        requires
            self.wf(),
        ensures
            match r {
                Some(h) => has_id(self@, id.0) && self@[position_of_id(self@, id.0)].1 == h@,
                None => !has_id(self@, id.0),
            },
    {
        match self.find_id(id) {
            Some(i) => {
                assert(self@[i as int].1 == self.records@[i as int].refresh_token_hash@);
                Some(&self.records[i].refresh_token_hash)
            },
            None => None,
        }
    }

    /// The session whose current refresh token hashes to `h`.
    pub fn get_by_refresh_token_hash(&self, h: &SessionRefreshTokenHash) -> (r: Option<&Session>)
        requires
            self.wf(),
        ensures
            match r {
                Some(s) => session_by_hash(self@, h@) == Some(s@),
                None => session_by_hash(self@, h@).is_none(),
            },
    {
        match self.find_hash(h) {
            Some(i) => {
                assert(self@[i as int].0 == self.records@[i as int].session@);
                Some(&self.records[i].session)
            },
            None => None,
        }
    }

    /// The refresh-token hashes of every session of user `user_id`.
    pub fn list_refresh_token_hashes_by_user(&self, user_id: UserId) -> (r: Vec<
        SessionRefreshTokenHash,
    >)
        ensures
            r@.map_values(|h: SessionRefreshTokenHash| h@) == hashes_of_user(self@, user_id.0),
    {
        let mut out: Vec<SessionRefreshTokenHash> = Vec::new();
        let mut i: usize = 0;
        while i < self.records.len()
            invariant
                i <= self.records@.len(),
                self@.len() == self.records@.len(),
                out@.map_values(|h: SessionRefreshTokenHash| h@) == hashes_of_user(
                    self@.subrange(0, i as int),
                    user_id.0,
                ),
            decreases self.records@.len() - i,
        {
            let r = &self.records[i];
            assert(self@[i as int] == (r.session@, r.refresh_token_hash@));
            assert(self@.subrange(0, i + 1).drop_last() =~= self@.subrange(0, i as int));
            let ghost before = out@;
            if r.session.user_id == user_id {
                out.push(r.refresh_token_hash.duplicate());
                assert(out@.map_values(|h: SessionRefreshTokenHash| h@) =~= before.map_values(
                    |h: SessionRefreshTokenHash| h@,
                ).push(r.refresh_token_hash@));
            }
            i = i + 1;
        }
        assert(self@.subrange(0, self@.len() as int) =~= self@);
        out
    }

    /// Stores a new session bound to the refresh-token hash `h`.
    pub fn create(&mut self, session: Session, h: SessionRefreshTokenHash) -> (r: Result<
        (),
        SessionStoreError,
    >)
        requires
            old(self).wf(),
        ensures
            final(self).wf(),
            r is Err <==> has_id(old(self)@, session@.id) || has_hash(old(self)@, h@),
            r is Err ==> r == Err::<(), _>(SessionStoreError::Conflict) && final(self)@ == old(
                self,
            )@,
            r is Ok ==> final(self)@ == old(self)@.push((session@, h@)),
    {
        if self.find_id(session.id).is_some() || self.find_hash(&h).is_some() {
            return Err(SessionStoreError::Conflict);
        }
        let ghost before = self@;
        let ghost entry = (session@, h@);
        self.records.push(SessionRecord { session, refresh_token_hash: h });
        assert(self@ =~= before.push(entry));
        assert forall|i: int, j: int|
            0 <= i < self@.len() && 0 <= j < self@.len() && i != j implies (#[trigger] self@[i]).0.id
            != (#[trigger] self@[j]).0.id && self@[i].1 != self@[j].1 by {
            if i == before.len() as int {
                assert(self@[j] == before[j]);
            } else if j == before.len() as int {
                assert(self@[i] == before[i]);
            }
        }
        Ok(())
    }

    /// Binds session `id` to the new refresh-token hash `h` and records `now`
    /// as its last use.
    pub fn rotate(&mut self, id: SessionId, h: SessionRefreshTokenHash, now: u64) -> (r: Result<
        (),
        SessionStoreError,
    >)
        requires
            old(self).wf(),
        ensures
            final(self).wf(),
            !has_id(old(self)@, id.0) ==> r == Err::<(), _>(SessionStoreError::NotFound),
            has_id(old(self)@, id.0) ==> (r is Err <==> (has_hash(old(self)@, h@) && old(
                self,
            )@[position_of_hash(old(self)@, h@)].0.id != id.0)),
            r is Err ==> final(self)@ == old(self)@,
            r is Ok ==> final(self)@ == rotated(old(self)@, id.0, h@, now),
    {
        let i = match self.find_id(id) {
            Some(i) => i,
            None => return Err(SessionStoreError::NotFound),
        };
        match self.find_hash(&h) {
            Some(j) => {
                if j != i {
                    return Err(SessionStoreError::Conflict);
                }
            },
            None => {},
        }
        let ghost before = self@;
        let rec = self.records.remove(i);
        let session = Session {
            id: rec.session.id,
            user_id: rec.session.user_id,
            device_name: rec.session.device_name,
            created_at: rec.session.created_at,
            updated_at: now,
        };
        self.records.insert(i, SessionRecord { session, refresh_token_hash: h });
        assert(self@ =~= rotated(before, id.0, h@, now));
        assert forall|a: int, b: int|
            0 <= a < self@.len() && 0 <= b < self@.len() && a != b implies (#[trigger] self@[a]).0.id
            != (#[trigger] self@[b]).0.id && self@[a].1 != self@[b].1 by {
            if a == i as int {
                assert(self@[b] == before[b]);
                assert(before[i as int].0.id != before[b].0.id);
            } else if b == i as int {
                assert(self@[a] == before[a]);
                assert(before[i as int].0.id != before[a].0.id);
            } else {
                assert(self@[a] == before[a] && self@[b] == before[b]);
            }
        }
        Ok(())
    }

    /// Removes session `id`; whether it was there.
    pub fn delete(&mut self, id: SessionId) -> (r: bool)
        requires
            old(self).wf(),
        ensures
            final(self).wf(),
            r == has_id(old(self)@, id.0),
            r ==> final(self)@ == old(self)@.remove(position_of_id(old(self)@, id.0)),
            !r ==> final(self)@ == old(self)@,
    {
        match self.find_id(id) {
            Some(i) => {
                let ghost before = self@;
                self.records.remove(i);
                assert(self@ =~= before.remove(i as int));
                assert forall|a: int, b: int|
                    0 <= a < self@.len() && 0 <= b < self@.len() && a != b implies (
                    #[trigger] self@[a]).0.id != (#[trigger] self@[b]).0.id && self@[a].1
                    != self@[b].1 by {
                    let a2 = if a < i { a } else { a + 1 };
                    let b2 = if b < i { b } else { b + 1 };
                    assert(self@[a] == before[a2] && self@[b] == before[b2]);
                }
                true
            },
            None => false,
        }
    }
}

} // verus!

verus! {

/// Refresh-token rotation is exclusive: once the session bound to `old_h`
/// takes a different hash, `old_h` finds no session any more.
pub proof fn lemma_rotation_exclusive(
    v: Seq<SessionEntry>,
    old_h: Seq<u8>,
    new_h: Seq<u8>,
    now: u64,
)
    requires
        entries_unique(v),
        has_hash(v, old_h),
        old_h != new_h,
    ensures
        session_by_hash(rotated(v, v[position_of_hash(v, old_h)].0.id, new_h, now), old_h).is_none(),
{
    let p = position_of_hash(v, old_h);
    let id = v[p].0.id;
    let q = position_of_id(v, id);
    assert(v[q].0.id == id);
    if q != p {
        assert(v[q].0.id != v[p].0.id);
    }
    let w = rotated(v, id, new_h, now);
    if has_hash(w, old_h) {
        let j = choose|j: int| 0 <= j < w.len() && (#[trigger] w[j]).1 == old_h;
        if j != p {
            assert(w[j] == v[j]);
            assert(v[j].1 != v[p].1);
        }
    }
}

} // verus!

verus! {

/// The entries that do not belong to user `u`, in store order.
pub open spec fn entries_not_of_user(v: Seq<SessionEntry>, u: u128) -> Seq<SessionEntry>
    decreases v.len(),
{
    if v.len() == 0 {
        Seq::empty()
    } else {
        let rest = entries_not_of_user(v.drop_last(), u);
        if v.last().0.user_id == u {
            rest
        } else {
            rest.push(v.last())
        }
    }
}

proof fn lemma_entries_not_of_user(v: Seq<SessionEntry>, u: u128)
    requires
        entries_unique(v),
    ensures
        entries_unique(entries_not_of_user(v, u)),
        forall|k: int|
            0 <= k < entries_not_of_user(v, u).len() ==> exists|j: int|
                0 <= j < v.len() && #[trigger] entries_not_of_user(v, u)[k] == v[j],
    decreases v.len(),
{
    if v.len() > 0 {
        let d = v.drop_last();
        assert forall|a: int, b: int|
            0 <= a < d.len() && 0 <= b < d.len() && a != b implies (#[trigger] d[a]).0.id != (
            #[trigger] d[b]).0.id && d[a].1 != d[b].1 by {
            assert(d[a] == v[a] && d[b] == v[b]);
        }
        lemma_entries_not_of_user(d, u);
        let rest = entries_not_of_user(d, u);
        let w = entries_not_of_user(v, u);
        let last = v.len() - 1;
        assert forall|k: int| 0 <= k < w.len() implies exists|j: int|
            0 <= j < v.len() && #[trigger] w[k] == v[j] by {
            if k < rest.len() {
                let j = choose|j: int| 0 <= j < d.len() && #[trigger] rest[k] == d[j];
                assert(w[k] == v[j]);
            } else {
                assert(w[k] == v[last]);
            }
        }
        if v.last().0.user_id != u {
            assert forall|a: int, b: int|
                0 <= a < w.len() && 0 <= b < w.len() && a != b implies (#[trigger] w[a]).0.id != (
                #[trigger] w[b]).0.id && w[a].1 != w[b].1 by {
                if a == rest.len() {
                    let j = choose|j: int| 0 <= j < d.len() && #[trigger] rest[b] == d[j];
                    assert(w[b] == v[j] && w[a] == v[last]);
                } else if b == rest.len() {
                    let j = choose|j: int| 0 <= j < d.len() && #[trigger] rest[a] == d[j];
                    assert(w[a] == v[j] && w[b] == v[last]);
                } else {
                    assert(w[a] == rest[a] && w[b] == rest[b]);
                }
            }
        }
    }
}

impl SessionStore {
    /// Removes every session of user `u`.
    pub fn delete_by_user(&mut self, u: UserId)
        requires
            old(self).wf(),
        ensures
            final(self).wf(),
            final(self)@ == entries_not_of_user(old(self)@, u.0),
    {
        let ghost before = self@;
        let mut kept: Vec<SessionRecord> = Vec::new();
        let mut i: usize = 0;
        while i < self.records.len()
            invariant
                i <= self.records@.len(),
                before == self@,
                before.len() == self.records@.len(),
                kept@.map_values(|r: SessionRecord| (r.session@, r.refresh_token_hash@))
                    == entries_not_of_user(before.subrange(0, i as int), u.0),
            decreases self.records@.len() - i,
        {
            let r = &self.records[i];
            assert(before[i as int] == (r.session@, r.refresh_token_hash@));
            assert(before.subrange(0, i + 1).drop_last() =~= before.subrange(0, i as int));
            let ghost prev = kept@;
            if r.session.user_id != u {
                kept.push(SessionRecord { session: r.session.duplicate(), refresh_token_hash: r.refresh_token_hash.duplicate() });
                assert(kept@.map_values(|r: SessionRecord| (r.session@, r.refresh_token_hash@)) =~= prev.map_values(
                    |r: SessionRecord| (r.session@, r.refresh_token_hash@),
                ).push(before[i as int]));
            }
            i = i + 1;
        }
        assert(before.subrange(0, before.len() as int) =~= before);
        self.records = kept;
        proof {
            lemma_entries_not_of_user(before, u.0);
        }
    }
}

} // verus!
