//! The revocation cache: refresh-token hashes whose access tokens are refused
//! until a given time, after which the entry lapses by itself.
use vstd::prelude::*;

use crate::session::SessionRefreshTokenHash;

verus! {

/// One revocation: the hash and the first second at which it no longer applies.
struct Revocation {
    hash: SessionRefreshTokenHash,
    until: u64,
}

/// Whether some entry revokes `h` at time `now`.
pub open spec fn revoked_in(entries: Seq<(Seq<u8>, u64)>, h: Seq<u8>, now: u64) -> bool {
    exists|i: int| 0 <= i < entries.len() && (#[trigger] entries[i]).0 == h && now < entries[i].1
}

/// Revoked refresh-token hashes, each with the time its revocation lapses.
pub struct RevocationCache {
    entries: Vec<Revocation>,
}

impl View for RevocationCache {
    type V = Seq<(Seq<u8>, u64)>;

    closed spec fn view(&self) -> Seq<(Seq<u8>, u64)> {
        self.entries@.map_values(|e: Revocation| (e.hash@, e.until))
    }
}

impl RevocationCache {
    /// Whether access tokens bound to `h` are refused at time `now`.
    pub open spec fn is_revoked(&self, h: Seq<u8>, now: u64) -> bool {
        revoked_in(self@, h, now)
    }

    /// A cache that revokes nothing.
    pub fn new() -> (r: RevocationCache)
        ensures
            forall|h: Seq<u8>, t: u64| !r.is_revoked(h, t),
    {
        let r = RevocationCache { entries: Vec::new() };
        assert(r@ =~= Seq::<(Seq<u8>, u64)>::empty());
        r
    }

    /// Refuses access tokens bound to `hash` until `until`.
    pub fn invalidate(&mut self, hash: &SessionRefreshTokenHash, until: u64)
        ensures
            forall|h: Seq<u8>, t: u64|
                #[trigger] final(self).is_revoked(h, t) <==> (old(self).is_revoked(h, t) || (h
                    == hash@ && t < until)),
    {
        let ghost before = self@;
        self.entries.push(Revocation { hash: hash.duplicate(), until });
        assert(self@ =~= before.push((hash@, until)));
        assert forall|h: Seq<u8>, t: u64|
            #[trigger] self.is_revoked(h, t) <==> (revoked_in(before, h, t) || (h == hash@ && t
                < until)) by {
            if revoked_in(before, h, t) {
                let i = choose|i: int|
                    0 <= i < before.len() && (#[trigger] before[i]).0 == h && t < before[i].1;
                assert(self@[i] == before[i]);
            }
            if h == hash@ && t < until {
                assert(self@[before.len() as int] == (hash@, until));
            }
            if self.is_revoked(h, t) {
                let i = choose|i: int|
                    0 <= i < self@.len() && (#[trigger] self@[i]).0 == h && t < self@[i].1;
                if i < before.len() {
                    assert(before[i] == self@[i]);
                }
            }
        }
    }

    /// Whether access tokens bound to `hash` are refused at time `now`.
    pub fn is_invalidated(&self, hash: &SessionRefreshTokenHash, now: u64) -> (r: bool)
        ensures
            r == self.is_revoked(hash@, now),
    {
        let mut i: usize = 0;
        let mut found = false;
        while i < self.entries.len()
            invariant
                i <= self.entries@.len(),
                self@.len() == self.entries@.len(),
                found == exists|j: int|
                    0 <= j < i && (#[trigger] self@[j]).0 == hash@ && now < self@[j].1,
            decreases self.entries@.len() - i,
        {
            let e = &self.entries[i];
            assert(self@[i as int] == (e.hash@, e.until));
            if now < e.until && e.hash.same_as(hash) {
                found = true;
            }
            i = i + 1;
        }
        found
    }

    /// Drops the entries that have lapsed at `now`; what is revoked from
    /// `now` on stays revoked.
    pub fn purge(&mut self, now: u64)
        ensures
            forall|i: int| 0 <= i < final(self)@.len() ==> now < (#[trigger] final(self)@[i]).1,
            forall|h: Seq<u8>, t: u64|
                now <= t ==> (#[trigger] final(self).is_revoked(h, t) <==> old(self).is_revoked(
                    h,
                    t,
                )),
    {
        let ghost before = self@;
        let mut kept: Vec<Revocation> = Vec::new();
        let mut i: usize = 0;
        while i < self.entries.len()
            invariant
                i <= self.entries@.len(),
                before == self@,
                before.len() == self.entries@.len(),
                forall|k: int|
                    0 <= k < kept@.len() ==> now < (#[trigger] kept@[k]).until && exists|j: int|
                        0 <= j < i && before[j] == (kept@[k].hash@, kept@[k].until),
                forall|j: int|
                    0 <= j < i && now < (#[trigger] before[j]).1 ==> exists|k: int|
                        0 <= k < kept@.len() && before[j] == (kept@[k].hash@, kept@[k].until),
            decreases self.entries@.len() - i,
        {
            let e = &self.entries[i];
            assert(before[i as int] == (e.hash@, e.until));
            if now < e.until {
                let ghost old_kept = kept@;
                kept.push(Revocation { hash: e.hash.duplicate(), until: e.until });
                assert(kept@[kept@.len() - 1].hash@ == e.hash@);
                assert forall|j: int|
                    0 <= j < i + 1 && now < (#[trigger] before[j]).1 implies exists|k: int|
                        0 <= k < kept@.len() && before[j] == (kept@[k].hash@, kept@[k].until) by {
                    if j == i {
                        assert(before[j] == (kept@[kept@.len() - 1].hash@, kept@[kept@.len()
                            - 1].until));
                    } else {
                        let k = choose|k: int|
                            0 <= k < old_kept.len() && before[j] == (
                                old_kept[k].hash@,
                                old_kept[k].until,
                            );
                        assert(kept@[k] == old_kept[k]);
                    }
                }
            }
            i = i + 1;
        }
        self.entries = kept;
        assert forall|i: int| 0 <= i < self@.len() implies now < (#[trigger] self@[i]).1 by {
            assert(self@[i] == (kept@[i].hash@, kept@[i].until));
        }
        assert forall|h: Seq<u8>, t: u64|
            now <= t implies (#[trigger] self.is_revoked(h, t) <==> revoked_in(before, h, t)) by {
            if self.is_revoked(h, t) {
                let k = choose|k: int|
                    0 <= k < self@.len() && (#[trigger] self@[k]).0 == h && t < self@[k].1;
                assert(self@[k] == (kept@[k].hash@, kept@[k].until));
                let j = choose|j: int|
                    0 <= j < before.len() && before[j] == (kept@[k].hash@, kept@[k].until);
                assert(before[j].0 == h && t < before[j].1);
            }
            if revoked_in(before, h, t) {
                let j = choose|j: int|
                    0 <= j < before.len() && (#[trigger] before[j]).0 == h && t < before[j].1;
                let k = choose|k: int|
                    0 <= k < kept@.len() && before[j] == (kept@[k].hash@, kept@[k].until);
                assert(self@[k] == before[j]);
            }
        }
    }
}

} // verus!
