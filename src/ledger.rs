use vstd::prelude::*;
use vstd::string::StringExecFns;
use crate::error::ApiError;

verus! {

/// A stored refresh token: the digest of the bearer string, never the
/// string itself.
#[derive(Debug, Clone)]
pub struct RefreshTokenRecord {
    pub id: u128,
    pub user_id: u128,
    pub token_hash: String,
    pub expires_at: i64,
    pub revoked_at: Option<i64>,
    pub created_at: i64,
}

pub open spec fn has_hash(rs: Seq<RefreshTokenRecord>, h: Seq<char>) -> bool {
    exists|i: int| 0 <= i < rs.len() && rs[i].token_hash@ == h
}

pub open spec fn record_with(rs: Seq<RefreshTokenRecord>, h: Seq<char>) -> RefreshTokenRecord {
    rs[choose|i: int| 0 <= i < rs.len() && rs[i].token_hash@ == h]
}

/// A record for this digest exists and was not revoked.
pub open spec fn is_live(rs: Seq<RefreshTokenRecord>, h: Seq<char>) -> bool {
    has_hash(rs, h) && record_with(rs, h).revoked_at is None
}

/// The user holds at least one refresh token that was not revoked.
pub open spec fn holds_token(rs: Seq<RefreshTokenRecord>, user_id: u128) -> bool {
    exists|i: int| 0 <= i < rs.len() && rs[i].user_id == user_id && rs[i].revoked_at is None
}

pub open spec fn has_record_id(rs: Seq<RefreshTokenRecord>, id: u128) -> bool {
    exists|i: int| 0 <= i < rs.len() && rs[i].id == id
}

impl RefreshTokenRecord {
    pub fn duplicate(&self) -> (r: Self)
        ensures
            r == *self,
    {
        RefreshTokenRecord {
            id: self.id,
            user_id: self.user_id,
            token_hash: self.token_hash.clone(),
            expires_at: self.expires_at,
            revoked_at: self.revoked_at,
            created_at: self.created_at,
        }
    }
}

/// Stored refresh tokens: at most one record per digest, ids unique.
#[derive(Debug, Clone)]
pub struct TokenLedger {
    pub records: Vec<RefreshTokenRecord>,
}

impl TokenLedger {
    pub open spec fn wf(&self) -> bool {
        &&& forall|i: int, j: int|
            0 <= i < self.records@.len() && 0 <= j < self.records@.len() && i != j
                ==> #[trigger] self.records@[i].token_hash@ != #[trigger] self.records@[j].token_hash@
        &&& forall|i: int, j: int|
            0 <= i < self.records@.len() && 0 <= j < self.records@.len() && i != j
                ==> #[trigger] self.records@[i].id != #[trigger] self.records@[j].id
    }

    pub fn new() -> (r: Self)
        ensures
            r.wf(),
            r.records@.len() == 0,
    {
        TokenLedger { records: Vec::new() }
    }

    fn index_of_hash(&self, token_hash: &str) -> (r: Option<usize>)
        requires
            self.wf(),
        ensures
            r is None <==> !has_hash(self.records@, token_hash@),
            r matches Some(i) ==> i < self.records@.len() && self.records@[i as int].token_hash@
                == token_hash@ && self.records@[i as int] == record_with(self.records@, token_hash@),
    {
        let wanted = String::from_str(token_hash);
        let mut i: usize = 0;
        while i < self.records.len()
            invariant
                self.wf(),
                wanted@ == token_hash@,
                i <= self.records@.len(),
                forall|j: int| 0 <= j < i ==> self.records@[j].token_hash@ != token_hash@,
            decreases self.records@.len() - i,
        {
            if self.records[i].token_hash.eq(&wanted) {
                proof {
                    let k = choose|k: int| 0 <= k < self.records@.len() && self.records@[k].token_hash@ == token_hash@;
                    if k != i {
                        assert(self.records@[k].token_hash@ != self.records@[i as int].token_hash@);
                    }
                }
                return Some(i);
            }
            i += 1;
        }
        None
    }

    pub fn has_id(&self, id: u128) -> (r: bool)
        ensures
            r == has_record_id(self.records@, id),
    {
        let mut i: usize = 0;
        while i < self.records.len()
            invariant
                i <= self.records@.len(),
                forall|j: int| 0 <= j < i ==> self.records@[j].id != id,
            decreases self.records@.len() - i,
        {
            if self.records[i].id == id {
                return true;
            }
            i += 1;
        }
        false
    }

    /// Whether a record for this digest exists.
    pub fn is_stored(&self, token_hash: &str) -> (r: bool)
        requires
            self.wf(),
        ensures
            r == has_hash(self.records@, token_hash@),
    {
        self.index_of_hash(token_hash).is_some()
    }

    /// Stores the digest of a refresh token for a user. Fails with
    /// `Database`, changing nothing, where the digest or the id is taken.
    pub fn create_refresh_token(
        &mut self,
        id: u128,
        user_id: u128,
        token_hash: String,
        expires_at: i64,
        now: i64,
    ) -> (r: Result<(), ApiError>)
        requires
            old(self).wf(),
        ensures
            final(self).wf(),
            r is Ok <==> !has_hash(old(self).records@, token_hash@) && !has_record_id(old(self).records@, id),
            r is Ok ==> final(self).records@ == old(self).records@.push(
                RefreshTokenRecord { id, user_id, token_hash, expires_at, revoked_at: None, created_at: now },
            ),
            r matches Err(e) ==> e is Database && *final(self) == *old(self),
    {
        if self.index_of_hash(token_hash.as_str()).is_some() || self.has_id(id) {
            return Err(ApiError::Database(String::from_str("refresh token already stored")));
        }
        let ghost before = self.records@;
        self.records.push(
            RefreshTokenRecord { id, user_id, token_hash, expires_at, revoked_at: None, created_at: now },
        );
        proof {
            assert forall|i: int, j: int|
                0 <= i < self.records@.len() && 0 <= j < self.records@.len() && i != j implies #[trigger] self.records@[i].token_hash@
                != #[trigger] self.records@[j].token_hash@ by {
                if i < before.len() {
                    assert(self.records@[i] == before[i]);
                }
                if j < before.len() {
                    assert(self.records@[j] == before[j]);
                }
            }
            assert forall|i: int, j: int|
                0 <= i < self.records@.len() && 0 <= j < self.records@.len() && i != j implies #[trigger] self.records@[i].id
                != #[trigger] self.records@[j].id by {
                if i < before.len() {
                    assert(self.records@[i] == before[i]);
                }
                if j < before.len() {
                    assert(self.records@[j] == before[j]);
                }
            }
        }
        Ok(())
    }

    /// Owner and expiry of a live record for this digest. An unknown and a
    /// revoked digest both give `None`.
    pub fn find_refresh_token(&self, token_hash: &str) -> (r: Option<(u128, i64)>)
        requires
            self.wf(),
        ensures
            r is Some <==> is_live(self.records@, token_hash@),
            r matches Some((u, e)) ==> u == record_with(self.records@, token_hash@).user_id && e
                == record_with(self.records@, token_hash@).expires_at,
    {
        match self.index_of_hash(token_hash) {
            Some(i) => match self.records[i].revoked_at {
                None => Some((self.records[i].user_id, self.records[i].expires_at)),
                Some(_) => None,
            },
            None => None,
        }
    }

    /// Deletes the record for this digest, if there is one.
    pub fn delete_refresh_token(&mut self, token_hash: &str)
        requires
            old(self).wf(),
        ensures
            final(self).wf(),
            forall|r: RefreshTokenRecord|
                #[trigger] final(self).records@.contains(r) <==> old(self).records@.contains(r)
                    && r.token_hash@ != token_hash@,
    {
        match self.index_of_hash(token_hash) {
            None => {
                proof {
                    assert forall|r: RefreshTokenRecord| #[trigger] self.records@.contains(r) implies r.token_hash@
                        != token_hash@ by {
                        let k = choose|k: int| 0 <= k < self.records@.len() && self.records@[k] == r;
                    }
                }
            },
            Some(i) => {
                let ghost before = self.records@;
                self.records.remove(i);
                proof {
                    before.remove_ensures(i as int);
                    let ii = i as int;
                    assert forall|a: int, b: int|
                        0 <= a < self.records@.len() && 0 <= b < self.records@.len() && a != b implies #[trigger] self.records@[a].token_hash@
                        != #[trigger] self.records@[b].token_hash@ by {
                        let sa = if a < ii { a } else { a + 1 };
                        let sb = if b < ii { b } else { b + 1 };
                        assert(self.records@[a] == before[sa] && self.records@[b] == before[sb]);
                    }
                    assert forall|a: int, b: int|
                        0 <= a < self.records@.len() && 0 <= b < self.records@.len() && a != b implies #[trigger] self.records@[a].id
                        != #[trigger] self.records@[b].id by {
                        let sa = if a < ii { a } else { a + 1 };
                        let sb = if b < ii { b } else { b + 1 };
                        assert(self.records@[a] == before[sa] && self.records@[b] == before[sb]);
                    }
                    assert forall|r: RefreshTokenRecord|
                        #[trigger] self.records@.contains(r) <==> before.contains(r) && r.token_hash@
                            != token_hash@ by {
                        if self.records@.contains(r) {
                            let k = choose|k: int| 0 <= k < self.records@.len() && self.records@[k] == r;
                            let sk = if k < ii { k } else { k + 1 };
                            assert(self.records@[k] == before[sk]);
                            assert(before[sk].token_hash@ != before[ii].token_hash@);
                        }
                        if before.contains(r) && r.token_hash@ != token_hash@ {
                            let j = choose|j: int| 0 <= j < before.len() && before[j] == r;
                            assert(j != ii);
                            let k = if j < ii { j } else { j - 1 };
                            assert(self.records@[k] == before[j]);
                        }
                    }
                }
            },
        }
    }

    /// Deletes every record of a user: a sign-out on all devices.
    pub fn delete_user_refresh_tokens(&mut self, user_id: u128)
        requires
            old(self).wf(),
        ensures
            final(self).wf(),
            forall|r: RefreshTokenRecord|
                #[trigger] final(self).records@.contains(r) <==> old(self).records@.contains(r) && r.user_id
                    != user_id,
    {
        let mut kept: Vec<RefreshTokenRecord> = Vec::new();
        let mut i: usize = 0;
        while i < self.records.len()
            invariant
                self.wf(),
                *self == *old(self),
                i <= self.records@.len(),
                forall|k: int| 0 <= k < kept@.len() ==> #[trigger] kept@[k].user_id != user_id,
                forall|k: int|
                    0 <= k < kept@.len() ==> exists|j: int|
                        0 <= j < i && self.records@[j] == #[trigger] kept@[k],
                forall|j: int|
                    0 <= j < i && self.records@[j].user_id != user_id ==> kept@.contains(
                        #[trigger] self.records@[j],
                    ),
                forall|a: int, b: int|
                    0 <= a < kept@.len() && 0 <= b < kept@.len() && a != b ==> #[trigger] kept@[a].token_hash@
                        != #[trigger] kept@[b].token_hash@ && kept@[a].id != kept@[b].id,
            decreases self.records@.len() - i,
        {
            if self.records[i].user_id != user_id {
                let rec = self.records[i].duplicate();
                let ghost before = kept@;
                proof {
                    assert forall|k: int| 0 <= k < before.len() implies before[k].token_hash@ != rec.token_hash@
                        && before[k].id != rec.id by {
                        let j = choose|j: int| 0 <= j < i && self.records@[j] == before[k];
                        assert(self.records@[j].token_hash@ != self.records@[i as int].token_hash@);
                        assert(self.records@[j].id != self.records@[i as int].id);
                    }
                }
                kept.push(rec);
                proof {
                    assert(kept@[before.len() as int] == rec);
                    assert forall|k: int| 0 <= k < kept@.len() implies exists|j: int|
                        0 <= j < i + 1 && self.records@[j] == #[trigger] kept@[k] by {
                        if k < before.len() {
                            assert(kept@[k] == before[k]);
                            let j = choose|j: int| 0 <= j < i && self.records@[j] == before[k];
                        } else {
                            assert(self.records@[i as int] == kept@[k]);
                        }
                    }
                    assert forall|j: int|
                        0 <= j < i + 1 && self.records@[j].user_id != user_id implies kept@.contains(
                        #[trigger] self.records@[j],
                    ) by {
                        if j < i {
                            let k = choose|k: int| 0 <= k < before.len() && before[k] == self.records@[j];
                            assert(kept@[k] == before[k]);
                        } else {
                            assert(kept@[before.len() as int] == self.records@[j]);
                        }
                    }
                    assert forall|a: int, b: int|
                        0 <= a < kept@.len() && 0 <= b < kept@.len() && a != b implies #[trigger] kept@[a].token_hash@
                        != #[trigger] kept@[b].token_hash@ && kept@[a].id != kept@[b].id by {
                        if a < before.len() {
                            assert(kept@[a] == before[a]);
                        }
                        if b < before.len() {
                            assert(kept@[b] == before[b]);
                        }
                    }
                }
            } else {
                proof {
                    assert forall|k: int| 0 <= k < kept@.len() implies exists|j: int|
                        0 <= j < i + 1 && self.records@[j] == #[trigger] kept@[k] by {
                        let j = choose|j: int| 0 <= j < i && self.records@[j] == kept@[k];
                    }
                }
            }
            i += 1;
        }
        let ghost initial = self.records@;
        self.records = kept;
        proof {
            let n = initial.len() as int;
            assert forall|a: int, b: int|
                0 <= a < self.records@.len() && 0 <= b < self.records@.len() && a != b implies #[trigger] self.records@[a].id
                != #[trigger] self.records@[b].id by {
                assert(self.records@[a].token_hash@ != self.records@[b].token_hash@ && self.records@[a].id
                    != self.records@[b].id);
            }
            assert forall|r: RefreshTokenRecord|
                #[trigger] self.records@.contains(r) <==> initial.contains(r) && r.user_id != user_id by {
                if self.records@.contains(r) {
                    let k = choose|k: int| 0 <= k < self.records@.len() && self.records@[k] == r;
                    let j = choose|j: int| 0 <= j < n && initial[j] == self.records@[k];
                }
                if initial.contains(r) && r.user_id != user_id {
                    let j = choose|j: int| 0 <= j < n && initial[j] == r;
                }
            }
        }
    }
}

/// Rotation never leaves a user without a refresh token: storing the new
/// record first keeps the old one valid until the new one is in place, and
/// deleting the old one afterwards leaves the new one.
pub proof fn lemma_rotation_keeps_a_token(
    start: Seq<RefreshTokenRecord>,
    stored: Seq<RefreshTokenRecord>,
    rotated: Seq<RefreshTokenRecord>,
    fresh: RefreshTokenRecord,
    old_hash: Seq<char>,
)
    requires
        stored == start.push(fresh),
        fresh.revoked_at is None,
        fresh.token_hash@ != old_hash,
        forall|x: RefreshTokenRecord| #[trigger] rotated.contains(x) <==> stored.contains(x) && x.token_hash@ != old_hash,
    ensures
        forall|x: RefreshTokenRecord| start.contains(x) ==> #[trigger] stored.contains(x),
        holds_token(stored, fresh.user_id),
        holds_token(rotated, fresh.user_id),
{
    let n = start.len() as int;
    assert(stored[n] == fresh);
    assert forall|x: RefreshTokenRecord| start.contains(x) implies #[trigger] stored.contains(x) by {
        let j = choose|j: int| 0 <= j < n && start[j] == x;
        assert(stored[j] == x);
    }
    assert(stored.contains(fresh));
    assert(rotated.contains(fresh));
    let k = choose|k: int| 0 <= k < rotated.len() && rotated[k] == fresh;
    assert(rotated[k].user_id == fresh.user_id);
}

} // verus!
