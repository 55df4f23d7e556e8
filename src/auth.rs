use vstd::prelude::*;
use vstd::string::StringExecFns;
use crate::dto::{registration_ok, validate_registration, AuthResponse, LoginRequest, RegisterRequest, SignedIn};
use crate::error::ApiError;
use crate::ledger::{has_hash, has_record_id, holds_token, is_live, record_with, RefreshTokenRecord, TokenLedger};
use crate::models::{copy_text, profile_of, User, UserProfile, UserRole};
use crate::token::{build_claims, claims_for, hash_token, sha256_hex_of, Claims, TokenConfig, TokenError, TokenKind};
use crate::users::{email_taken, has_user, new_account, user_at, user_by_email, UserStore};

verus! {

/// How long a stored refresh token stays valid on the ledger's side: 7 days.
pub const REFRESH_RECORD_TTL: i64 = 604800;

/// `rs` holds the record of a refresh token issued now for `user_id`.
pub open spec fn stores_issued(rs: RefreshTokenRecord, id: u128, user_id: u128, token: Seq<char>, now: i64) -> bool {
    &&& rs.id == id
    &&& rs.user_id == user_id
    &&& rs.token_hash@ == sha256_hex_of(token)
    &&& rs.expires_at == now + REFRESH_RECORD_TTL
    &&& rs.revoked_at is None
    &&& rs.created_at == now
}

/// `tokens` is a pair issued now for `u` by `sign`: an access token and a
/// refresh token over the claims of each kind, both carrying `jti`.
pub open spec fn pair_signed_for<S: Fn(Claims) -> Result<String, ApiError>>(
    sign: S,
    config: TokenConfig,
    u: User,
    store_id: u128,
    jti: u128,
    now: i64,
    tokens: AuthResponse,
) -> bool {
    &&& exists|c: Claims|
        claims_for(TokenKind::Access, u.id, u.email@, u.role, store_id, jti, now, config, c) && sign.ensures(
            (c,),
            Ok(tokens.access_token),
        )
    &&& exists|c: Claims|
        claims_for(TokenKind::Refresh, u.id, u.email@, u.role, store_id, jti, now, config, c) && sign.ensures(
            (c,),
            Ok(tokens.refresh_token),
        )
    &&& tokens.token_type@ == "Bearer"@
    &&& tokens.expires_in == config.access_ttl
}

/// Tokens issued now can be dated: both expiries and the ledger's fit.
pub open spec fn datable(config: TokenConfig, now: i64) -> bool {
    &&& now + REFRESH_RECORD_TTL <= i64::MAX
    &&& i64::MIN <= now + config.access_ttl <= i64::MAX
    &&& i64::MIN <= now + config.refresh_ttl <= i64::MAX
}

/// The signer refuses some claims.
pub open spec fn sign_may_fail<S: Fn(Claims) -> Result<String, ApiError>>(sign: S) -> bool {
    exists|c: Claims, e: ApiError| sign.ensures((c,), Err(e))
}

/// Some token the signer may hand back has its digest stored already.
pub open spec fn digest_taken<S: Fn(Claims) -> Result<String, ApiError>>(
    sign: S,
    records: Seq<RefreshTokenRecord>,
) -> bool {
    exists|c: Claims, t: String| sign.ensures((c,), Ok(t)) && has_hash(records, sha256_hex_of(t@))
}

/// A pair can be signed and its refresh token stored: the instants fit,
/// the signer does not refuse, no digest it may produce is stored, and the
/// record id is free.
pub open spec fn issuable<S: Fn(Claims) -> Result<String, ApiError>>(
    sign: S,
    config: TokenConfig,
    records: Seq<RefreshTokenRecord>,
    new_token_id: u128,
    now: i64,
) -> bool {
    &&& datable(config, now)
    &&& !sign_may_fail(sign)
    &&& !digest_taken(sign, records)
    &&& !has_record_id(records, new_token_id)
}

/// The ledger after a sign-in: the new record, and the old records but
/// those of the user where the sign-in ends the user's other sessions.
pub open spec fn signed_in_ledger(
    before: Seq<RefreshTokenRecord>,
    after: Seq<RefreshTokenRecord>,
    rec: RefreshTokenRecord,
    user_id: u128,
    single_session: bool,
) -> bool {
    forall|x: RefreshTokenRecord|
        #[trigger] after.contains(x) <==> x == rec || (before.contains(x) && (!single_session || x.user_id
            != user_id))
}

/// A sign-in stored its refresh token under a new record and kept the
/// records [`signed_in_ledger`] keeps.
pub open spec fn recorded_sign_in(
    before: Seq<RefreshTokenRecord>,
    after: Seq<RefreshTokenRecord>,
    id: u128,
    user_id: u128,
    token: Seq<char>,
    now: i64,
    single_session: bool,
) -> bool {
    exists|rec: RefreshTokenRecord|
        stores_issued(rec, id, user_id, token, now) && signed_in_ledger(before, after, rec, user_id, single_session)
}

/// What a refused registration leaves: nothing changed, and the error by
/// the first check that failed. Past the request's own checks only the
/// signer or a stored digest or id can refuse it.
pub open spec fn register_refusal<S: Fn(Claims) -> Result<String, ApiError>>(
    before: Accounts,
    after: Accounts,
    config: TokenConfig,
    store_id: u128,
    req: RegisterRequest,
    new_user_id: u128,
    new_token_id: u128,
    now: i64,
    sign: S,
    e: ApiError,
) -> bool {
    &&& after == before
    &&& if !registration_ok(req) {
        e is Validation
    } else if email_taken(before.users.users@, store_id, req.email@) {
        e is Conflict
    } else if has_user(before.users.users@, new_user_id) {
        e is Database
    } else {
        (e is Internal || e is Database) && !issuable(sign, config, before.tokens.records@, new_token_id, now)
    }
}

/// Why a sign-in was refused; nothing changes. An unknown email and a
/// password the verifier rejects give the same `Unauthorized`; a disabled
/// account gives `Forbidden`; past those checks only the signer or a stored
/// digest or id can refuse it.
pub open spec fn login_refusal<S: Fn(Claims) -> Result<String, ApiError>, V: Fn(String, String) -> bool>(
    before: Accounts,
    after: Accounts,
    config: TokenConfig,
    store_id: u128,
    req: LoginRequest,
    new_token_id: u128,
    now: i64,
    verify: V,
    sign: S,
    e: ApiError,
) -> bool {
    let taken = email_taken(before.users.users@, store_id, req.email@);
    let u = user_by_email(before.users.users@, store_id, req.email@);
    &&& after == before
    &&& {
        ||| (e matches ApiError::Unauthorized(m) && m@ == "Invalid credentials"@ && (!taken || verify.ensures(
            (req.password, u.password_hash),
            false,
        )))
        ||| (e is Forbidden && taken && verify.ensures((req.password, u.password_hash), true) && !u.is_active)
        ||| ((e is Internal || e is Database) && taken && verify.ensures((req.password, u.password_hash), true)
            && u.is_active && !issuable(sign, config, before.tokens.records@, new_token_id, now))
    }
}

/// Why a refresh was refused, by the first check that failed, and what it
/// left. An unknown and a revoked token are not told apart.
pub open spec fn refresh_refusal<S: Fn(Claims) -> Result<String, ApiError>>(
    before: Accounts,
    after: Accounts,
    config: TokenConfig,
    refresh_token: Seq<char>,
    checked: Result<Claims, TokenError>,
    new_token_id: u128,
    now: i64,
    sign: S,
    e: ApiError,
) -> bool {
    let h = sha256_hex_of(refresh_token);
    let rec = record_with(before.tokens.records@, h);
    &&& after.users == before.users
    &&& if checked is Err {
        e is Unauthorized && after == before
    } else if !is_live(before.tokens.records@, h) {
        e is Unauthorized && after == before
    } else if rec.expires_at < now {
        e is Unauthorized && forall|x: RefreshTokenRecord|
            #[trigger] after.tokens.records@.contains(x) <==> before.tokens.records@.contains(x) && x.token_hash@
                != h
    } else if !has_user(before.users.users@, rec.user_id) {
        e is Unauthorized && after == before
    } else if !user_at(before.users.users@, rec.user_id).is_active {
        e is Forbidden && after == before
    } else {
        (e is Internal || e is Database) && after == before && !issuable(
            sign,
            config,
            before.tokens.records@,
            new_token_id,
            now,
        )
    }
}

/// A password hash that matches no password, checked against when the
/// email is unknown so that both refusals take the same time.
pub const DUMMY_PASSWORD_HASH: &'static str =
    "$argon2id$v=19$m=19456,t=2,p=1$c29tZXNhbHRzb21lc2FsdA$AAAAAAAAAAAAAAAAAAAAAAAAAAAAAAAAAAAAAAAAAAA";

/// Email is unique per store: once an account is recorded for an email,
/// a second valid registration with that email in that store is refused
/// with `Conflict` and records no account.
pub proof fn lemma_email_unique_per_store<S: Fn(Claims) -> Result<String, ApiError>>(
    first: Accounts,
    second: Accounts,
    after: Accounts,
    account: User,
    config: TokenConfig,
    store_id: u128,
    req: RegisterRequest,
    new_user_id: u128,
    new_token_id: u128,
    now: i64,
    sign: S,
    e: ApiError,
)
    requires
        second.users.users@ == first.users.users@.push(account),
        account.store_id == store_id,
        account.email@ == req.email@,
        registration_ok(req),
        register_refusal(second, after, config, store_id, req, new_user_id, new_token_id, now, sign, e),
    ensures
        e is Conflict,
        after.users == second.users,
{
    let n = first.users.users@.len() as int;
    assert(second.users.users@[n] == account);
    assert(email_taken(second.users.users@, store_id, req.email@));
}

/// Builds and signs the claims of both tokens for `u`.
fn sign_pair<S: Fn(Claims) -> Result<String, ApiError>>(
    config: &TokenConfig,
    u: &User,
    store_id: u128,
    jti: u128,
    now: i64,
    sign: &S,
) -> (r: Result<AuthResponse, ApiError>)
    requires
        forall|c: Claims| sign.requires((c,)),
    ensures
        r matches Ok(t) ==> pair_signed_for(*sign, *config, *u, store_id, jti, now, t) && datable(*config, now),
        r matches Err(e) ==> e is Internal && (!datable(*config, now) || sign_may_fail(*sign)),
{
    if now > i64::MAX - REFRESH_RECORD_TTL {
        return Err(ApiError::internal(String::from_str("Token generation failed: expiry out of range")));
    }
    let access_claims = match build_claims(TokenKind::Access, u.id, u.email.clone(), u.role, store_id, jti, now, config) {
        Ok(c) => c,
        Err(e) => {
            return Err(e);
        },
    };
    let refresh_claims = match build_claims(TokenKind::Refresh, u.id, u.email.clone(), u.role, store_id, jti, now, config) {
        Ok(c) => c,
        Err(e) => {
            return Err(e);
        },
    };
    let ghost ac = access_claims;
    let ghost rc = refresh_claims;
    let access_token = match sign(access_claims) {
        Ok(t) => t,
        Err(e) => {
            proof {
                assert(sign.ensures((ac,), Err(e)));
            }
            return Err(ApiError::internal(String::from_str("Token generation failed")));
        },
    };
    let refresh_token = match sign(refresh_claims) {
        Ok(t) => t,
        Err(e) => {
            proof {
                assert(sign.ensures((rc,), Err(e)));
            }
            return Err(ApiError::internal(String::from_str("Token generation failed")));
        },
    };
    let out = AuthResponse::new(access_token, refresh_token, config.access_ttl);
    proof {
        assert(claims_for(TokenKind::Access, u.id, u.email@, u.role, store_id, jti, now, *config, ac));
        assert(claims_for(TokenKind::Refresh, u.id, u.email@, u.role, store_id, jti, now, *config, rc));
    }
    Ok(out)
}

/// The accounts and the refresh tokens issued to them.
#[derive(Debug, Clone)]
pub struct Accounts {
    pub users: UserStore,
    pub tokens: TokenLedger,
}

impl Accounts {
    pub open spec fn wf(&self) -> bool {
        self.users.wf() && self.tokens.wf()
    }

    pub fn new() -> (r: Self)
        ensures
            r.wf(),
            r.users.users@.len() == 0,
            r.tokens.records@.len() == 0,
    {
        Accounts { users: UserStore::new(), tokens: TokenLedger::new() }
    }

    /// Stores the digest of a freshly signed refresh token, unless it or the
    /// record id is stored already (`Database`, nothing changes).
    fn store_issued<S: Fn(Claims) -> Result<String, ApiError>>(
        &mut self,
        user_id: u128,
        token: &String,
        new_token_id: u128,
        now: i64,
        sign: &S,
    ) -> (r: Result<(), ApiError>)
        requires
            old(self).wf(),
            now + REFRESH_RECORD_TTL <= i64::MAX,
            exists|c: Claims| sign.ensures((c,), Ok(*token)),
        ensures
            final(self).wf(),
            final(self).users == old(self).users,
            r matches Err(e) ==> e is Database && *final(self) == *old(self) && (digest_taken(
                *sign,
                old(self).tokens.records@,
            ) || has_record_id(old(self).tokens.records@, new_token_id)) && (has_hash(
                old(self).tokens.records@,
                sha256_hex_of(token@),
            ) || has_record_id(old(self).tokens.records@, new_token_id)),
            r is Ok ==> !has_hash(old(self).tokens.records@, sha256_hex_of(token@)) && exists|rec: RefreshTokenRecord|
                stores_issued(rec, new_token_id, user_id, token@, now) && final(self).tokens.records@
                    == old(self).tokens.records@.push(rec),
    {
        let digest = hash_token(token.as_str());
        let ghost before = self.tokens.records@;
        match self.tokens.create_refresh_token(new_token_id, user_id, digest, now + REFRESH_RECORD_TTL, now) {
            Ok(()) => {},
            Err(e) => {
                proof {
                    let c = choose|c: Claims| sign.ensures((c,), Ok(*token));
                    if has_hash(before, digest@) {
                        assert(sign.ensures((c,), Ok(*token)) && has_hash(before, sha256_hex_of(token@)));
                    }
                }
                return Err(e);
            },
        }
        proof {
            let rec = self.tokens.records@.last();
            assert(self.tokens.records@ == before.push(rec));
            assert(stores_issued(rec, new_token_id, user_id, token@, now));
        }
        Ok(())
    }

    /// Opens a customer account and signs it in.
    ///
    /// The request is checked first (`Validation`), then the email must be
    /// free in the store (`Conflict`). The pair is signed and its digest
    /// checked against the ledger before anything is recorded, so a refused
    /// registration records nothing. The account keeps the given password
    /// hash, never the password; the refresh token is stored for 7 days.
    pub fn register<S: Fn(Claims) -> Result<String, ApiError>>(
        &mut self,
        config: &TokenConfig,
        store_id: u128,
        req: RegisterRequest,
        password_hash: String,
        new_user_id: u128,
        new_token_id: u128,
        now: i64,
        sign: &S,
    ) -> (r: Result<SignedIn, ApiError>)
        requires
            old(self).wf(),
            forall|c: Claims| sign.requires((c,)),
        ensures
            final(self).wf(),
            registration_ok(req) && !email_taken(old(self).users.users@, store_id, req.email@) && !has_user(
                old(self).users.users@,
                new_user_id,
            ) && issuable(*sign, *config, old(self).tokens.records@, new_token_id, now) ==> r is Ok,
            r matches Ok(out) ==> {
                let u = new_account(
                    new_user_id,
                    store_id,
                    req.email,
                    password_hash,
                    req.first_name,
                    req.last_name,
                    now,
                );
                &&& registration_ok(req)
                &&& !email_taken(old(self).users.users@, store_id, req.email@)
                &&& final(self).users.users@ == old(self).users.users@.push(u)
                &&& out.user == profile_of(u)
                &&& pair_signed_for(*sign, *config, u, store_id, new_token_id, now, out.tokens)
                &&& exists|rec: RefreshTokenRecord|
                    stores_issued(rec, new_token_id, u.id, out.tokens.refresh_token@, now)
                        && final(self).tokens.records@ == old(self).tokens.records@.push(rec)
            },
            r matches Err(e) ==> register_refusal(
                *old(self),
                *final(self),
                *config,
                store_id,
                req,
                new_user_id,
                new_token_id,
                now,
                *sign,
                e,
            ),
    {
        match validate_registration(&req) {
            Ok(()) => {},
            Err(e) => {
                return Err(e);
            },
        }
        if self.users.find_user_by_email(store_id, req.email.as_str()).is_some() {
            return Err(ApiError::conflict(String::from_str("Email already registered")));
        }
        if self.users.find_user_by_id(new_user_id).is_some() {
            return Err(ApiError::Database(String::from_str("user id already in use")));
        }
        let account = User {
            id: new_user_id,
            store_id,
            email: req.email.clone(),
            password_hash: password_hash.clone(),
            first_name: copy_text(&req.first_name),
            last_name: copy_text(&req.last_name),
            role: UserRole::Customer,
            is_active: true,
            created_at: now,
            updated_at: now,
        };
        let tokens = match sign_pair(config, &account, store_id, new_token_id, now, sign) {
            Ok(t) => t,
            Err(e) => {
                return Err(e);
            },
        };
        let digest = hash_token(tokens.refresh_token.as_str());
        if self.tokens.is_stored(digest.as_str()) || self.tokens.has_id(new_token_id) {
            proof {
                let c = choose|c: Claims|
                    claims_for(TokenKind::Refresh, account.id, account.email@, account.role, store_id, new_token_id, now, *config, c)
                        && sign.ensures((c,), Ok(tokens.refresh_token));
                assert(sign.ensures((c,), Ok(tokens.refresh_token)));
            }
            return Err(ApiError::Database(String::from_str("refresh token already stored")));
        }
        let user = match self.users.create_user(
            new_user_id,
            store_id,
            req.email,
            password_hash,
            req.first_name,
            req.last_name,
            now,
        ) {
            Ok(u) => u,
            Err(e) => {
                return Err(e);
            },
        };
        let ghost users_now = self.users;
        proof {
            let c = choose|c: Claims|
                claims_for(TokenKind::Refresh, account.id, account.email@, account.role, store_id, new_token_id, now, *config, c)
                    && sign.ensures((c,), Ok(tokens.refresh_token));
        }
        match self.store_issued(user.id, &tokens.refresh_token, new_token_id, now, sign) {
            Ok(()) => {},
            Err(e) => {
                return Err(e);
            },
        }
        proof {
            assert(account == user);
        }
        Ok(SignedIn { user: UserProfile::from_user(user), tokens })
    }

    /// Signs in with email and password.
    ///
    /// An unknown email and a wrong password give the same `Unauthorized`
    /// (an unknown email is still checked against a dummy hash); a disabled
    /// account gives `Forbidden`. The pair is signed and its digest checked
    /// against the ledger before anything changes, so a refused sign-in
    /// changes nothing. Then, with `single_session`, every refresh token the
    /// user held is deleted; without it, other devices stay signed in. The
    /// new token's digest is none of those the ledger held, so no revoked
    /// token comes back.
    pub fn login<S: Fn(Claims) -> Result<String, ApiError>, V: Fn(String, String) -> bool>(
        &mut self,
        config: &TokenConfig,
        store_id: u128,
        req: LoginRequest,
        new_token_id: u128,
        now: i64,
        single_session: bool,
        verify: &V,
        sign: &S,
    ) -> (r: Result<SignedIn, ApiError>)
        requires
            old(self).wf(),
            forall|c: Claims| sign.requires((c,)),
            forall|p: String, h: String| verify.requires((p, h)),
        ensures
            final(self).wf(),
            final(self).users == old(self).users,
            ({
                let u = user_by_email(old(self).users.users@, store_id, req.email@);
                email_taken(old(self).users.users@, store_id, req.email@) && verify.ensures(
                    (req.password, u.password_hash),
                    true,
                ) && !verify.ensures((req.password, u.password_hash), false) && u.is_active && issuable(
                    *sign,
                    *config,
                    old(self).tokens.records@,
                    new_token_id,
                    now,
                ) ==> r is Ok
            }),
            r matches Err(e) ==> login_refusal(
                *old(self),
                *final(self),
                *config,
                store_id,
                req,
                new_token_id,
                now,
                *verify,
                *sign,
                e,
            ),
            r matches Ok(out) ==> {
                let u = user_by_email(old(self).users.users@, store_id, req.email@);
                &&& email_taken(old(self).users.users@, store_id, req.email@)
                &&& verify.ensures((req.password, u.password_hash), true)
                &&& u.is_active
                &&& out.user == profile_of(u)
                &&& pair_signed_for(*sign, *config, u, store_id, new_token_id, now, out.tokens)
                &&& !has_hash(old(self).tokens.records@, sha256_hex_of(out.tokens.refresh_token@))
                &&& recorded_sign_in(
                    old(self).tokens.records@,
                    final(self).tokens.records@,
                    new_token_id,
                    u.id,
                    out.tokens.refresh_token@,
                    now,
                    single_session,
                )
                &&& single_session ==> forall|x: RefreshTokenRecord|
                    #[trigger] old(self).tokens.records@.contains(x) && x.user_id == u.id ==> !has_hash(
                        final(self).tokens.records@,
                        x.token_hash@,
                    )
            },
    {
        let user = match self.users.find_user_by_email(store_id, req.email.as_str()) {
            Some(u) => u,
            None => {
                let _ = verify(req.password, String::from_str(DUMMY_PASSWORD_HASH));
                return Err(ApiError::unauthorized(String::from_str("Invalid credentials")));
            },
        };
        if !verify(req.password, user.password_hash.clone()) {
            return Err(ApiError::unauthorized(String::from_str("Invalid credentials")));
        }
        if !user.is_active {
            return Err(ApiError::forbidden(String::from_str("Account is disabled")));
        }
        let tokens = match sign_pair(config, &user, store_id, new_token_id, now, sign) {
            Ok(t) => t,
            Err(e) => {
                return Err(e);
            },
        };
        let digest = hash_token(tokens.refresh_token.as_str());
        let ghost rc = choose|c: Claims|
            claims_for(TokenKind::Refresh, user.id, user.email@, user.role, store_id, new_token_id, now, *config, c)
                && sign.ensures((c,), Ok(tokens.refresh_token));
        if self.tokens.is_stored(digest.as_str()) || self.tokens.has_id(new_token_id) {
            proof {
                assert(sign.ensures((rc,), Ok(tokens.refresh_token)));
            }
            return Err(ApiError::Database(String::from_str("refresh token already stored")));
        }
        let ghost start = self.tokens.records@;
        if single_session {
            self.tokens.delete_user_refresh_tokens(user.id);
        }
        let ghost kept = self.tokens.records@;
        proof {
            assert forall|x: RefreshTokenRecord| kept.contains(x) implies start.contains(x) by {}
            if has_hash(kept, digest@) {
                let k = choose|k: int| 0 <= k < kept.len() && kept[k].token_hash@ == digest@;
                assert(kept.contains(kept[k]));
                assert(start.contains(kept[k]));
                let j = choose|j: int| 0 <= j < start.len() && start[j] == kept[k];
            }
            if has_record_id(kept, new_token_id) {
                let k = choose|k: int| 0 <= k < kept.len() && kept[k].id == new_token_id;
                assert(kept.contains(kept[k]));
                assert(start.contains(kept[k]));
                let j = choose|j: int| 0 <= j < start.len() && start[j] == kept[k];
            }
        }
        match self.tokens.create_refresh_token(new_token_id, user.id, digest, now + REFRESH_RECORD_TTL, now) {
            Ok(()) => {},
            Err(e) => {
                return Err(e);
            },
        }
        proof {
            let rec = self.tokens.records@.last();
            assert(self.tokens.records@ == kept.push(rec));
            assert(stores_issued(rec, new_token_id, user.id, tokens.refresh_token@, now));
            assert forall|x: RefreshTokenRecord| #[trigger] self.tokens.records@.contains(x) <==> x == rec || (
            start.contains(x) && (!single_session || x.user_id != user.id)) by {
                if self.tokens.records@.contains(x) && x != rec {
                    let k = choose|k: int| 0 <= k < self.tokens.records@.len() && self.tokens.records@[k] == x;
                    assert(k < kept.len());
                    assert(kept[k] == x);
                    assert(kept.contains(x));
                }
                if x == rec {
                    assert(self.tokens.records@[kept.len() as int] == x);
                }
                if start.contains(x) && (!single_session || x.user_id != user.id) {
                    assert(kept.contains(x));
                    let k = choose|k: int| 0 <= k < kept.len() && kept[k] == x;
                    assert(self.tokens.records@[k] == x);
                }
            }
            assert(signed_in_ledger(start, self.tokens.records@, rec, user.id, single_session));
            let u = user_by_email(old(self).users.users@, store_id, req.email@);
            assert(u.id == user.id);
            assert(recorded_sign_in(start, self.tokens.records@, new_token_id, u.id, tokens.refresh_token@, now, single_session));
            if single_session {
                assert forall|x: RefreshTokenRecord|
                    #[trigger] start.contains(x) && x.user_id == u.id implies !has_hash(
                    self.tokens.records@,
                    x.token_hash@,
                ) by {
                    if has_hash(self.tokens.records@, x.token_hash@) {
                        let k = choose|k: int|
                            0 <= k < self.tokens.records@.len() && self.tokens.records@[k].token_hash@ == x.token_hash@;
                        let y = self.tokens.records@[k];
                        assert(self.tokens.records@.contains(y));
                        let a = choose|a: int| 0 <= a < start.len() && start[a] == x;
                        if y == rec {
                            assert(has_hash(start, digest@));
                        } else {
                            assert(start.contains(y) && y.user_id != u.id);
                            let b = choose|b: int| 0 <= b < start.len() && start[b] == y;
                            assert(a != b);
                            assert(start[a].token_hash@ != start[b].token_hash@);
                        }
                    }
                }
            }
        }
        Ok(SignedIn { user: UserProfile::from_user(user), tokens })
    }

    /// Trades a refresh token for a new pair.
    ///
    /// `checked` is the outcome of verifying the token's signature and
    /// expiry. The token must then be live on the ledger and unexpired
    /// there (an expired record is deleted), and its user must exist and be
    /// active. The new refresh token is stored before the old one is
    /// deleted, so a failure between the two never leaves the user without
    /// a valid refresh token.
    pub fn refresh<S: Fn(Claims) -> Result<String, ApiError>>(
        &mut self,
        config: &TokenConfig,
        refresh_token: &str,
        checked: Result<Claims, TokenError>,
        new_token_id: u128,
        now: i64,
        sign: &S,
    ) -> (r: Result<AuthResponse, ApiError>)
        requires
            old(self).wf(),
            forall|c: Claims| sign.requires((c,)),
        ensures
            final(self).wf(),
            final(self).users == old(self).users,
            ({
                let h = sha256_hex_of(refresh_token@);
                let rec = record_with(old(self).tokens.records@, h);
                is_live(old(self).tokens.records@, h) && rec.expires_at >= now ==> holds_token(
                    final(self).tokens.records@,
                    rec.user_id,
                )
            }),
            ({
                let h = sha256_hex_of(refresh_token@);
                let rec = record_with(old(self).tokens.records@, h);
                checked is Ok && is_live(old(self).tokens.records@, h) && rec.expires_at >= now && has_user(
                    old(self).users.users@,
                    rec.user_id,
                ) && user_at(old(self).users.users@, rec.user_id).is_active && issuable(
                    *sign,
                    *config,
                    old(self).tokens.records@,
                    new_token_id,
                    now,
                ) ==> r is Ok
            }),
            r matches Ok(out) ==> {
                let h = sha256_hex_of(refresh_token@);
                let rec = record_with(old(self).tokens.records@, h);
                let u = user_at(old(self).users.users@, rec.user_id);
                &&& checked matches Ok(c) && pair_signed_for(*sign, *config, u, c.store_id, new_token_id, now, out)
                &&& is_live(old(self).tokens.records@, h)
                &&& rec.expires_at >= now
                &&& has_user(old(self).users.users@, rec.user_id)
                &&& u.is_active
                &&& out.refresh_token@ != refresh_token@
                &&& exists|nr: RefreshTokenRecord|
                    stores_issued(nr, new_token_id, u.id, out.refresh_token@, now) && forall|x: RefreshTokenRecord|
                        #[trigger] final(self).tokens.records@.contains(x) <==> x == nr || (
                        old(self).tokens.records@.contains(x) && x.token_hash@ != h)
            },
            r matches Err(e) ==> refresh_refusal(
                *old(self),
                *final(self),
                *config,
                refresh_token@,
                checked,
                new_token_id,
                now,
                *sign,
                e,
            ),
    {
        let claims = match checked {
            Ok(c) => c,
            Err(e) => {
                return Err(e.to_api_error());
            },
        };
        let digest = hash_token(refresh_token);
        let (user_id, expires_at) = match self.tokens.find_refresh_token(digest.as_str()) {
            Some(found) => found,
            None => {
                return Err(ApiError::unauthorized(String::from_str("Invalid refresh token")));
            },
        };
        if expires_at < now {
            self.tokens.delete_refresh_token(digest.as_str());
            return Err(ApiError::unauthorized(String::from_str("Refresh token expired")));
        }
        let user = match self.users.find_user_by_id(user_id) {
            Some(u) => u,
            None => {
                return Err(ApiError::unauthorized(String::from_str("User not found")));
            },
        };
        if !user.is_active {
            return Err(ApiError::forbidden(String::from_str("Account is disabled")));
        }
        let ghost start = self.tokens.records@;
        let out = match sign_pair(config, &user, claims.store_id, new_token_id, now, sign) {
            Ok(t) => t,
            Err(e) => {
                return Err(e);
            },
        };
        proof {
            let c = choose|c: Claims|
                claims_for(TokenKind::Refresh, user.id, user.email@, user.role, claims.store_id, new_token_id, now, *config, c)
                    && sign.ensures((c,), Ok(out.refresh_token));
        }
        match self.store_issued(user.id, &out.refresh_token, new_token_id, now, sign) {
            Ok(()) => {},
            Err(e) => {
                return Err(e);
            },
        }
        let ghost issued = self.tokens.records@;
        self.tokens.delete_refresh_token(digest.as_str());
        proof {
            let nr = choose|nr: RefreshTokenRecord|
                stores_issued(nr, new_token_id, user.id, out.refresh_token@, now) && issued == start.push(nr);
            assert(issued[start.len() as int] == nr);
            assert(issued.contains(nr));
            assert(nr.token_hash@ != digest@) by {
                let k = choose|k: int| 0 <= k < start.len() && start[k].token_hash@ == digest@;
                assert(has_hash(start, digest@));
            }
            assert(out.refresh_token@ != refresh_token@);
            assert(self.tokens.records@.contains(nr));
            let k = choose|k: int| 0 <= k < self.tokens.records@.len() && self.tokens.records@[k] == nr;
            assert(holds_token(self.tokens.records@, user.id));
            assert forall|x: RefreshTokenRecord| #[trigger] self.tokens.records@.contains(x) <==> x == nr || (
            old(self).tokens.records@.contains(x) && x.token_hash@ != digest@) by {
                if issued.contains(x) && x != nr {
                    let j = choose|j: int| 0 <= j < issued.len() && issued[j] == x;
                    assert(j < start.len());
                    assert(start[j] == x);
                }
                if start.contains(x) {
                    let j = choose|j: int| 0 <= j < start.len() && start[j] == x;
                    assert(issued[j] == x);
                }
            }
        }
        Ok(out)
    }

    /// Signs a device out: the stored refresh token is deleted. It always
    /// succeeds. A token that does not verify is not looked up (nothing
    /// changes); one that verifies but is not stored is no error either.
    pub fn logout(&mut self, refresh_token: &str, checked: Result<Claims, TokenError>) -> (r: Result<(), ApiError>)
        requires
            old(self).wf(),
        ensures
            final(self).wf(),
            r is Ok,
            final(self).users == old(self).users,
            checked is Err ==> *final(self) == *old(self),
            checked is Ok ==> forall|x: RefreshTokenRecord|
                #[trigger] final(self).tokens.records@.contains(x) <==> old(self).tokens.records@.contains(x)
                    && x.token_hash@ != sha256_hex_of(refresh_token@),
    {
        match checked {
            Ok(_) => {
                let digest = hash_token(refresh_token);
                self.tokens.delete_refresh_token(digest.as_str());
            },
            Err(_) => {},
        }
        Ok(())
    }

    /// The profile of the account a request is signed in as.
    pub fn me(&self, user_id: u128) -> (r: Result<UserProfile, ApiError>)
        requires
            self.wf(),
        ensures
            r is Ok <==> has_user(self.users.users@, user_id),
            r matches Ok(p) ==> p == profile_of(user_at(self.users.users@, user_id)),
            r matches Err(e) ==> e is NotFound,
    {
        match self.users.find_user_by_id(user_id) {
            Some(u) => Ok(UserProfile::from_user(u)),
            None => Err(ApiError::not_found(String::from_str("User not found"))),
        }
    }
}

} // verus!
