//! The verifier's side of the protocol: a session store mapping identities to
//! their registered commitments and attempt identifiers to identities, and
//! the three operations that drive an authentication attempt through
//! registration, challenge and verification.
//!
//! The two maps live under one lock domain: the store itself is a plain
//! value, and a caller that serves concurrent connections wraps the whole
//! store in a single lock, which rules out any lock-ordering hazard between
//! the maps.

use vstd::hash_map::StringHashMap;
use vstd::prelude::*;

use num_bigint::BigUint;

use crate::bignum::biguint_clone;
use crate::bignum::biguint_from_u64;
use crate::bignum::nat_of;
use crate::zkp::is_alnum;
use crate::zkp::verify_spec;
use crate::zkp::ZKP;

verus! {

/// Why an operation failed: the identity or attempt identifier is unknown,
/// or the algebraic check rejected the response. `Rejected` carries the
/// attempt identifier and nothing else, so a rejection reveals nothing about
/// the secret beyond "invalid".
#[derive(Debug)]
pub enum AuthError {
    NotFound(String),
    Rejected(String),
}

/// One registered identity: the registration commitments `y1`, `y2`, and the
/// fields `r1`, `r2`, `c` of the one outstanding challenge (zero until a
/// challenge is issued; a new challenge overwrites the prior one).
pub struct UserInfo {
    pub user_name: String,
    pub y1: BigUint,
    pub y2: BigUint,
    pub r1: BigUint,
    pub r2: BigUint,
    pub c: BigUint,
    pub s: BigUint,
    pub session_id: String,
}

/// The values a stored record holds.
#[verifier::ext_equal]
pub ghost struct UserInfoView {
    pub user_name: Seq<char>,
    pub y1: nat,
    pub y2: nat,
    pub r1: nat,
    pub r2: nat,
    pub c: nat,
    pub s: nat,
    pub session_id: Seq<char>,
}

impl View for UserInfo {
    type V = UserInfoView;

    open spec fn view(&self) -> UserInfoView {
        UserInfoView {
            user_name: self.user_name@,
            y1: nat_of(self.y1),
            y2: nat_of(self.y2),
            r1: nat_of(self.r1),
            r2: nat_of(self.r2),
            c: nat_of(self.c),
            s: nat_of(self.s),
            session_id: self.session_id@,
        }
    }
}

/// The record registration writes: the commitments of the new identity, with
/// no challenge outstanding.
pub open spec fn registered_user(name: Seq<char>, y1: nat, y2: nat) -> UserInfoView {
    UserInfoView {
        user_name: name,
        y1,
        y2,
        r1: 0,
        r2: 0,
        c: 0,
        s: 0,
        session_id: Seq::empty(),
    }
}

/// The record after a challenge is issued: the ephemeral commitments and the
/// challenge are written, everything else is kept.
pub open spec fn challenged_user(u: UserInfoView, r1: nat, r2: nat, c: nat) -> UserInfoView {
    UserInfoView { r1, r2, c, ..u }
}

/// The session store: identities to records, and outstanding attempt
/// identifiers to the identity they refer to.
pub struct AuthImpl {
    pub user_info: StringHashMap<UserInfo>,
    pub auth_id_to_user: StringHashMap<String>,
}

impl AuthImpl {
    /// The registered identities, by name.
    pub open spec fn users(self) -> Map<Seq<char>, UserInfoView> {
        self.user_info@.map_values(|u: UserInfo| u@)
    }

    /// The outstanding attempts: attempt identifier to identity.
    pub open spec fn attempts(self) -> Map<Seq<char>, Seq<char>> {
        self.auth_id_to_user@.map_values(|n: String| n@)
    }

    /// Every outstanding attempt refers to a registered identity.
    pub open spec fn wf(self) -> bool {
        forall|a: Seq<char>|
            #[trigger] self.attempts().dom().contains(a) ==> self.users().dom().contains(
                self.attempts()[a],
            )
    }
}

impl Default for AuthImpl {
    /// An empty store: no identities, no outstanding attempts.
    fn default() -> (r: Self)
        ensures
            r.users() == Map::<Seq<char>, UserInfoView>::empty(),
            r.attempts() == Map::<Seq<char>, Seq<char>>::empty(),
            r.wf(),
    {
        let r = AuthImpl { user_info: StringHashMap::new(), auth_id_to_user: StringHashMap::new() };
        proof {
            assert(r.users() =~= Map::<Seq<char>, UserInfoView>::empty());
            assert(r.attempts() =~= Map::<Seq<char>, Seq<char>>::empty());
        }
        r
    }
}

impl AuthImpl {
    /// Inserts or replaces the record of an identity with the given
    /// commitments. Idempotent overwrite; no error condition.
    pub fn register(&mut self, user_name: String, y1: BigUint, y2: BigUint)
        requires
            old(self).wf(),
        ensures
            final(self).wf(),
            final(self).attempts() == old(self).attempts(),
            final(self).users() == old(self).users().insert(
                user_name@,
                registered_user(user_name@, nat_of(y1), nat_of(y2)),
            ),
    {
        let name_copy = user_name.clone();
        let info = UserInfo {
            user_name: name_copy,
            y1,
            y2,
            r1: biguint_from_u64(0),
            r2: biguint_from_u64(0),
            c: biguint_from_u64(0),
            s: biguint_from_u64(0),
            session_id: String::new(),
        };
        self.user_info.insert(user_name, info);
        proof {
            assert(self.users() =~~= old(self).users().insert(
                user_name@,
                registered_user(user_name@, nat_of(y1), nat_of(y2)),
            ));
            assert(self.attempts() =~= old(self).attempts());
        }
    }

    /// Issues a challenge to a registered identity: records the prover's
    /// ephemeral commitments and a fresh random challenge on the record,
    /// binds a fresh attempt identifier to the identity, and returns both.
    /// Fails with `NotFound`, leaving the store unchanged, exactly when the
    /// identity was never registered.
    pub fn create_authentication_challenge(
        &mut self,
        zkp: &ZKP,
        user_name: String,
        r1: BigUint,
        r2: BigUint,
    ) -> (res: Result<(String, BigUint), AuthError>)
        requires
            old(self).wf(),
            nat_of(zkp.q) > 0,
        ensures
            final(self).wf(),
            match res {
                Ok(pair) => {
                    &&& old(self).users().dom().contains(user_name@)
                    &&& pair.0@.len() == 12
                    &&& (forall|i: int| 0 <= i < pair.0@.len() ==> is_alnum(#[trigger] pair.0@[i]))
                    &&& nat_of(pair.1) < zkp@.q
                    &&& final(self).attempts() == old(self).attempts().insert(
                        pair.0@,
                        user_name@,
                    )
                    &&& final(self).users() == old(self).users().insert(
                        user_name@,
                        challenged_user(
                            old(self).users()[user_name@],
                            nat_of(r1),
                            nat_of(r2),
                            nat_of(pair.1),
                        ),
                    )
                },
                Err(e) => {
                    &&& e matches AuthError::NotFound(n) && n@ == user_name@
                    &&& !old(self).users().dom().contains(user_name@)
                    &&& final(self).users() == old(self).users()
                    &&& final(self).attempts() == old(self).attempts()
                },
            },
    {
        let found = self.user_info.get(user_name.as_str());
        match found {
            Some(info) => {
                let c = ZKP::generate_random_number_below(&zkp.q);
                let auth_id = ZKP::generate_random_string(12);
                let updated = UserInfo {
                    user_name: info.user_name.clone(),
                    y1: biguint_clone(&info.y1),
                    y2: biguint_clone(&info.y2),
                    r1,
                    r2,
                    c: biguint_clone(&c),
                    s: biguint_clone(&info.s),
                    session_id: info.session_id.clone(),
                };
                self.user_info.insert(user_name.clone(), updated);
                self.auth_id_to_user.insert(auth_id.clone(), user_name);
                proof {
                    assert(self.users() =~~= old(self).users().insert(
                        user_name@,
                        challenged_user(
                            old(self).users()[user_name@],
                            nat_of(r1),
                            nat_of(r2),
                            nat_of(c),
                        ),
                    ));
                    assert(self.attempts() =~= old(self).attempts().insert(
                        auth_id@,
                        user_name@,
                    ));
                }
                Ok((auth_id, c))
            },
            None => Err(AuthError::NotFound(user_name)),
        }
    }

    /// Verifies a prover's response to an outstanding attempt. Fails with
    /// `NotFound`, leaving the store unchanged, exactly when the attempt
    /// identifier is unknown. Otherwise the stored record is checked against
    /// the response: on success the attempt is consumed and a fresh session
    /// token is returned; on an invalid response the attempt is kept and the
    /// call fails with `Rejected`, which carries the attempt identifier and
    /// nothing else.
    pub fn verify_authentication(&mut self, zkp: &ZKP, auth_id: String, s: BigUint) -> (res:
        Result<String, AuthError>)
        requires
            old(self).wf(),
            nat_of(zkp.p) > 0,
        ensures
            final(self).wf(),
            final(self).users() == old(self).users(),
            match res {
                Ok(token) => {
                    &&& old(self).attempts().dom().contains(auth_id@)
                    &&& verify_spec(
                        old(self).users()[old(self).attempts()[auth_id@]].r1,
                        old(self).users()[old(self).attempts()[auth_id@]].r2,
                        old(self).users()[old(self).attempts()[auth_id@]].y1,
                        old(self).users()[old(self).attempts()[auth_id@]].y2,
                        old(self).users()[old(self).attempts()[auth_id@]].c,
                        nat_of(s),
                        zkp@,
                    )
                    &&& token@.len() == 12
                    &&& (forall|i: int| 0 <= i < token@.len() ==> is_alnum(#[trigger] token@[i]))
                    &&& final(self).attempts() == old(self).attempts().remove(auth_id@)
                },
                Err(e) => {
                    &&& final(self).attempts() == old(self).attempts()
                    &&& match e {
                        AuthError::NotFound(id) => {
                            &&& id@ == auth_id@
                            &&& !old(self).attempts().dom().contains(auth_id@)
                        },
                        AuthError::Rejected(id) => {
                            &&& id@ == auth_id@
                            &&& old(self).attempts().dom().contains(auth_id@)
                            &&& !verify_spec(
                                old(self).users()[old(self).attempts()[auth_id@]].r1,
                                old(self).users()[old(self).attempts()[auth_id@]].r2,
                                old(self).users()[old(self).attempts()[auth_id@]].y1,
                                old(self).users()[old(self).attempts()[auth_id@]].y2,
                                old(self).users()[old(self).attempts()[auth_id@]].c,
                                nat_of(s),
                                zkp@,
                            )
                        },
                    }
                },
            },
    {
        let found = self.auth_id_to_user.get(auth_id.as_str());
        match found {
            Some(name_ref) => {
                let user_name = name_ref.clone();
                let info_found = self.user_info.get(user_name.as_str());
                match info_found {
                    Some(info) => {
                        let ok = zkp.verify(&info.r1, &info.r2, &info.y1, &info.y2, &info.c, &s);
                        if ok {
                            let session_id = ZKP::generate_random_string(12);
                            self.auth_id_to_user.remove(auth_id.as_str());
                            proof {
                                assert(self.attempts() =~= old(self).attempts().remove(auth_id@));
                            }
                            Ok(session_id)
                        } else {
                            Err(AuthError::Rejected(auth_id))
                        }
                    },
                    None => {
                        proof {
                            assert(self.attempts().dom().contains(auth_id@));
                            assert(self.attempts()[auth_id@] == user_name@);
                            assert(self.users().dom().contains(user_name@));
                            assert(false);
                        }
                        Err(AuthError::NotFound(auth_id))
                    },
                }
            },
            None => Err(AuthError::NotFound(auth_id)),
        }
    }
}

} // verus!
