use vstd::prelude::*;

use crate::security::Security;
use crate::security::bcrypt_accepts;
use crate::security::spec_after_check;
use crate::security::spec_is_locked;
use crate::security::spec_record_failure;
use crate::store::CredentialRecord;
use crate::store::StoreError;
use crate::store::TrustStore;
use crate::store::store_lookup;

verus! {

/// Why an authentication attempt was denied. The distinction exists for
/// internal logging only: every denial is reported outward with one
/// identical message (see the session module).
#[derive(Clone, Copy, PartialEq, Eq, Structural, Debug)]
pub enum DenyReason {
    RateLimited,
    InvalidUsername,
    InvalidCredentialOrIp,
}

/// The authenticator's verdict on one attempt.
#[derive(Clone, Copy, PartialEq, Eq, Structural, Debug)]
pub enum Decision {
    Allowed,
    Denied(DenyReason),
}

/// The credential rule: bcrypt accepts the presented password against the
/// stored hash, and the presented address equals the stored one exactly.
/// Both must hold.
pub open spec fn spec_credentials_ok(
    rec: CredentialRecord,
    password: Seq<char>,
    ip: Seq<char>,
) -> bool {
    bcrypt_accepts(password, rec.password_hash@) && ip == rec.allowed_ip@
}

/// The decision owed once the lookup outcome is known and the rate gate has
/// already passed: an unknown username is denied, a known one is allowed
/// exactly when the credential rule holds.
pub open spec fn spec_decide(
    lookup: Option<CredentialRecord>,
    password: Seq<char>,
    ip: Seq<char>,
) -> Decision {
    match lookup {
        None => Decision::Denied(DenyReason::InvalidUsername),
        Some(rec) => if spec_credentials_ok(rec, password, ip) {
            Decision::Allowed
        } else {
            Decision::Denied(DenyReason::InvalidCredentialOrIp)
        },
    }
}

/// The attempt map owed after the post-lookup step: a failure is recorded
/// exactly on a denial, never on success.
pub open spec fn spec_map_after_decide(
    m: Map<Seq<char>, (u32, u64)>,
    lookup: Option<CredentialRecord>,
    u: Seq<char>,
    password: Seq<char>,
    ip: Seq<char>,
    now: u64,
) -> Map<Seq<char>, (u32, u64)> {
    match lookup {
        None => spec_record_failure(m, u, now),
        Some(rec) => if spec_credentials_ok(rec, password, ip) {
            m
        } else {
            spec_record_failure(m, u, now)
        },
    }
}

/// The authenticator: composes the rate-limiting gate, the trust-store
/// lookup and the credential rule into one decision procedure.
pub struct Spirit;

impl Spirit {
    /// Step one of an attempt: the rate gate. A locked-out username is
    /// denied before any store lookup happens; otherwise the caller owes a
    /// lookup and a call of `complete_authentication` with its outcome.
    pub fn begin_authentication(security: &mut Security, username: &String, now: u64) -> (r:
        Option<Decision>)
        requires
            old(security).wf(),
        ensures
            final(security).wf(),
            final(security).spec_max_attempts() == old(security).spec_max_attempts(),
            final(security).spec_lockout_duration() == old(security).spec_lockout_duration(),
            r == (if spec_is_locked(
                old(security).attempts_map(),
                username@,
                old(security).spec_max_attempts(),
                old(security).spec_lockout_duration(),
                now,
            ) {
                Some(Decision::Denied(DenyReason::RateLimited))
            } else {
                None::<Decision>
            }),
            final(security).attempts_map() == spec_after_check(
                old(security).attempts_map(),
                username@,
                old(security).spec_max_attempts(),
                old(security).spec_lockout_duration(),
                now,
            ),
    {
        if security.is_rate_limited(username, now) {
            Some(Decision::Denied(DenyReason::RateLimited))
        } else {
            None
        }
    }

    /// Step two of an attempt: decide from the lookup outcome. A store
    /// fault propagates unchanged and records nothing; an unknown username
    /// and a failed credential rule each record one failure; a success
    /// leaves the attempt map untouched.
    pub fn complete_authentication(
        security: &mut Security,
        username: &String,
        password: &String,
        ip: &String,
        lookup: Result<Option<CredentialRecord>, StoreError>,
        now: u64,
    ) -> (r: Result<Decision, StoreError>)
        requires
            old(security).wf(),
        ensures
            final(security).wf(),
            final(security).spec_max_attempts() == old(security).spec_max_attempts(),
            final(security).spec_lockout_duration() == old(security).spec_lockout_duration(),
            lookup matches Err(e) ==> r == Err::<Decision, StoreError>(e) && final(security).attempts_map() == old(security).attempts_map(),
            lookup matches Ok(l) ==> r == Ok::<Decision, StoreError>(
                spec_decide(l, password@, ip@),
            ) && final(security).attempts_map() == spec_map_after_decide(
                old(security).attempts_map(),
                l,
                username@,
                password@,
                ip@,
                now,
            ),
    {
        match lookup {
            Err(e) => Err(e),
            Ok(None) => {
                security.record_attempt(username, now);
                Ok(Decision::Denied(DenyReason::InvalidUsername))
            },
            Ok(Some(rec)) => {
                if security.verify_password(password, &rec.password_hash)
                    && security.check_ip_allowed(ip, &rec.allowed_ip) {
                    Ok(Decision::Allowed)
                } else {
                    security.record_attempt(username, now);
                    Ok(Decision::Denied(DenyReason::InvalidCredentialOrIp))
                }
            },
        }
    }

    /// One attempt against a lookup outcome, reported as a plain yes or no:
    /// `Ok(true)` exactly when the username is known and the credential
    /// rule holds; a denial records one failure.
    pub fn authenticate_user(
        security: &mut Security,
        username: &String,
        password: &String,
        ip: &String,
        lookup: Result<Option<CredentialRecord>, StoreError>,
        now: u64,
    ) -> (r: Result<bool, StoreError>)
        requires
            old(security).wf(),
        ensures
            final(security).wf(),
            final(security).spec_max_attempts() == old(security).spec_max_attempts(),
            final(security).spec_lockout_duration() == old(security).spec_lockout_duration(),
            lookup matches Err(e) ==> r == Err::<bool, StoreError>(e) && final(security).attempts_map() == old(security).attempts_map(),
            lookup matches Ok(l) ==> r == Ok::<bool, StoreError>(
                spec_decide(l, password@, ip@) == Decision::Allowed,
            ) && final(security).attempts_map() == spec_map_after_decide(
                old(security).attempts_map(),
                l,
                username@,
                password@,
                ip@,
                now,
            ),
    {
        match Spirit::complete_authentication(security, username, password, ip, lookup, now) {
            Err(e) => Err(e),
            Ok(Decision::Allowed) => Ok(true),
            Ok(Decision::Denied(_)) => Ok(false),
        }
    }

    /// The whole gate against an in-memory trust store, in the order the
    /// design fixes: rate gate first (a locked-out username is denied with
    /// no lookup), then lookup, then the credential rule; every denial but
    /// the rate-limited one records a failure.
    pub fn authenticate(
        security: &mut Security,
        store: &TrustStore,
        username: &String,
        password: &String,
        ip: &String,
        now: u64,
    ) -> (d: Decision)
        requires
            old(security).wf(),
        ensures
            final(security).wf(),
            final(security).spec_max_attempts() == old(security).spec_max_attempts(),
            final(security).spec_lockout_duration() == old(security).spec_lockout_duration(),
            spec_is_locked(
                old(security).attempts_map(),
                username@,
                old(security).spec_max_attempts(),
                old(security).spec_lockout_duration(),
                now,
            ) ==> d == Decision::Denied(DenyReason::RateLimited) && final(security).attempts_map()
                == old(security).attempts_map(),
            !spec_is_locked(
                old(security).attempts_map(),
                username@,
                old(security).spec_max_attempts(),
                old(security).spec_lockout_duration(),
                now,
            ) ==> d == spec_decide(store_lookup(store@, username@), password@, ip@) && final(security).attempts_map() == spec_map_after_decide(
                spec_after_check(
                    old(security).attempts_map(),
                    username@,
                    old(security).spec_max_attempts(),
                    old(security).spec_lockout_duration(),
                    now,
                ),
                store_lookup(store@, username@),
                username@,
                password@,
                ip@,
                now,
            ),
    {
        if security.is_rate_limited(username, now) {
            return Decision::Denied(DenyReason::RateLimited);
        }
        match store.lookup(username) {
            None => {
                security.record_attempt(username, now);
                Decision::Denied(DenyReason::InvalidUsername)
            },
            Some(rec) => {
                if security.verify_password(password, &rec.password_hash)
                    && security.check_ip_allowed(ip, &rec.allowed_ip) {
                    Decision::Allowed
                } else {
                    security.record_attempt(username, now);
                    Decision::Denied(DenyReason::InvalidCredentialOrIp)
                }
            },
        }
    }
}

} // verus!
