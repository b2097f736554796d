use vstd::prelude::*;

verus! {

/// Name for the outcome of bcrypt's check of a presented password against a
/// stored hash: the result depends on the two strings alone.
pub uninterp spec fn bcrypt_accepts(password: Seq<char>, stored_hash: Seq<char>) -> bool;

/// Relies on bcrypt::verify: deciding whether `password` matches the salted
/// hash `stored_hash` is a pure function of the two strings; a malformed
/// stored hash is treated as a mismatch.
#[verifier::external_body]
fn bcrypt_verify(password: &String, stored_hash: &String) -> (r: bool)
    ensures
        r == bcrypt_accepts(password@, stored_hash@),
{
    bcrypt::verify(password.as_str(), stored_hash.as_str()).unwrap_or(false)
}

/// One record of consecutive authentication failures for one username.
pub struct AttemptEntry {
    pub username: String,
    pub count: u32,
    pub first_failure_at: u64,
}

/// The mathematical model of the attempt table: username (as a character
/// sequence) to (failure count, time of the first failure of the streak).
pub open spec fn attempts_of(s: Seq<AttemptEntry>) -> Map<Seq<char>, (u32, u64)>
    decreases s.len(),
{
    if s.len() == 0 {
        Map::empty()
    } else {
        attempts_of(s.drop_last()).insert(
            s.last().username@,
            (s.last().count, s.last().first_failure_at),
        )
    }
}

/// No username occurs twice in the table.
pub open spec fn distinct_usernames(s: Seq<AttemptEntry>) -> bool {
    forall|i: int, j: int|
        0 <= i < j < s.len() ==> s[i].username@ != s[j].username@
}

/// Seconds elapsed from `start` to `now`, clamped at zero for a clock that
/// reads earlier than the recorded start.
pub open spec fn elapsed_since(now: u64, start: u64) -> int {
    if now >= start {
        now - start
    } else {
        0
    }
}

/// A failure count one higher, capped at the largest representable count.
pub open spec fn saturating_inc(c: u32) -> u32 {
    if c < u32::MAX {
        (c + 1) as u32
    } else {
        u32::MAX
    }
}

/// What recording a failure at time `now` does to the attempt map: a first
/// failure opens a streak anchored at `now`; a later one only raises the
/// count, leaving the anchor where it was.
pub open spec fn spec_record_failure(
    m: Map<Seq<char>, (u32, u64)>,
    u: Seq<char>,
    now: u64,
) -> Map<Seq<char>, (u32, u64)> {
    if m.contains_key(u) {
        m.insert(u, (saturating_inc(m[u].0), m[u].1))
    } else {
        m.insert(u, (1u32, now))
    }
}

/// Whether `u` is locked out at time `now`: a full streak whose lockout
/// window has not yet elapsed.
pub open spec fn spec_is_locked(
    m: Map<Seq<char>, (u32, u64)>,
    u: Seq<char>,
    max_attempts: u32,
    lockout_duration: u64,
    now: u64,
) -> bool {
    m.contains_key(u) && m[u].0 >= max_attempts && elapsed_since(now, m[u].1) < lockout_duration
}

/// What a lockout check at time `now` does to the attempt map: an entry whose
/// full streak's window has elapsed is removed (lazy expiry); every other
/// entry stays.
pub open spec fn spec_after_check(
    m: Map<Seq<char>, (u32, u64)>,
    u: Seq<char>,
    max_attempts: u32,
    lockout_duration: u64,
    now: u64,
) -> Map<Seq<char>, (u32, u64)> {
    if m.contains_key(u) && m[u].0 >= max_attempts && elapsed_since(now, m[u].1)
        >= lockout_duration {
        m.remove(u)
    } else {
        m
    }
}

proof fn lemma_attempts_of_membership(s: Seq<AttemptEntry>, u: Seq<char>)
    ensures
        attempts_of(s).contains_key(u) <==> exists|i: int|
            0 <= i < s.len() && s[i].username@ == u,
    decreases s.len(),
{
    if s.len() > 0 {
        lemma_attempts_of_membership(s.drop_last(), u);
        if attempts_of(s).contains_key(u) {
            if s.last().username@ == u {
                assert(s[s.len() - 1].username@ == u);
            } else {
                let i = choose|i: int|
                    0 <= i < s.drop_last().len() && s.drop_last()[i].username@ == u;
                assert(s[i].username@ == u);
            }
        }
        if exists|i: int| 0 <= i < s.len() && s[i].username@ == u {
            let i = choose|i: int| 0 <= i < s.len() && s[i].username@ == u;
            if i < s.len() - 1 {
                assert(s.drop_last()[i].username@ == u);
            }
        }
    }
}

proof fn lemma_attempts_of_value(s: Seq<AttemptEntry>, i: int)
    requires
        distinct_usernames(s),
        0 <= i < s.len(),
    ensures
        attempts_of(s).contains_key(s[i].username@),
        attempts_of(s)[s[i].username@] == (s[i].count, s[i].first_failure_at),
    decreases s.len(),
{
    if i == s.len() - 1 {
    } else {
        assert(s.last().username@ != s[i].username@);
        assert(distinct_usernames(s.drop_last())) by {
            assert forall|a: int, b: int|
                0 <= a < b < s.drop_last().len() implies s.drop_last()[a].username@
                != s.drop_last()[b].username@ by {
                assert(s[a].username@ != s[b].username@);
            }
        }
        assert(s.drop_last()[i] == s[i]);
        lemma_attempts_of_value(s.drop_last(), i);
    }
}

proof fn lemma_attempts_of_update(s: Seq<AttemptEntry>, i: int, e: AttemptEntry)
    requires
        distinct_usernames(s),
        0 <= i < s.len(),
        e.username@ == s[i].username@,
    ensures
        attempts_of(s.update(i, e)) == attempts_of(s).insert(
            e.username@,
            (e.count, e.first_failure_at),
        ),
    decreases s.len(),
{
    let u = e.username@;
    if i == s.len() - 1 {
        assert(s.update(i, e).drop_last() =~= s.drop_last());
        assert(s.update(i, e).last() == e);
        assert(attempts_of(s.update(i, e)) == attempts_of(s.drop_last()).insert(
            u,
            (e.count, e.first_failure_at),
        ));
        assert(attempts_of(s).insert(u, (e.count, e.first_failure_at)) =~= attempts_of(
            s.drop_last(),
        ).insert(u, (e.count, e.first_failure_at)));
    } else {
        assert(distinct_usernames(s.drop_last())) by {
            assert forall|a: int, b: int|
                0 <= a < b < s.drop_last().len() implies s.drop_last()[a].username@
                != s.drop_last()[b].username@ by {
                assert(s[a].username@ != s[b].username@);
            }
        }
        assert(s.drop_last()[i] == s[i]);
        lemma_attempts_of_update(s.drop_last(), i, e);
        assert(s.update(i, e).drop_last() =~= s.drop_last().update(i, e));
        assert(s.update(i, e).last() == s.last());
        assert(s.last().username@ != u);
        assert(attempts_of(s.update(i, e)) == attempts_of(s.drop_last().update(i, e)).insert(
            s.last().username@,
            (s.last().count, s.last().first_failure_at),
        ));
        assert(attempts_of(s.drop_last()).insert(u, (e.count, e.first_failure_at)).insert(
            s.last().username@,
            (s.last().count, s.last().first_failure_at),
        ) =~= attempts_of(s).insert(u, (e.count, e.first_failure_at)));
    }
}

proof fn lemma_attempts_of_remove(s: Seq<AttemptEntry>, i: int)
    requires
        distinct_usernames(s),
        0 <= i < s.len(),
    ensures
        attempts_of(s.remove(i)) == attempts_of(s).remove(s[i].username@),
    decreases s.len(),
{
    let u = s[i].username@;
    assert(distinct_usernames(s.drop_last())) by {
        assert forall|a: int, b: int|
            0 <= a < b < s.drop_last().len() implies s.drop_last()[a].username@
            != s.drop_last()[b].username@ by {
            assert(s[a].username@ != s[b].username@);
        }
    }
    if i == s.len() - 1 {
        assert(s.remove(i) =~= s.drop_last());
        lemma_attempts_of_membership(s.drop_last(), u);
        assert(forall|j: int|
            0 <= j < s.drop_last().len() ==> s.drop_last()[j] == s[j]);
        assert(!attempts_of(s.drop_last()).contains_key(u));
        assert(attempts_of(s.drop_last()) =~= attempts_of(s).remove(u));
    } else {
        assert(s.drop_last()[i] == s[i]);
        lemma_attempts_of_remove(s.drop_last(), i);
        assert(s.remove(i).drop_last() =~= s.drop_last().remove(i));
        assert(s.remove(i).last() == s.last());
        assert(s.last().username@ != u);
        assert(attempts_of(s.remove(i)) == attempts_of(s.drop_last().remove(i)).insert(
            s.last().username@,
            (s.last().count, s.last().first_failure_at),
        ));
        assert(attempts_of(s.drop_last()).remove(u).insert(
            s.last().username@,
            (s.last().count, s.last().first_failure_at),
        ) =~= attempts_of(s).remove(u));
    }
}

/// The attempt map after a run of consecutive failures for `u`, one at each
/// time in `times`, starting from `m`.
pub open spec fn after_failures(
    m: Map<Seq<char>, (u32, u64)>,
    u: Seq<char>,
    times: Seq<u64>,
) -> Map<Seq<char>, (u32, u64)>
    decreases times.len(),
{
    if times.len() == 0 {
        m
    } else {
        spec_record_failure(after_failures(m, u, times.drop_last()), u, times.last())
    }
}

/// Consecutive failures accumulate: starting with no entry for `u`, a run of
/// n recorded failures leaves count n, anchored at the time of the first
/// failure, and touches no other username's entry.
pub proof fn lemma_failures_accumulate(m: Map<Seq<char>, (u32, u64)>, u: Seq<char>, times: Seq<u64>)
    requires
        !m.contains_key(u),
        1 <= times.len() <= u32::MAX,
    ensures
        after_failures(m, u, times).contains_key(u),
        after_failures(m, u, times)[u] == (times.len() as u32, times[0]),
        forall|v: Seq<char>|
            v != u ==> (#[trigger] after_failures(m, u, times).contains_key(v)) == m.contains_key(
                v,
            ),
        forall|v: Seq<char>|
            v != u && m.contains_key(v) ==> (#[trigger] after_failures(m, u, times)[v]) == m[v],
    decreases times.len(),
{
    let t0 = times[0];
    if times.len() == 1 {
        assert(times.drop_last().len() == 0);
        assert(times.last() == t0);
        assert(after_failures(m, u, times.drop_last()) == m);
        assert(after_failures(m, u, times) == m.insert(u, (1u32, t0)));
        assert forall|v: Seq<char>|
            v != u implies (#[trigger] after_failures(m, u, times).contains_key(v))
            == m.contains_key(v) by {}
        assert forall|v: Seq<char>|
            v != u && m.contains_key(v) implies (#[trigger] after_failures(m, u, times)[v])
            == m[v] by {}
    } else {
        let prev = after_failures(m, u, times.drop_last());
        lemma_failures_accumulate(m, u, times.drop_last());
        assert(times.drop_last()[0] == t0);
        assert(times.drop_last().len() == times.len() - 1);
        assert(prev[u] == ((times.len() - 1) as u32, t0));
        assert(after_failures(m, u, times) == prev.insert(
            u,
            (saturating_inc(prev[u].0), prev[u].1),
        ));
        assert(saturating_inc((times.len() - 1) as u32) == times.len() as u32);
        assert forall|v: Seq<char>|
            v != u implies (#[trigger] after_failures(m, u, times).contains_key(v))
            == m.contains_key(v) by {
            assert(after_failures(m, u, times).contains_key(v) == prev.contains_key(v));
            assert(prev.contains_key(v) == m.contains_key(v));
        }
        assert forall|v: Seq<char>|
            v != u && m.contains_key(v) implies (#[trigger] after_failures(m, u, times)[v])
            == m[v] by {
            assert(prev.contains_key(v) == m.contains_key(v));
            assert(after_failures(m, u, times)[v] == prev[v]);
            assert(prev[v] == m[v]);
        }
    }
}

/// The lockout law: after at least `max_attempts` consecutive failures for a
/// fresh username, the account is locked out exactly as long as the lockout
/// window, anchored at the first failure of the run, has not elapsed.
pub proof fn lemma_lockout_window(
    m: Map<Seq<char>, (u32, u64)>,
    u: Seq<char>,
    times: Seq<u64>,
    max_attempts: u32,
    lockout_duration: u64,
    now: u64,
)
    requires
        !m.contains_key(u),
        1 <= max_attempts,
        max_attempts <= times.len() <= u32::MAX,
    ensures
        spec_is_locked(after_failures(m, u, times), u, max_attempts, lockout_duration, now)
            <==> elapsed_since(now, times[0]) < lockout_duration,
{
    lemma_failures_accumulate(m, u, times);
}

/// The isolation law: recording a failure for `u`, or checking `u`'s
/// lockout, never changes another username's entry or lockout state.
pub proof fn lemma_attempt_isolation(
    m: Map<Seq<char>, (u32, u64)>,
    u: Seq<char>,
    v: Seq<char>,
    max_attempts: u32,
    lockout_duration: u64,
    now: u64,
)
    requires
        u != v,
    ensures
        spec_record_failure(m, u, now).contains_key(v) == m.contains_key(v),
        m.contains_key(v) ==> spec_record_failure(m, u, now)[v] == m[v],
        spec_after_check(m, u, max_attempts, lockout_duration, now).contains_key(v)
            == m.contains_key(v),
        m.contains_key(v) ==> spec_after_check(m, u, max_attempts, lockout_duration, now)[v]
            == m[v],
        spec_is_locked(spec_record_failure(m, u, now), v, max_attempts, lockout_duration, now)
            == spec_is_locked(m, v, max_attempts, lockout_duration, now),
        spec_is_locked(
            spec_after_check(m, u, max_attempts, lockout_duration, now),
            v,
            max_attempts,
            lockout_duration,
            now,
        ) == spec_is_locked(m, v, max_attempts, lockout_duration, now),
{
}

/// The brute-force gate: per-username failure streaks and lockout windows,
/// with the password and allow-list checks that guard a login.
pub struct Security {
    attempts: Vec<AttemptEntry>,
    max_attempts: u32,
    lockout_duration: u64,
}

impl Security {
    /// The attempt table has no duplicate usernames.
    pub closed spec fn wf(self) -> bool {
        distinct_usernames(self.attempts@)
    }

    /// The attempt table as a map from username to (count, first failure).
    pub closed spec fn attempts_map(self) -> Map<Seq<char>, (u32, u64)> {
        attempts_of(self.attempts@)
    }

    pub closed spec fn spec_max_attempts(self) -> u32 {
        self.max_attempts
    }

    pub closed spec fn spec_lockout_duration(self) -> u64 {
        self.lockout_duration
    }

    /// Both configuration parameters as the constructor set them.
    pub open spec fn configured(self, max_attempts: u32, lockout_duration: u64) -> bool {
        self.spec_max_attempts() == max_attempts && self.spec_lockout_duration()
            == lockout_duration
    }

    pub fn new(max_attempts: u32, lockout_duration_secs: u64) -> (s: Security)
        ensures
            s.wf(),
            s.attempts_map() == Map::<Seq<char>, (u32, u64)>::empty(),
            s.configured(max_attempts, lockout_duration_secs),
    {
        Security { attempts: Vec::new(), max_attempts, lockout_duration: lockout_duration_secs }
    }

    /// Index of the entry for `username`, if one exists.
    fn find_index(&self, username: &String) -> (r: Option<usize>)
        ensures
            match r {
                Some(i) => i < self.attempts@.len() && self.attempts@[i as int].username@
                    == username@,
                None => forall|i: int|
                    0 <= i < self.attempts@.len() ==> self.attempts@[i].username@ != username@,
            },
    {
        let n: usize = self.attempts.len();
        let mut i: usize = 0;
        while i < n
            invariant
                n == self.attempts@.len(),
                i <= n,
                forall|j: int| 0 <= j < i ==> self.attempts@[j].username@ != username@,
            decreases n - i,
        {
            if self.attempts[i].username == *username {
                return Some(i);
            }
            i = i + 1;
        }
        None
    }

    /// Relies on bcrypt::verify through the module's wrapper: true exactly
    /// when bcrypt accepts `password` against `hashed`.
    pub fn verify_password(&self, password: &String, hashed: &String) -> (r: bool)
        ensures
            r == bcrypt_accepts(password@, hashed@),
    {
        bcrypt_verify(password, hashed)
    }

    /// The allow-list rule: exact textual equality of the two addresses.
    pub fn check_ip_allowed(&self, ip: &String, allowed_ip: &String) -> (r: bool)
        ensures
            r == (ip@ == allowed_ip@),
    {
        *ip == *allowed_ip
    }

    /// Whether `username` is locked out at time `now`. A full streak whose
    /// window has elapsed is removed on this check (lazy expiry); nothing
    /// else changes.
    pub fn is_rate_limited(&mut self, username: &String, now: u64) -> (locked: bool)
        requires
            old(self).wf(),
        ensures
            final(self).wf(),
            locked == spec_is_locked(
                old(self).attempts_map(),
                username@,
                old(self).spec_max_attempts(),
                old(self).spec_lockout_duration(),
                now,
            ),
            final(self).attempts_map() == spec_after_check(
                old(self).attempts_map(),
                username@,
                old(self).spec_max_attempts(),
                old(self).spec_lockout_duration(),
                now,
            ),
            final(self).spec_max_attempts() == old(self).spec_max_attempts(),
            final(self).spec_lockout_duration() == old(self).spec_lockout_duration(),
    {
        let r = self.find_index(username);
        match r {
            None => {
                proof {
                    lemma_attempts_of_membership(self.attempts@, username@);
                }
                false
            },
            Some(i) => {
                proof {
                    lemma_attempts_of_value(self.attempts@, i as int);
                }
                let count: u32 = self.attempts[i].count;
                let started: u64 = self.attempts[i].first_failure_at;
                if count >= self.max_attempts {
                    let elapsed: u64 = if now >= started {
                        now - started
                    } else {
                        0
                    };
                    if elapsed < self.lockout_duration {
                        true
                    } else {
                        proof {
                            lemma_attempts_of_remove(self.attempts@, i as int);
                            let s = self.attempts@;
                            let sr = s.remove(i as int);
                            assert forall|a: int, b: int|
                                0 <= a < b < sr.len() implies sr[a].username@ != sr[b].username@ by {
                                let a0 = if a < i { a } else { a + 1 };
                                let b0 = if b < i { b } else { b + 1 };
                                assert(sr[a] == s[a0]);
                                assert(sr[b] == s[b0]);
                            }
                        }
                        self.attempts.remove(i);
                        false
                    }
                } else {
                    false
                }
            },
        }
    }

    /// Record one failed attempt for `username` at time `now`: a first
    /// failure opens a streak anchored at `now`; a later one raises the
    /// count and keeps the anchor. No other username's entry changes.
    pub fn record_attempt(&mut self, username: &String, now: u64)
        requires
            old(self).wf(),
        ensures
            final(self).wf(),
            final(self).attempts_map() == spec_record_failure(
                old(self).attempts_map(),
                username@,
                now,
            ),
            final(self).spec_max_attempts() == old(self).spec_max_attempts(),
            final(self).spec_lockout_duration() == old(self).spec_lockout_duration(),
    {
        let r = self.find_index(username);
        match r {
            Some(i) => {
                proof {
                    lemma_attempts_of_value(self.attempts@, i as int);
                }
                let count: u32 = self.attempts[i].count;
                let started: u64 = self.attempts[i].first_failure_at;
                let new_count: u32 = if count < u32::MAX {
                    count + 1
                } else {
                    count
                };
                let entry = AttemptEntry {
                    username: self.attempts[i].username.clone(),
                    count: new_count,
                    first_failure_at: started,
                };
                proof {
                    lemma_attempts_of_update(
                        self.attempts@,
                        i as int,
                        AttemptEntry {
                            username: self.attempts@[i as int].username,
                            count: new_count,
                            first_failure_at: started,
                        },
                    );
                    let s = self.attempts@;
                    let su = s.update(
                        i as int,
                        AttemptEntry {
                            username: self.attempts@[i as int].username,
                            count: new_count,
                            first_failure_at: started,
                        },
                    );
                    assert forall|a: int, b: int|
                        0 <= a < b < su.len() implies su[a].username@ != su[b].username@ by {
                        assert(s[a].username@ != s[b].username@);
                    }
                }
                self.attempts[i] = entry;
            },
            None => {
                proof {
                    lemma_attempts_of_membership(self.attempts@, username@);
                }
                let entry = AttemptEntry { username: username.clone(), count: 1, first_failure_at: now };
                self.attempts.push(entry);
                proof {
                    let s = old(self).attempts@;
                    let sp = self.attempts@;
                    assert(sp.drop_last() =~= s);
                    assert forall|a: int, b: int|
                        0 <= a < b < sp.len() implies sp[a].username@ != sp[b].username@ by {
                        if b < sp.len() - 1 {
                            assert(s[a].username@ != s[b].username@);
                        } else {
                            assert(s[a].username@ != username@);
                        }
                    }
                }
            },
        }
    }
}

} // verus!
