use vstd::prelude::*;

verus! {

/// One row of the trust store: the source of truth for a username's stored
/// password hash and allowed source address.
#[derive(Clone)]
pub struct CredentialRecord {
    pub username: String,
    pub password_hash: String,
    pub allowed_ip: String,
}

/// The backing store could not be reached. Absence of a username is not an
/// error: a lookup reports it as a normal `None` outcome.
#[derive(Clone, Copy, PartialEq, Eq, Structural, Debug)]
pub enum StoreError {
    StoreUnavailable,
}

/// The first record for username `u`, scanning the table front to back.
pub open spec fn store_lookup(s: Seq<CredentialRecord>, u: Seq<char>) -> Option<CredentialRecord>
    decreases s.len(),
{
    if s.len() == 0 {
        None
    } else if s[0].username@ == u {
        Some(s[0])
    } else {
        store_lookup(s.subrange(1, s.len() as int), u)
    }
}

/// An in-memory trust store: the credential table that a deployment without
/// an external database hands to the authenticator. Read-only once loaded.
pub struct TrustStore {
    records: Vec<CredentialRecord>,
}

impl View for TrustStore {
    type V = Seq<CredentialRecord>;

    closed spec fn view(&self) -> Seq<CredentialRecord> {
        self.records@
    }
}

impl TrustStore {
    pub fn new() -> (s: TrustStore)
        ensures
            s@ == Seq::<CredentialRecord>::empty(),
    {
        TrustStore { records: Vec::new() }
    }

    /// Append one credential row to the table.
    pub fn add_record(&mut self, record: CredentialRecord)
        ensures
            final(self)@ == old(self)@.push(record),
    {
        self.records.push(record);
    }

    /// The record stored for `username`, or `None` for an unknown username.
    pub fn lookup(&self, username: &String) -> (r: Option<&CredentialRecord>)
        ensures
            match r {
                Some(rec) => store_lookup(self@, username@) == Some(*rec),
                None => store_lookup(self@, username@) is None,
            },
    {
        let n: usize = self.records.len();
        let mut i: usize = 0;
        proof {
            assert(self.records@.subrange(0, n as int) =~= self.records@);
        }
        while i < n
            invariant
                n == self.records@.len(),
                i <= n,
                store_lookup(self.records@, username@) == store_lookup(
                    self.records@.subrange(i as int, n as int),
                    username@,
                ),
            decreases n - i,
        {
            if self.records[i].username == *username {
                proof {
                    assert(self.records@.subrange(i as int, n as int)[0] == self.records@[i as int]);
                }
                return Some(&self.records[i]);
            }
            proof {
                let tail = self.records@.subrange(i as int, n as int);
                assert(tail[0] == self.records@[i as int]);
                assert(tail.subrange(1, tail.len() as int) =~= self.records@.subrange(
                    i + 1,
                    n as int,
                ));
            }
            i = i + 1;
        }
        proof {
            assert(self.records@.subrange(n as int, n as int).len() == 0);
        }
        None
    }
}

} // verus!
