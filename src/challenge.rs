//! One-time challenges: issuance, and atomic take-and-check on consumption.
use vstd::prelude::*;
use crate::codec::{
    base64url_decode_of, base64url_encode, base64url_encode_of, constant_time_eq, is_base64url_char,
    unpadded_len,
};
use crate::error::WebAuthnError;

verus! {

/// A challenge as issued: its random bytes and the time it was issued.
#[derive(Debug, Clone)]
pub struct Challenge {
    pub bytes: Vec<u8>,
    pub issued_at: u64,
}

pub struct ChallengeView {
    pub bytes: Seq<u8>,
    pub issued_at: nat,
}

impl View for Challenge {
    type V = ChallengeView;

    open spec fn view(&self) -> ChallengeView {
        ChallengeView { bytes: self.bytes@, issued_at: self.issued_at as nat }
    }
}

impl Challenge {
    /// The challenge as sent to the client: unpadded base64url text.
    pub fn encoded(&self) -> (r: String)
        ensures
            r@ == base64url_encode_of(self.bytes@),
            base64url_decode_of(r@) == Some(self.bytes@),
            r@.len() == unpadded_len(self.bytes@.len()),
            forall|i: int| 0 <= i < r@.len() ==> is_base64url_char(#[trigger] r@[i]),
    {
        base64url_encode(self.bytes.as_slice())
    }
}

/// Whether a challenge has outlived `ttl` at time `now`.
pub open spec fn expired(c: ChallengeView, ttl: nat, now: nat) -> bool {
    now > c.issued_at + ttl
}

/// The pending challenge of one user.
#[derive(Debug)]
pub struct PendingChallenge {
    pub username: String,
    pub challenge: Challenge,
}

/// The live challenges, at most one per user.
pub struct ChallengeStore {
    entries: Vec<PendingChallenge>,
    ttl: u64,
    pending: Ghost<Map<Seq<char>, ChallengeView>>,
}

impl ChallengeStore {
    /// The pending challenge of each user.
    pub closed spec fn view(&self) -> Map<Seq<char>, ChallengeView> {
        self.pending@
    }

    /// How long a challenge stays valid after issuance.
    pub closed spec fn ttl_spec(&self) -> nat {
        self.ttl as nat
    }

    /// The entries mirror the map: one entry per user, each with its challenge.
    pub closed spec fn wf(&self) -> bool {
        &&& forall|i: int|
            0 <= i < self.entries@.len() ==> {
                &&& #[trigger] self.pending@.contains_key(self.entries@[i].username@)
                &&& self.pending@[self.entries@[i].username@] == self.entries@[i].challenge@
            }
        &&& forall|i: int, j: int|
            0 <= i < self.entries@.len() && 0 <= j < self.entries@.len() && i != j
                ==> #[trigger] self.entries@[i].username@ != #[trigger] self.entries@[j].username@
        &&& forall|k: Seq<char>|
            #[trigger] self.pending@.contains_key(k) ==> exists|i: int|
                0 <= i < self.entries@.len() && #[trigger] self.entries@[i].username@ == k
    }

    /// An empty store whose challenges live for `ttl` time units.
    pub fn new(ttl: u64) -> (r: ChallengeStore)
        ensures
            r.wf(),
            r.view() == Map::<Seq<char>, ChallengeView>::empty(),
            r.ttl_spec() == ttl,
    {
        ChallengeStore { entries: Vec::new(), ttl, pending: Ghost(Map::empty()) }
    }

    /// How long a challenge stays valid after issuance.
    pub fn ttl(&self) -> (r: u64)
        ensures
            r == self.ttl_spec(),
    {
        self.ttl
    }

    fn find(&self, username: &String) -> (r: Option<usize>)
        requires
            self.wf(),
        ensures
            match r {
                Some(i) => i < self.entries@.len() && self.entries@[i as int].username@ == username@,
                None => !self.view().contains_key(username@),
            },
    {
        let mut i: usize = 0;
        while i < self.entries.len()
            invariant
                self.wf(),
                i <= self.entries@.len(),
                forall|j: int| 0 <= j < i ==> #[trigger] self.entries@[j].username@ != username@,
            decreases self.entries@.len() - i,
        {
            if self.entries[i].username == *username {
                return Some(i);
            }
            i = i + 1;
        }
        None
    }

    /// Removes and returns the pending challenge of `username`, if any.
    pub fn take(&mut self, username: &String) -> (r: Option<Challenge>)
        requires
            old(self).wf(),
        ensures
            final(self).wf(),
            final(self).ttl_spec() == old(self).ttl_spec(),
            final(self).view() == old(self).view().remove(username@),
            match r {
                Some(c) => old(self).view().contains_key(username@) && c@ == old(self).view()[username@],
                None => !old(self).view().contains_key(username@),
            },
    {
        match self.find(username) {
            None => {
                assert(self.pending@.remove(username@) =~= self.pending@);
                None
            },
            Some(i) => {
                let ghost old_entries = self.entries@;
                let ghost old_pending = self.pending@;
                let e = self.entries.remove(i);
                self.pending = Ghost(old_pending.remove(username@));
                proof {
                    let ne = self.entries@;
                    assert forall|a: int| 0 <= a < ne.len() implies {
                        &&& #[trigger] self.pending@.contains_key(ne[a].username@)
                        &&& self.pending@[ne[a].username@] == ne[a].challenge@
                    } by {
                        let oa = if a < i { a } else { a + 1 };
                        assert(ne[a] == old_entries[oa]);
                        assert(old_entries[oa].username@ != old_entries[i as int].username@);
                        assert(old_pending.contains_key(old_entries[oa].username@));
                        assert(ne[a].username@ != username@);
                    }
                    assert forall|a: int, b: int|
                        0 <= a < ne.len() && 0 <= b < ne.len() && a != b
                        implies #[trigger] ne[a].username@ != #[trigger] ne[b].username@ by {
                        let oa = if a < i { a } else { a + 1 };
                        let ob = if b < i { b } else { b + 1 };
                        assert(ne[a] == old_entries[oa]);
                        assert(ne[b] == old_entries[ob]);
                    }
                    assert forall|k: Seq<char>| #[trigger] self.pending@.contains_key(k)
                        implies exists|a: int| 0 <= a < ne.len() && #[trigger] ne[a].username@ == k by {
                        let m = choose|m: int| 0 <= m < old_entries.len() && #[trigger] old_entries[m].username@ == k;
                        assert(m != i);
                        let a = if m < i { m } else { m - 1 };
                        assert(ne[a] == old_entries[m]);
                    }
                }
                Some(e.challenge)
            },
        }
    }

    /// Makes `challenge` the sole pending challenge of `username`.
    pub fn put(&mut self, username: String, challenge: Challenge)
        requires
            old(self).wf(),
        ensures
            final(self).wf(),
            final(self).ttl_spec() == old(self).ttl_spec(),
            final(self).view() == old(self).view().insert(username@, challenge@),
    {
        let _ = self.take(&username);
        let ghost mid_entries = self.entries@;
        let ghost mid = self.pending@;
        let ghost u = username@;
        let ghost c = challenge@;
        self.entries.push(PendingChallenge { username, challenge });
        self.pending = Ghost(mid.insert(u, c));
        proof {
            let ne = self.entries@;
            assert forall|a: int| 0 <= a < ne.len() implies {
                &&& #[trigger] self.pending@.contains_key(ne[a].username@)
                &&& self.pending@[ne[a].username@] == ne[a].challenge@
            } by {
                if a < mid_entries.len() {
                    assert(ne[a] == mid_entries[a]);
                    assert(mid.contains_key(mid_entries[a].username@));
                }
            }
            assert forall|a: int, b: int|
                0 <= a < ne.len() && 0 <= b < ne.len() && a != b
                implies #[trigger] ne[a].username@ != #[trigger] ne[b].username@ by {
                if a < mid_entries.len() {
                    assert(mid.contains_key(mid_entries[a].username@));
                }
                if b < mid_entries.len() {
                    assert(mid.contains_key(mid_entries[b].username@));
                }
            }
            assert forall|k: Seq<char>| #[trigger] self.pending@.contains_key(k)
                implies exists|a: int| 0 <= a < ne.len() && #[trigger] ne[a].username@ == k by {
                if k == u {
                    assert(ne[ne.len() - 1].username@ == k);
                } else {
                    let m = choose|m: int| 0 <= m < mid_entries.len() && #[trigger] mid_entries[m].username@ == k;
                    assert(ne[m] == mid_entries[m]);
                }
            }
        }
    }

    /// Removes the pending challenge of `username` and checks it is still
    /// live: fails with `ChallengeNotFound` when none is pending, and with
    /// `ChallengeExpired` when it has outlived the time to live.
    pub fn take_live(&mut self, username: &String, now: u64) -> (r: Result<Challenge, WebAuthnError>)
        requires
            old(self).wf(),
        ensures
            final(self).wf(),
            final(self).ttl_spec() == old(self).ttl_spec(),
            final(self).view() == old(self).view().remove(username@),
            match r {
                Ok(c) => take_live_spec(old(self).view(), old(self).ttl_spec(), username@, now as nat)
                    == Ok::<_, WebAuthnError>(c@),
                Err(e) => take_live_spec(old(self).view(), old(self).ttl_spec(), username@, now as nat)
                    == Err::<ChallengeView, _>(e),
            },
    {
        match self.take(username) {
            None => Err(WebAuthnError::ChallengeNotFound),
            Some(c) => if now > c.issued_at && now - c.issued_at > self.ttl {
                Err(WebAuthnError::ChallengeExpired)
            } else {
                Ok(c)
            },
        }
    }

    /// Removes the pending challenge of `username` and checks it against the
    /// presented bytes, in constant time.
    pub fn consume(&mut self, username: &String, presented: &[u8], now: u64) -> (r: Result<(), WebAuthnError>)
        requires
            old(self).wf(),
        ensures
            final(self).wf(),
            final(self).ttl_spec() == old(self).ttl_spec(),
            final(self).view() == old(self).view().remove(username@),
            r == consume_spec(old(self).view(), old(self).ttl_spec(), username@, presented@, now as nat),
    {
        match self.take_live(username, now) {
            Err(e) => Err(e),
            Ok(c) => if constant_time_eq(c.bytes.as_slice(), presented) {
                Ok(())
            } else {
                Err(WebAuthnError::ChallengeMismatch)
            },
        }
    }
}

/// The outcome of taking a user's challenge at time `now`.
pub open spec fn take_live_spec(
    pending: Map<Seq<char>, ChallengeView>,
    ttl: nat,
    username: Seq<char>,
    now: nat,
) -> Result<ChallengeView, WebAuthnError> {
    if !pending.contains_key(username) {
        Err(WebAuthnError::ChallengeNotFound)
    } else if expired(pending[username], ttl, now) {
        Err(WebAuthnError::ChallengeExpired)
    } else {
        Ok(pending[username])
    }
}

/// The outcome of consuming a user's challenge with the presented bytes.
pub open spec fn consume_spec(
    pending: Map<Seq<char>, ChallengeView>,
    ttl: nat,
    username: Seq<char>,
    presented: Seq<u8>,
    now: nat,
) -> Result<(), WebAuthnError> {
    match take_live_spec(pending, ttl, username, now) {
        Err(e) => Err(e),
        Ok(c) => if c.bytes == presented {
            Ok(())
        } else {
            Err(WebAuthnError::ChallengeMismatch)
        },
    }
}

/// A challenge just issued to a user is consumed successfully with its own
/// bytes, and only once: a second consumption finds no challenge.
pub proof fn lemma_issue_then_consume_once(
    pending: Map<Seq<char>, ChallengeView>,
    ttl: nat,
    username: Seq<char>,
    bytes: Seq<u8>,
    now: nat,
    presented_again: Seq<u8>,
    later: nat,
)
    ensures
        consume_spec(pending.insert(username, ChallengeView { bytes, issued_at: now }), ttl, username, bytes, now)
            == Ok::<(), WebAuthnError>(()),
        consume_spec(
            pending.insert(username, ChallengeView { bytes, issued_at: now }).remove(username),
            ttl,
            username,
            presented_again,
            later,
        ) == Err::<(), _>(WebAuthnError::ChallengeNotFound),
{
}

/// Presenting bytes other than those of a live pending challenge fails with
/// `ChallengeMismatch`.
pub proof fn lemma_other_bytes_mismatch(
    pending: Map<Seq<char>, ChallengeView>,
    ttl: nat,
    username: Seq<char>,
    presented: Seq<u8>,
    now: nat,
)
    requires
        pending.contains_key(username),
        !expired(pending[username], ttl, now),
        presented != pending[username].bytes,
    ensures
        consume_spec(pending, ttl, username, presented, now) == Err::<(), _>(WebAuthnError::ChallengeMismatch),
{
}

} // verus!
