//! Requests to link accounts, which wait for the player to type a code.

use crate::bot::types::PendingVerification;
use crate::text::same_text;
use crate::text_map;
use crate::text_map::TextMap;
use vstd::prelude::*;

verus! {

/// How many wrong codes end a request.
pub const MAX_ATTEMPTS: u32 = 3;

/// For how many milliseconds a code is taken.
pub const CODE_LIFETIME_MS: u64 = 30_000;

/// The requests that wait, by code. A request with `MAX_ATTEMPTS` wrong codes does not wait any
/// more.
pub struct PendingVerifications {
    requests: TextMap<PendingVerification>,
}

/// What came of a code that a player typed.
pub enum Verdict {
    /// The code is not taken, and nobody is told.
    Ignored,
    /// The code was right but came too late.
    Expired { discord_id: u64, mc_username: String },
    /// The code was right.
    Confirmed { discord_id: u64, mc_username: String },
    /// The code was wrong once too often.
    LockedOut { discord_id: u64, mc_username: String },
}

/// A request waits for the player.
pub open spec fn waits_for(
    m: Map<Seq<char>, PendingVerification>,
    key: Seq<char>,
    username: Seq<char>,
) -> bool {
    m.contains_key(key) && m[key].mc_username@ == username
}

/// A request after one more wrong code.
pub open spec fn tried_again(p: PendingVerification) -> PendingVerification {
    PendingVerification { attempts: (p.attempts + 1) as u32, ..p }
}

/// What a wrong code does to the request at `key`, and what comes of it.
pub open spec fn counted(
    before: Map<Seq<char>, PendingVerification>,
    after: Map<Seq<char>, PendingVerification>,
    key: Seq<char>,
    v: Verdict,
) -> bool {
    let p = before[key];
    if p.attempts + 1 >= MAX_ATTEMPTS {
        &&& after == before.remove(key)
        &&& v matches Verdict::LockedOut { discord_id, mc_username } && discord_id
            == p.discord_user_id && mc_username@ == p.mc_username@
    } else {
        after == before.insert(key, tried_again(p)) && v is Ignored
    }
}

/// What a code that a player types does to the requests, and what comes of it. Where several
/// requests wait for the player, a wrong code counts against one of them.
pub open spec fn judged(
    before: Map<Seq<char>, PendingVerification>,
    after: Map<Seq<char>, PendingVerification>,
    code: Seq<char>,
    username: Seq<char>,
    now: u64,
    v: Verdict,
) -> bool {
    if before.contains_key(code) {
        let p = before[code];
        if p.mc_username@ != username {
            after == before && v is Ignored
        } else if p.expires_at <= now {
            &&& after == before.remove(code)
            &&& v matches Verdict::Expired { discord_id, mc_username } && discord_id
                == p.discord_user_id && mc_username@ == username
        } else {
            &&& after == before.remove(code)
            &&& v matches Verdict::Confirmed { discord_id, mc_username } && discord_id
                == p.discord_user_id && mc_username@ == username
        }
    } else if exists|key: Seq<char>| waits_for(before, key, username) {
        exists|key: Seq<char>|
            #![trigger waits_for(before, key, username)]
            waits_for(before, key, username) && counted(before, after, key, v)
    } else {
        after == before && v is Ignored
    }
}

impl View for PendingVerifications {
    type V = Map<Seq<char>, PendingVerification>;

    closed spec fn view(&self) -> Map<Seq<char>, PendingVerification> {
        self.requests@
    }
}

impl PendingVerifications {
    /// No request has had too many wrong codes.
    pub closed spec fn wf(self) -> bool {
        &&& self.requests.wf()
        &&& forall|k: Seq<char>| #[trigger]
            self.requests@.contains_key(k) ==> self.requests@[k].attempts < MAX_ATTEMPTS
    }

    /// No request waits.
    pub fn new() -> (r: Self)
        ensures
            r.wf(),
            r@ == Map::<Seq<char>, PendingVerification>::empty(),
    {
        PendingVerifications { requests: TextMap::new() }
    }

    /// Whether a request of a Discord user waits.
    pub fn has_request_of(&self, discord_id: u64) -> (r: bool)
        requires
            self.wf(),
        ensures
            r == exists|k: Seq<char>| #[trigger]
                self@.contains_key(k) && self@[k].discord_user_id == discord_id,
    {
        proof {
            self.requests.lemma_keys();
        }
        let mut i: usize = 0;
        while i < self.requests.len()
            invariant
                self.wf(),
                i <= self.requests.keys().len(),
                forall|k: Seq<char>|
                    self@.contains_key(k) <==> #[trigger] self.requests.keys().contains(k),
                forall|j: int|
                    0 <= j < i ==> self@[#[trigger] self.requests.keys()[j]].discord_user_id
                        != discord_id,
            decreases self.requests.keys().len() - i,
        {
            if self.requests.value_at(i).discord_user_id == discord_id {
                assert(self@.contains_key(self.requests.keys()[i as int]));
                return true;
            }
            i = i + 1;
        }
        proof {
            assert forall|k: Seq<char>| #[trigger] self@.contains_key(k) implies
                self@[k].discord_user_id != discord_id by {
                assert(self.requests.keys().contains(k));
                let j = self.requests.keys().index_of(k);
                assert(self.requests.keys()[j] == k);
            }
        }
        false
    }

    /// Lets a request wait for its code.
    pub fn request(&mut self, code: String, discord_id: u64, mc_username: String, expires_at: u64)
        requires
            old(self).wf(),
        ensures
            final(self).wf(),
            final(self)@ == old(self)@.insert(
                code@,
                PendingVerification {
                    discord_user_id: discord_id,
                    mc_username,
                    expires_at,
                    attempts: 0,
                },
            ),
    {
        self.requests.insert(
            code,
            PendingVerification { discord_user_id: discord_id, mc_username, expires_at, attempts: 0 },
        );
    }

    /// The position of a request that waits for a player.
    fn position_for(&self, username: &str) -> (r: Option<usize>)
        requires
            self.wf(),
        ensures
            match r {
                Some(i) => i < self.requests.keys().len() && waits_for(
                    self@,
                    self.requests.keys()[i as int],
                    username@,
                ),
                None => !exists|key: Seq<char>| waits_for(self@, key, username@),
            },
    {
        proof {
            self.requests.lemma_keys();
        }
        let mut i: usize = 0;
        while i < self.requests.len()
            invariant
                self.wf(),
                i <= self.requests.keys().len(),
                forall|k: Seq<char>|
                    self@.contains_key(k) <==> #[trigger] self.requests.keys().contains(k),
                forall|j: int|
                    0 <= j < i ==> self@[#[trigger] self.requests.keys()[j]].mc_username@
                        != username@,
            decreases self.requests.keys().len() - i,
        {
            if same_text(self.requests.value_at(i).mc_username.as_str(), username) {
                return Some(i);
            }
            i = i + 1;
        }
        proof {
            assert forall|key: Seq<char>| !waits_for(self@, key, username@) by {
                if self@.contains_key(key) {
                    assert(self.requests.keys().contains(key));
                    let j = self.requests.keys().index_of(key);
                    assert(self.requests.keys()[j] == key);
                }
            }
        }
        None
    }

    /// Judges a code that a player typed.
    pub fn confirm(&mut self, code: &str, username: &str, now: u64) -> (r: Verdict)
        requires
            old(self).wf(),
        ensures
            final(self).wf(),
            judged(old(self)@, final(self)@, code@, username@, now, r),
    {
        let ghost before = self@;
        if let Some(p) = self.requests.get(code) {
            if !same_text(p.mc_username.as_str(), username) {
                return Verdict::Ignored;
            }
            let discord_id = p.discord_user_id;
            let mc_username = p.mc_username.clone();
            let late = p.expires_at <= now;
            let _ = self.requests.remove(code);
            return if late {
                Verdict::Expired { discord_id, mc_username }
            } else {
                Verdict::Confirmed { discord_id, mc_username }
            };
        }
        let i = match self.position_for(username) {
            Some(i) => i,
            None => return Verdict::Ignored,
        };
        let key = self.requests.key_at(i).clone();
        let p = self.requests.value_at(i);
        let discord_id = p.discord_user_id;
        let mc_username = p.mc_username.clone();
        let attempts = p.attempts + 1;
        assert(waits_for(before, key@, username@));
        if attempts >= MAX_ATTEMPTS {
            let _ = self.requests.remove(key.as_str());
            let v = Verdict::LockedOut { discord_id, mc_username };
            assert(counted(before, self@, key@, v));
            v
        } else {
            let next = PendingVerification {
                discord_user_id: discord_id,
                mc_username,
                expires_at: p.expires_at,
                attempts,
            };
            assert(next == tried_again(before[key@]));
            let ghost k = key@;
            self.requests.insert(key, next);
            assert(counted(before, self@, k, Verdict::Ignored));
            Verdict::Ignored
        }
    }

    /// Forgets the requests whose time is over.
    pub fn forget_expired(&mut self, now: u64)
        requires
            old(self).wf(),
        ensures
            final(self).wf(),
            forall|k: Seq<char>| #[trigger]
                final(self)@.contains_key(k) <==> old(self)@.contains_key(k)
                    && old(self)@[k].expires_at > now,
            forall|k: Seq<char>| #[trigger]
                final(self)@.contains_key(k) ==> final(self)@[k] == old(self)@[k],
    {
        let ghost before = self@;
        let mut i: usize = 0;
        while i < self.requests.len()
            invariant
                self.wf(),
                i <= self.requests.keys().len(),
                forall|j: int|
                    0 <= j < i ==> self@[#[trigger] self.requests.keys()[j]].expires_at > now,
                forall|k: Seq<char>| #[trigger]
                    self@.contains_key(k) ==> before.contains_key(k) && self@[k] == before[k],
                forall|k: Seq<char>| #[trigger]
                    before.contains_key(k) ==> self@.contains_key(k) || before[k].expires_at <= now,
            decreases self.requests.keys().len() - i,
        {
            if self.requests.value_at(i).expires_at > now {
                i = i + 1;
            } else {
                let key = self.requests.key_at(i).clone();
                let ghost keys = self.requests.keys();
                let ghost here = self@;
                proof {
                    self.requests.lemma_keys();
                    text_map::lemma_filter_out_one(
                        keys,
                        i as int,
                        |k: Seq<char>| k != key@,
                    );
                }
                let _ = self.requests.remove(key.as_str());
                proof {
                    assert(self.requests.keys() == keys.remove(i as int));
                    assert forall|j: int| 0 <= j < i implies self@[
                        #[trigger] self.requests.keys()[j]
                    ].expires_at > now by {
                        assert(self.requests.keys()[j] == keys[j]);
                        assert(here[keys[j]].expires_at > now);
                        assert(keys[j] != key@);
                    }
                }
            }
        }
        proof {
            self.requests.lemma_keys();
            assert forall|k: Seq<char>| #[trigger] self@.contains_key(k) implies self@[k].expires_at
                > now by {
                assert(self.requests.keys().contains(k));
                let j = self.requests.keys().index_of(k);
                assert(self.requests.keys()[j] == k);
            }
        }
    }
}

/// A request for which the right code comes in time, typed by the right player, is confirmed for
/// the Discord user who made it, and waits no more.
pub proof fn law_right_code_confirms(
    before: Map<Seq<char>, PendingVerification>,
    after: Map<Seq<char>, PendingVerification>,
    code: Seq<char>,
    now: u64,
    v: Verdict,
)
    requires
        before.contains_key(code),
        now < before[code].expires_at,
        judged(before, after, code, before[code].mc_username@, now, v),
    ensures
        v matches Verdict::Confirmed { discord_id, mc_username } && discord_id
            == before[code].discord_user_id && mc_username@ == before[code].mc_username@,
        !after.contains_key(code),
{
}

/// Nobody is confirmed but by the code of a request that waits for that very player and whose time
/// is not over.
pub proof fn law_only_right_code_confirms(
    before: Map<Seq<char>, PendingVerification>,
    after: Map<Seq<char>, PendingVerification>,
    code: Seq<char>,
    username: Seq<char>,
    now: u64,
    v: Verdict,
)
    requires
        judged(before, after, code, username, now, v),
        v is Confirmed,
    ensures
        before.contains_key(code),
        before[code].mc_username@ == username,
        now < before[code].expires_at,
{
}

/// The third wrong code ends a request: where one request waits for a player, each code that is no
/// request's counts against it, and the third such code takes it away and says so.
pub proof fn law_third_wrong_code_locks_out(
    s0: Map<Seq<char>, PendingVerification>,
    s1: Map<Seq<char>, PendingVerification>,
    s2: Map<Seq<char>, PendingVerification>,
    s3: Map<Seq<char>, PendingVerification>,
    key: Seq<char>,
    username: Seq<char>,
    codes: (Seq<char>, Seq<char>, Seq<char>),
    times: (u64, u64, u64),
    verdicts: (Verdict, Verdict, Verdict),
)
    requires
        waits_for(s0, key, username),
        s0[key].attempts == 0,
        forall|k: Seq<char>| #[trigger] waits_for(s0, k, username) ==> k == key,
        !s0.contains_key(codes.0),
        !s0.contains_key(codes.1),
        !s0.contains_key(codes.2),
        judged(s0, s1, codes.0, username, times.0, verdicts.0),
        judged(s1, s2, codes.1, username, times.1, verdicts.1),
        judged(s2, s3, codes.2, username, times.2, verdicts.2),
    ensures
        verdicts.0 is Ignored,
        verdicts.1 is Ignored,
        verdicts.2 matches Verdict::LockedOut { discord_id, mc_username } && discord_id
            == s0[key].discord_user_id && mc_username@ == username,
        s3 == s0.remove(key),
{
    assert(counted(s0, s1, key, verdicts.0));
    assert(s1 == s0.insert(key, tried_again(s0[key])));
    assert(waits_for(s1, key, username));
    assert forall|k: Seq<char>| #[trigger] waits_for(s1, k, username) implies k == key by {
        if k != key {
            assert(waits_for(s0, k, username));
        }
    }
    assert(counted(s1, s2, key, verdicts.1));
    assert(s2 == s1.insert(key, tried_again(s1[key])));
    assert(waits_for(s2, key, username));
    assert forall|k: Seq<char>| #[trigger] waits_for(s2, k, username) implies k == key by {
        if k != key {
            assert(waits_for(s1, k, username));
        }
    }
    assert(counted(s2, s3, key, verdicts.2));
    assert(s3 =~= s0.remove(key));
}

} // verus!
