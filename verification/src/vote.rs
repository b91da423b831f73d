use vstd::prelude::*;

verus! {

/// A voter's current choice in a vote session.
#[derive(Clone, Copy, PartialEq, Eq, Structural, Debug)]
pub enum Choice {
    Approve,
    Reject,
}

/// How a resolved vote session ended.
#[derive(Clone, Copy, PartialEq, Eq, Structural, Debug)]
pub enum Outcome {
    /// The action is to be performed.
    Approved,
    /// The action is not to be performed.
    Rejected,
    /// The collection window closed without any decision arriving.
    NoQuorumExpired,
}

/// The lifecycle of a vote session: a single forward transition from
/// collecting to resolved, with no way back.
#[derive(Clone, Copy, PartialEq, Eq, Structural, Debug)]
pub enum VoteState {
    Collecting,
    Resolved(Outcome),
}

/// What the first (and only) response to a stop confirmation was.
#[derive(Clone, Copy, PartialEq, Eq, Structural, Debug)]
pub enum ConfirmReply {
    Proceed,
    Cancel,
}

fn contains_val(v: &Vec<u64>, x: u64) -> (b: bool)
    ensures
        b == v@.contains(x),
{
    let mut i: usize = 0;
    while i < v.len()
        invariant
            i <= v@.len(),
            forall|j: int| 0 <= j < i ==> v@[j] != x,
        decreases v@.len() - i,
    {
        if v[i] == x {
            return true;
        }
        i = i + 1;
    }
    false
}

fn remove_val(v: &mut Vec<u64>, x: u64)
    requires
        old(v)@.no_duplicates(),
    ensures
        final(v)@.no_duplicates(),
        !final(v)@.contains(x),
        forall|y: u64| y != x ==> (final(v)@.contains(y) <==> old(v)@.contains(y)),
        old(v)@.contains(x) ==> final(v)@.len() == old(v)@.len() - 1,
        !old(v)@.contains(x) ==> final(v)@ == old(v)@,
{
    let mut i: usize = 0;
    while i < v.len()
        invariant
            i <= v@.len(),
            v@ == old(v)@,
            v@.no_duplicates(),
            forall|j: int| 0 <= j < i ==> v@[j] != x,
        decreases v@.len() - i,
    {
        if v[i] == x {
            proof {
                let s = v@;
                let t = s.remove(i as int);
                s.remove_ensures(i as int);
                assert forall|a: int, b: int| 0 <= a < b < t.len() implies t[a] != t[b] by {
                    let a0 = if a < i {
                        a
                    } else {
                        a + 1
                    };
                    let b0 = if b < i {
                        b
                    } else {
                        b + 1
                    };
                    assert(t[a] == s[a0] && t[b] == s[b0]);
                    assert(s[a0] != s[b0]);
                }
                if t.contains(x) {
                    let k = choose|k: int| 0 <= k < t.len() && t[k] == x;
                    let k0 = if k < i {
                        k
                    } else {
                        k + 1
                    };
                    assert(t[k] == s[k0]);
                    assert(s[k0] == x && s[i as int] == x);
                    assert(k0 != i);
                    assert(s[k0] != s[i as int]);
                }
                assert forall|y: u64| y != x implies (t.contains(y) <==> s.contains(y)) by {
                    if t.contains(y) {
                        let k = choose|k: int| 0 <= k < t.len() && t[k] == y;
                        let k0 = if k < i {
                            k
                        } else {
                            k + 1
                        };
                        assert(t[k] == s[k0]);
                        assert(s[k0] == y);
                    }
                    if s.contains(y) {
                        let m = choose|m: int| 0 <= m < s.len() && s[m] == y;
                        let k = if m < i {
                            m
                        } else {
                            m - 1
                        };
                        assert(t[k] == s[m]);
                        assert(t[k] == y);
                    }
                }
            }
            v.remove(i);
            return ;
        }
        i = i + 1;
    }
    proof {
        if v@.contains(x) {
            let k = choose|k: int| 0 <= k < v@.len() && v@[k] == x;
        }
    }
}

fn insert_new_val(v: &mut Vec<u64>, x: u64)
    requires
        old(v)@.no_duplicates(),
        !old(v)@.contains(x),
    ensures
        final(v)@ == old(v)@.push(x),
        final(v)@.no_duplicates(),
        final(v)@.contains(x),
        forall|y: u64| y != x ==> (final(v)@.contains(y) <==> old(v)@.contains(y)),
        final(v)@.len() == old(v)@.len() + 1,
{
    proof {
        let s = old(v)@;
        let t = s.push(x);
        assert forall|a: int, b: int| 0 <= a < b < t.len() implies t[a] != t[b] by {
            if b < s.len() {
                assert(t[a] == s[a] && t[b] == s[b]);
            } else {
                assert(t[b] == x && t[a] == s[a]);
                if s[a] == x {
                    assert(s.contains(x));
                }
            }
        }
        assert(t[s.len() as int] == x);
        assert forall|y: u64| y != x implies (t.contains(y) <==> s.contains(y)) by {
            if t.contains(y) {
                let k = choose|k: int| 0 <= k < t.len() && t[k] == y;
                assert(k < s.len());
                assert(s[k] == y);
            }
            if s.contains(y) {
                let m = choose|m: int| 0 <= m < s.len() && s[m] == y;
                assert(t[m] == y);
            }
        }
    }
    v.push(x);
}

/// A time-boxed collective decision.
///
/// The eligible-voter set is a snapshot taken at creation; the initiator's
/// approval is pre-seeded before any other ballot.  Ballots are accepted
/// only while collecting and only from the snapshot; a later ballot from
/// the same voter replaces the earlier one.  Once resolved the session is
/// terminal.
pub struct VoteSession {
    initiator: u64,
    eligible: Vec<u64>,
    approvers: Vec<u64>,
    rejecters: Vec<u64>,
    state: VoteState,
}

impl VoteSession {
    /// Who started the vote (and implicitly approves).
    pub closed spec fn initiator_id(self) -> u64 {
        self.initiator
    }

    /// The eligible-voter snapshot taken at creation.
    pub closed spec fn eligible_set(self) -> Set<u64> {
        self.eligible@.to_set()
    }

    /// Where the session stands.
    pub closed spec fn status(self) -> VoteState {
        self.state
    }

    /// Whether `v`'s latest ballot is an approval.
    pub closed spec fn approved(self, v: u64) -> bool {
        self.approvers@.contains(v)
    }

    /// Whether `v`'s latest ballot is a rejection.
    pub closed spec fn rejected(self, v: u64) -> bool {
        self.rejecters@.contains(v)
    }

    /// `v`'s latest ballot, if any.
    pub open spec fn ballot_of(self, v: u64) -> Option<Choice> {
        if self.approved(v) {
            Some(Choice::Approve)
        } else if self.rejected(v) {
            Some(Choice::Reject)
        } else {
            None
        }
    }

    /// How many distinct voters currently approve.
    pub closed spec fn approve_count(self) -> nat {
        self.approvers@.len()
    }

    /// How many distinct voters currently reject.
    pub closed spec fn reject_count(self) -> nat {
        self.rejecters@.len()
    }

    /// The distinct voters whose latest ballot is an approval.
    pub closed spec fn approver_set(self) -> Set<u64> {
        self.approvers@.to_set()
    }

    /// The distinct voters whose latest ballot is a rejection.
    pub closed spec fn rejecter_set(self) -> Set<u64> {
        self.rejecters@.to_set()
    }

    /// Internal consistency: each roster lists a voter at most once, and no
    /// voter stands in both.
    pub closed spec fn wf(self) -> bool {
        &&& self.approvers@.no_duplicates()
        &&& self.rejecters@.no_duplicates()
        &&& forall|v: u64| !(self.approvers@.contains(v) && self.rejecters@.contains(v))
    }

    /// Opens a vote by `initiator` over the eligible snapshot, pre-seeding
    /// the initiator's approval.  When nobody else is around — the snapshot
    /// is empty or holds only the initiator — the session resolves to
    /// approved at once, with no collection phase.
    pub fn new(initiator: u64, eligible: Vec<u64>) -> (s: VoteSession)
        ensures
            s.wf(),
            s.initiator_id() == initiator,
            s.eligible_set() == eligible@.to_set(),
            s.approved(initiator),
            s.approve_count() == 1,
            s.reject_count() == 0,
            forall|v: u64| v != initiator ==> s.ballot_of(v) is None,
            s.status() == (if forall|v: u64| #[trigger]
                eligible@.contains(v) ==> v == initiator {
                VoteState::Resolved(Outcome::Approved)
            } else {
                VoteState::Collecting
            }),
    {
        let mut only_initiator = true;
        let mut i: usize = 0;
        while i < eligible.len()
            invariant
                i <= eligible@.len(),
                only_initiator == (forall|j: int| 0 <= j < i ==> eligible@[j] == initiator),
            decreases eligible@.len() - i,
        {
            if eligible[i] != initiator {
                only_initiator = false;
            }
            i = i + 1;
        }
        proof {
            if only_initiator {
                assert forall|v: u64| #[trigger] eligible@.contains(v) implies v == initiator by {
                    let j = choose|j: int| 0 <= j < eligible@.len() && eligible@[j] == v;
                }
            } else {
                let j = choose|j: int| 0 <= j < eligible@.len() && eligible@[j] != initiator;
                assert(eligible@.contains(eligible@[j]));
            }
        }
        let state = if only_initiator {
            VoteState::Resolved(Outcome::Approved)
        } else {
            VoteState::Collecting
        };
        let mut approvers: Vec<u64> = Vec::new();
        approvers.push(initiator);
        let s = VoteSession { initiator, eligible, approvers, rejecters: Vec::new(), state };
        proof {
            assert(s.approvers@ =~= seq![initiator]);
            assert(s.approvers@[0] == initiator);
            assert forall|v: u64| v != initiator implies s.ballot_of(v) is None by {
                if s.approvers@.contains(v) {
                    let k = choose|k: int| 0 <= k < s.approvers@.len() && s.approvers@[k] == v;
                }
                if s.rejecters@.contains(v) {
                    let k = choose|k: int| 0 <= k < s.rejecters@.len() && s.rejecters@[k] == v;
                }
            }
            assert(s.approvers@.contains(initiator));
        }
        s
    }

    /// Reads the session's lifecycle state.
    pub fn state(&self) -> (st: VoteState)
        ensures
            st == self.status(),
    {
        self.state
    }

    /// The live tally: distinct approvers and distinct rejecters, counting
    /// only the latest ballot of each voter.
    pub fn tally(&self) -> (t: (usize, usize))
        ensures
            t.0 == self.approve_count(),
            t.1 == self.reject_count(),
    {
        (self.approvers.len(), self.rejecters.len())
    }

    /// A snapshot of who currently approves, for republishing the live
    /// state after each accepted ballot.
    pub fn approver_roster(&self) -> (r: Vec<u64>)
        ensures
            r@.to_set() == self.approver_set(),
            r@.len() == self.approve_count(),
    {
        let mut out: Vec<u64> = Vec::new();
        let mut i: usize = 0;
        while i < self.approvers.len()
            invariant
                i <= self.approvers@.len(),
                out@ == self.approvers@.take(i as int),
            decreases self.approvers@.len() - i,
        {
            out.push(self.approvers[i]);
            proof {
                assert(self.approvers@.take(i + 1 as int) =~= self.approvers@.take(
                    i as int,
                ).push(self.approvers@[i as int]));
            }
            i = i + 1;
        }
        proof {
            assert(self.approvers@.take(self.approvers@.len() as int) =~= self.approvers@);
        }
        out
    }

    /// A snapshot of who currently rejects.
    pub fn rejecter_roster(&self) -> (r: Vec<u64>)
        ensures
            r@.to_set() == self.rejecter_set(),
            r@.len() == self.reject_count(),
    {
        let mut out: Vec<u64> = Vec::new();
        let mut i: usize = 0;
        while i < self.rejecters.len()
            invariant
                i <= self.rejecters@.len(),
                out@ == self.rejecters@.take(i as int),
            decreases self.rejecters@.len() - i,
        {
            out.push(self.rejecters[i]);
            proof {
                assert(self.rejecters@.take(i + 1 as int) =~= self.rejecters@.take(
                    i as int,
                ).push(self.rejecters@[i as int]));
            }
            i = i + 1;
        }
        proof {
            assert(self.rejecters@.take(self.rejecters@.len() as int) =~= self.rejecters@);
        }
        out
    }

    /// Records a ballot.  It is accepted only while collecting and only
    /// from the eligible snapshot; anything else is silently ignored and
    /// changes nothing, so the caller republishes the tally exactly when
    /// `true` comes back.  An accepted ballot replaces the voter's earlier
    /// one; every other voter's ballot is untouched.
    pub fn cast(&mut self, voter: u64, choice: Choice) -> (accepted: bool)
        requires
            old(self).wf(),
        ensures
            final(self).wf(),
            accepted == (old(self).status() is Collecting && old(self).eligible_set().contains(
                voter,
            )),
            !accepted ==> *final(self) == *old(self),
            final(self).status() == old(self).status(),
            final(self).initiator_id() == old(self).initiator_id(),
            final(self).eligible_set() == old(self).eligible_set(),
            accepted ==> final(self).ballot_of(voter) == Some(choice),
            accepted ==> forall|u: u64| u != voter ==> final(self).ballot_of(u) == old(
                self,
            ).ballot_of(u),
            accepted && choice == Choice::Approve ==> final(self).approve_count() == old(
                self,
            ).approve_count() + (if old(self).approved(voter) {
                0int
            } else {
                1int
            }) && final(self).reject_count() == old(self).reject_count() - (if old(self).rejected(
                voter,
            ) {
                1int
            } else {
                0int
            }),
            accepted && choice == Choice::Reject ==> final(self).reject_count() == old(
                self,
            ).reject_count() + (if old(self).rejected(voter) {
                0int
            } else {
                1int
            }) && final(self).approve_count() == old(self).approve_count() - (if old(self).approved(
                voter,
            ) {
                1int
            } else {
                0int
            }),
    {
        match self.state {
            VoteState::Collecting => {},
            VoteState::Resolved(_) => {
                return false;
            },
        }
        if !contains_val(&self.eligible, voter) {
            proof {
                if old(self).eligible_set().contains(voter) {
                    assert(old(self).eligible@.to_set().contains(voter));
                }
            }
            return false;
        }
        match choice {
            Choice::Approve => {
                remove_val(&mut self.rejecters, voter);
                remove_val(&mut self.approvers, voter);
                insert_new_val(&mut self.approvers, voter);
            },
            Choice::Reject => {
                remove_val(&mut self.approvers, voter);
                remove_val(&mut self.rejecters, voter);
                insert_new_val(&mut self.rejecters, voter);
            },
        }
        proof {
            assert(self.eligible@ == old(self).eligible@);
        }
        true
    }

    /// Resolution at the deadline: a strict approve majority resolves to
    /// approved, a tie or worse to rejected.  On a session already resolved
    /// — the fast path — nothing changes and the standing outcome is
    /// reported.
    pub fn resolve_at_deadline(&mut self) -> (o: Outcome)
        requires
            old(self).wf(),
        ensures
            final(self).wf(),
            old(self).status() is Collecting ==> o == (if old(self).approve_count() > old(
                self,
            ).reject_count() {
                Outcome::Approved
            } else {
                Outcome::Rejected
            }),
            old(self).status() matches VoteState::Resolved(prior) ==> o == prior && *final(self)
                == *old(self),
            final(self).status() == VoteState::Resolved(o),
            final(self).initiator_id() == old(self).initiator_id(),
            final(self).eligible_set() == old(self).eligible_set(),
            final(self).approve_count() == old(self).approve_count(),
            final(self).reject_count() == old(self).reject_count(),
            forall|u: u64| final(self).ballot_of(u) == old(self).ballot_of(u),
    {
        match self.state {
            VoteState::Resolved(prior) => prior,
            VoteState::Collecting => {
                let o = if self.approvers.len() > self.rejecters.len() {
                    Outcome::Approved
                } else {
                    Outcome::Rejected
                };
                self.state = VoteState::Resolved(o);
                o
            },
        }
    }
}

/// Tally law: under well-formedness the published tally is exactly the
/// number of distinct voters whose latest ballot is an approval,
/// respectively a rejection, with no voter counted twice.
pub proof fn lemma_tally_counts_latest_ballots(s: VoteSession)
    requires
        s.wf(),
    ensures
        s.approve_count() == s.approver_set().len(),
        s.reject_count() == s.rejecter_set().len(),
        forall|v: u64| s.approver_set().contains(v) <==> s.ballot_of(v) == Some(Choice::Approve),
        forall|v: u64| s.rejecter_set().contains(v) <==> s.ballot_of(v) == Some(Choice::Reject),
        s.approver_set().disjoint(s.rejecter_set()),
{
    s.approvers@.unique_seq_to_set();
    s.rejecters@.unique_seq_to_set();
    assert forall|v: u64|
        s.approver_set().contains(v) <==> s.ballot_of(v) == Some(Choice::Approve) by {
        assert(s.approver_set().contains(v) == s.approvers@.to_set().contains(v));
    }
    assert(s.approver_set().disjoint(s.rejecter_set())) by {
        assert forall|v: u64|
            s.approver_set().contains(v) implies !s.rejecter_set().contains(v) by {
            assert(!(s.approvers@.contains(v) && s.rejecters@.contains(v)));
        }
    }
}

/// The eligible-voter snapshot for a vote: the identities of the non-bot
/// members present, with every bot screened out.
pub fn eligible_voters(members: &Vec<(u64, bool)>) -> (r: Vec<u64>)
    ensures
        forall|v: u64|
            #[trigger] r@.contains(v) <==> exists|i: int|
                0 <= i < members@.len() && #[trigger] members@[i] == (v, false),
{
    let mut out: Vec<u64> = Vec::new();
    let mut i: usize = 0;
    while i < members.len()
        invariant
            i <= members@.len(),
            forall|v: u64|
                #[trigger] out@.contains(v) <==> exists|j: int|
                    0 <= j < i && #[trigger] members@[j] == (v, false),
        decreases members@.len() - i,
    {
        let (id, is_bot) = members[i];
        if !is_bot {
            let ghost prev = out@;
            out.push(id);
            proof {
                assert(members@[i as int] == (id, false));
                assert forall|v: u64| #[trigger] out@.contains(v) implies exists|j: int|
                    0 <= j < i + 1 && #[trigger] members@[j] == (v, false) by {
                    let k = choose|k: int| 0 <= k < out@.len() && out@[k] == v;
                    if k < prev.len() {
                        assert(prev.contains(v));
                    } else {
                        assert(out@[k] == id);
                        assert(members@[i as int] == (v, false));
                    }
                }
                assert forall|v: u64|
                    (exists|j: int| 0 <= j < i + 1 && #[trigger] members@[j] == (v, false))
                        implies #[trigger] out@.contains(v) by {
                    let j = choose|j: int| 0 <= j < i + 1 && members@[j] == (v, false);
                    if j < i {
                        assert(prev.contains(v));
                        let k = choose|k: int| 0 <= k < prev.len() && prev[k] == v;
                        assert(out@[k] == v);
                    } else {
                        assert(out@[out@.len() - 1] == id);
                        assert(v == id);
                    }
                }
            }
        } else {
            proof {
                assert(members@[i as int] == (id, true));
                assert forall|v: u64|
                    (exists|j: int| 0 <= j < i + 1 && #[trigger] members@[j] == (v, false))
                        implies #[trigger] out@.contains(v) by {
                    let j = choose|j: int| 0 <= j < i + 1 && members@[j] == (v, false);
                    assert(j < i);
                }
            }
        }
        i = i + 1;
    }
    out
}

/// The outcome of the binary stop confirmation: the first decisive response
/// settles it, and a window that closes with no response at all expires
/// with no decision, which the caller treats as cancellation.
pub fn confirm_outcome(reply: Option<ConfirmReply>) -> (o: Outcome)
    ensures
        reply == Some(ConfirmReply::Proceed) ==> o == Outcome::Approved,
        reply == Some(ConfirmReply::Cancel) ==> o == Outcome::Rejected,
        reply is None ==> o == Outcome::NoQuorumExpired,
{
    match reply {
        Some(ConfirmReply::Proceed) => Outcome::Approved,
        Some(ConfirmReply::Cancel) => Outcome::Rejected,
        None => Outcome::NoQuorumExpired,
    }
}

} // verus!
