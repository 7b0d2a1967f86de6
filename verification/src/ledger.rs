//! The escrow-and-governance state machine.
//!
//! [`DeCoMVP`] owns the whole persisted state of the system: the singleton
//! administrator configuration, the project records, the vote records, the
//! VC records and their append-only roster, and the per-(VC, founder)
//! investment records. Each public operation is one atomic transition: it
//! either returns `Ok` and performs exactly the state change its contract
//! states, or returns an [`Error`] and leaves the state untouched.
//!
//! Callers are principals (`u64`). The ledger assumes every caller passed
//! in has already been authenticated by the host; privileged operations
//! additionally compare the caller against the stored administrator.
//! Operations that move value return a [`TokenTransfer`] order for the
//! host to execute against the external token service; if that execution
//! fails, the host discards the new state, so the failed call as a whole
//! leaves no trace.

use vstd::prelude::*;

use crate::assoc;
use crate::errors::Error;
use crate::records::AdminConfig;
use crate::records::StartupData;
use crate::records::TokenTransfer;
use crate::records::VCData;
use crate::tally;

verus! {

/// Seconds in the fixed voting window that opens when a founder applies.
pub const VOTING_WINDOW_SECONDS: u64 = 7 * 24 * 60 * 60;

/// The complete state of the escrow-and-governance ledger.
///
/// The record families are kept as keyed sequences in insertion order;
/// [`DeCoMVP::wf`] states the invariants that every operation preserves.
#[derive(Clone, Debug)]
pub struct DeCoMVP {
    /// The administrator configuration; `None` until `init` runs.
    pub config: Option<AdminConfig>,
    /// Project records, keyed by founder principal, in application order.
    pub startups: Vec<(u64, StartupData)>,
    /// Vote records, keyed by (voter, founder), in casting order.
    pub votes: Vec<((u64, u64), bool)>,
    /// VC records, keyed by VC principal.
    pub vcs: Vec<(u64, VCData)>,
    /// Every principal that ever registered as a VC, in registration
    /// order; never pruned, so it can repeat a principal that withdrew
    /// its stake and registered again.
    pub all_vcs: Vec<u64>,
    /// Cumulative investment amounts, keyed by (VC, founder); never
    /// removed, not even when the VC withdraws its stake.
    pub investments: Vec<((u64, u64), i128)>,
}

/// The balance pipeline of a single project record is well-ordered:
/// nothing is claimed that was not unlocked, nothing unlocked that was
/// not allocated.
pub open spec fn startup_balances_ok(d: StartupData) -> bool {
    0 <= d.claimed_balance <= d.unlocked_balance <= d.total_allocated
}

/// The project record a successful application creates: the given
/// metadata, every balance zero, an open voting window ending at
/// `voting_end_time`, an empty tally, and no approval.
pub open spec fn fresh_startup(
    project_name: String,
    description: String,
    project_url: String,
    team_info: String,
    funding_goal: i128,
    voting_end_time: u64,
) -> StartupData {
    StartupData {
        project_name,
        description,
        project_url,
        team_info,
        funding_goal,
        total_allocated: 0,
        unlocked_balance: 0,
        claimed_balance: 0,
        voting_end_time,
        yes_votes: 0,
        no_votes: 0,
        approved: false,
    }
}

/// The record `d` with its tally replaced by `yes` and `no`.
pub open spec fn with_tally(d: StartupData, yes: u32, no: u32) -> StartupData {
    StartupData {
        project_name: d.project_name,
        description: d.description,
        project_url: d.project_url,
        team_info: d.team_info,
        funding_goal: d.funding_goal,
        total_allocated: d.total_allocated,
        unlocked_balance: d.unlocked_balance,
        claimed_balance: d.claimed_balance,
        voting_end_time: d.voting_end_time,
        yes_votes: yes,
        no_votes: no,
        approved: d.approved,
    }
}

/// The record `d` with its approval flag set.
pub open spec fn with_approved(d: StartupData) -> StartupData {
    StartupData {
        project_name: d.project_name,
        description: d.description,
        project_url: d.project_url,
        team_info: d.team_info,
        funding_goal: d.funding_goal,
        total_allocated: d.total_allocated,
        unlocked_balance: d.unlocked_balance,
        claimed_balance: d.claimed_balance,
        voting_end_time: d.voting_end_time,
        yes_votes: d.yes_votes,
        no_votes: d.no_votes,
        approved: true,
    }
}

/// The record `d` with its allocation replaced by `total`.
pub open spec fn with_allocated(d: StartupData, total: i128) -> StartupData {
    StartupData {
        project_name: d.project_name,
        description: d.description,
        project_url: d.project_url,
        team_info: d.team_info,
        funding_goal: d.funding_goal,
        total_allocated: total,
        unlocked_balance: d.unlocked_balance,
        claimed_balance: d.claimed_balance,
        voting_end_time: d.voting_end_time,
        yes_votes: d.yes_votes,
        no_votes: d.no_votes,
        approved: d.approved,
    }
}

/// The record `d` with its unlocked balance replaced by `unlocked`.
pub open spec fn with_unlocked(d: StartupData, unlocked: i128) -> StartupData {
    StartupData {
        project_name: d.project_name,
        description: d.description,
        project_url: d.project_url,
        team_info: d.team_info,
        funding_goal: d.funding_goal,
        total_allocated: d.total_allocated,
        unlocked_balance: unlocked,
        claimed_balance: d.claimed_balance,
        voting_end_time: d.voting_end_time,
        yes_votes: d.yes_votes,
        no_votes: d.no_votes,
        approved: d.approved,
    }
}

/// The VC record `v` with its invested total replaced by `total`.
pub open spec fn vc_with_invested(v: VCData, total: i128) -> VCData {
    VCData {
        vc_address: v.vc_address,
        company_name: v.company_name,
        stake_amount: v.stake_amount,
        total_invested: total,
    }
}

/// The record `d` with its claimed balance replaced by `claimed`.
pub open spec fn with_claimed(d: StartupData, claimed: i128) -> StartupData {
    StartupData {
        project_name: d.project_name,
        description: d.description,
        project_url: d.project_url,
        team_info: d.team_info,
        funding_goal: d.funding_goal,
        total_allocated: d.total_allocated,
        unlocked_balance: d.unlocked_balance,
        claimed_balance: claimed,
        voting_end_time: d.voting_end_time,
        yes_votes: d.yes_votes,
        no_votes: d.no_votes,
        approved: d.approved,
    }
}

impl DeCoMVP {
    /// Whether `init` has run.
    pub open spec fn initialized(self) -> bool {
        self.config is Some
    }

    /// The stored administrator principal.
    pub open spec fn admin_principal(self) -> u64 {
        self.config.unwrap().admin
    }

    /// The stored application fee.
    pub open spec fn application_fee(self) -> i128 {
        self.config.unwrap().application_fee
    }

    /// The stored stake requirement for VC registration.
    pub open spec fn vc_stake_required(self) -> i128 {
        self.config.unwrap().vc_stake_required
    }

    /// Whether the founder `f` has a project record.
    pub open spec fn has_startup(self, f: u64) -> bool {
        assoc::has_key(self.startups@, f)
    }

    /// The founder `f`'s project record.
    pub open spec fn startup(self, f: u64) -> StartupData {
        assoc::value_of(self.startups@, f)
    }

    /// Whether `voter` has a vote record on `f`'s project.
    pub open spec fn has_vote(self, voter: u64, f: u64) -> bool {
        assoc::has_key(self.votes@, (voter, f))
    }

    /// Whether the principal `vc` currently holds a VC record.
    pub open spec fn has_vc(self, vc: u64) -> bool {
        assoc::has_key(self.vcs@, vc)
    }

    /// The principal `vc`'s VC record.
    pub open spec fn vc(self, vc: u64) -> VCData {
        assoc::value_of(self.vcs@, vc)
    }

    /// Whether an investment record exists for the pair `(vc, f)`.
    pub open spec fn has_investment(self, vc: u64, f: u64) -> bool {
        assoc::has_key(self.investments@, (vc, f))
    }

    /// The cumulative amount `vc` has invested into `f`'s project; zero
    /// when no investment record exists.
    pub open spec fn investment(self, vc: u64, f: u64) -> i128 {
        if self.has_investment(vc, f) {
            assoc::value_of(self.investments@, (vc, f))
        } else {
            0
        }
    }

    /// A VC record entry is internally consistent with the rest of the
    /// state: the ledger is initialized, the record repeats its own key,
    /// its stake is the configured requirement (the configuration never
    /// changes after `init`), and its invested total is nonnegative and
    /// no more than the investment records sum to.
    ///
    /// The invested total can fall short of that sum: a stake withdrawal
    /// deletes the VC record but keeps the investment records, so a
    /// principal that withdraws and registers again starts counting from
    /// zero against records that persist.
    pub open spec fn vc_entry_ok(self, e: (u64, VCData)) -> bool {
        &&& self.initialized()
        &&& e.1.vc_address == e.0
        &&& e.1.stake_amount == self.vc_stake_required()
        &&& 0 <= e.1.total_invested <= tally::invested_sum(self.investments@, e.0)
    }

    /// The ledger's invariant. It holds of the empty ledger and every
    /// operation preserves it:
    /// every record family is keyed uniquely; every project's balance
    /// pipeline is well-ordered; every project's tally equals the number
    /// of vote records cast on it; every vote record points at an
    /// existing project; every investment record is nonnegative; and
    /// every VC record is consistent with the configuration and the
    /// investment records.
    pub open spec fn wf(self) -> bool {
        &&& assoc::keys_unique(self.startups@)
        &&& assoc::keys_unique(self.votes@)
        &&& assoc::keys_unique(self.vcs@)
        &&& assoc::keys_unique(self.investments@)
        &&& forall|i: int|
            0 <= i < self.startups@.len() ==> startup_balances_ok((#[trigger] self.startups@[i]).1)
        &&& forall|i: int|
            0 <= i < self.startups@.len() ==> (#[trigger] self.startups@[i]).1.yes_votes
                + self.startups@[i].1.no_votes == tally::vote_count(
                self.votes@,
                self.startups@[i].0,
            )
        &&& forall|i: int|
            0 <= i < self.votes@.len() ==> assoc::has_key(
                self.startups@,
                (#[trigger] self.votes@[i]).0.1,
            )
        &&& forall|i: int| 0 <= i < self.investments@.len() ==> (#[trigger] self.investments@[i]).1 >= 0
        &&& forall|i: int| 0 <= i < self.vcs@.len() ==> self.vc_entry_ok(#[trigger] self.vcs@[i])
    }

    /// A fresh, empty, uninitialized ledger.
    pub fn new() -> (r: DeCoMVP)
        ensures
            r.wf(),
            !r.initialized(),
            r.startups@ == Seq::<(u64, StartupData)>::empty(),
            r.votes@ == Seq::<((u64, u64), bool)>::empty(),
            r.vcs@ == Seq::<(u64, VCData)>::empty(),
            r.all_vcs@ == Seq::<u64>::empty(),
            r.investments@ == Seq::<((u64, u64), i128)>::empty(),
    {
        DeCoMVP {
            config: None,
            startups: Vec::new(),
            votes: Vec::new(),
            vcs: Vec::new(),
            all_vcs: Vec::new(),
            investments: Vec::new(),
        }
    }

    /// Store the administrator configuration. Succeeds exactly once per
    /// ledger: a second call fails with `AlreadyInitialized` and changes
    /// nothing. The configuration is immutable afterwards — no operation
    /// of the ledger rewrites it.
    pub fn init(&mut self, admin: u64, fee: i128, vc_stake_required: i128) -> (r: Result<
        (),
        Error,
    >)
        requires
            old(self).wf(),
        ensures
            final(self).wf(),
            r is Ok <==> !old(self).initialized(),
            r is Err ==> r == Err::<(), Error>(Error::AlreadyInitialized)
                && *final(self) == *old(self),
            r is Ok ==> final(self).config == (Some(
                AdminConfig { admin, application_fee: fee, vc_stake_required },
            )),
            r is Ok ==> final(self).startups@ == old(self).startups@
                && final(self).votes@ == old(self).votes@
                && final(self).vcs@ == old(self).vcs@
                && final(self).all_vcs@ == old(self).all_vcs@
                && final(self).investments@ == old(self).investments@,
    {
        if self.config.is_some() {
            return Err(Error::AlreadyInitialized);
        }
        proof {
            // VC records exist only after initialization, so there are none
            // to hold to the incoming stake requirement
            if self.vcs@.len() > 0 {
                assert(self.vc_entry_ok(self.vcs@[0]));
            }
        }
        self.config = Some(AdminConfig { admin, application_fee: fee, vc_stake_required });
        Ok(())
    }

    /// Register the founder's project. Fails with `AlreadyApplied`, and
    /// changes nothing, if the founder already has a project record. On
    /// success the founder's record is appended: all balances zero, no
    /// approval, and a voting window open until `now` plus seven days
    /// (so the roster of founders grows by exactly this founder, in
    /// application order).
    ///
    /// The caller has been authenticated as `founder` by the host, which
    /// also supplies the current time `now`.
    pub fn apply(
        &mut self,
        founder: u64,
        project_name: String,
        description: String,
        project_url: String,
        team_info: String,
        funding_goal: i128,
        now: u64,
    ) -> (r: Result<(), Error>)
        requires
            old(self).wf(),
            now + VOTING_WINDOW_SECONDS <= u64::MAX,
        ensures
            final(self).wf(),
            r is Ok <==> !old(self).has_startup(founder),
            r is Err ==> r == Err::<(), Error>(Error::AlreadyApplied)
                && *final(self) == *old(self),
            r is Ok ==> final(self).startups@ == old(self).startups@.push(
                (
                    founder,
                    fresh_startup(
                        project_name,
                        description,
                        project_url,
                        team_info,
                        funding_goal,
                        (now + VOTING_WINDOW_SECONDS) as u64,
                    ),
                ),
            ),
            r is Ok ==> final(self).has_startup(founder) && final(self).startup(founder)
                == fresh_startup(
                project_name,
                description,
                project_url,
                team_info,
                funding_goal,
                (now + VOTING_WINDOW_SECONDS) as u64,
            ),
            r is Ok ==> forall|g: u64|
                g != founder && old(self).has_startup(g) ==> final(self).has_startup(g)
                    && final(self).startup(g) == old(self).startup(g),
            r is Ok ==> forall|g: u64|
                g != founder && final(self).has_startup(g) ==> old(self).has_startup(g),
            final(self).votes@ == old(self).votes@,
            final(self).vcs@ == old(self).vcs@,
            final(self).all_vcs@ == old(self).all_vcs@,
            final(self).investments@ == old(self).investments@,
            final(self).config == old(self).config,
    {
        if self.find_startup(founder).is_some() {
            return Err(Error::AlreadyApplied);
        }
        let voting_end_time = now + VOTING_WINDOW_SECONDS;
        let data = StartupData {
            project_name,
            description,
            project_url,
            team_info,
            funding_goal,
            total_allocated: 0,
            unlocked_balance: 0,
            claimed_balance: 0,
            voting_end_time,
            yes_votes: 0,
            no_votes: 0,
            approved: false,
        };
        proof {
            assoc::lemma_push(self.startups@, founder, data);
            assert(forall|i: int|
                0 <= i < self.votes@.len() ==> (#[trigger] self.votes@[i]).0.1 != founder);
            tally::lemma_vote_count_absent(self.votes@, founder);
        }
        let ghost olds = self.startups@;
        self.startups.push((founder, data));
        proof {
            let news = self.startups@;
            assert(forall|i: int| 0 <= i < olds.len() ==> #[trigger] news[i] == olds[i]);
            assert forall|i: int| 0 <= i < self.votes@.len() implies assoc::has_key(
                news,
                (#[trigger] self.votes@[i]).0.1,
            ) by {
                assert(assoc::has_key(olds, self.votes@[i].0.1));
            }
        }
        Ok(())
    }

    /// Cast `voter`'s vote on the founder's project. Fails with
    /// `NotFound` if the founder has no project record, with
    /// `VotingClosed` if `now` is strictly past the project's voting
    /// window (the boundary instant itself still accepts votes), and
    /// with `AlreadyVoted` if a `(voter, founder)` vote record already
    /// exists — so at most one vote per voter per project ever succeeds.
    /// Any failure changes nothing. On success the vote record and the
    /// matching tally increment appear together, atomically.
    ///
    /// The caller has been authenticated as `voter` by the host, which
    /// also supplies the current time `now`. The tally counters cannot
    /// saturate before the vote records do, whence the bound required of
    /// them.
    pub fn vote(&mut self, voter: u64, founder: u64, vote_yes: bool, now: u64) -> (r: Result<
        (),
        Error,
    >)
        requires
            old(self).wf(),
            old(self).has_startup(founder) && now <= old(self).startup(founder).voting_end_time
                && !old(self).has_vote(voter, founder) ==> old(self).startup(founder).yes_votes
                + old(self).startup(founder).no_votes < u32::MAX,
        ensures
            final(self).wf(),
            r is Ok <==> old(self).has_startup(founder) && now <= old(self).startup(
                founder,
            ).voting_end_time && !old(self).has_vote(voter, founder),
            r == Err::<(), Error>(Error::NotFound) <==> !old(self).has_startup(founder),
            r == Err::<(), Error>(Error::VotingClosed) <==> old(self).has_startup(founder) && now
                > old(self).startup(founder).voting_end_time,
            r == Err::<(), Error>(Error::AlreadyVoted) <==> old(self).has_startup(founder) && now
                <= old(self).startup(founder).voting_end_time && old(self).has_vote(voter, founder),
            r is Err ==> *final(self) == *old(self),
            r is Ok ==> final(self).votes@ == old(self).votes@.push(((voter, founder), vote_yes)),
            r is Ok ==> final(self).has_vote(voter, founder) && assoc::value_of(
                final(self).votes@,
                (voter, founder),
            ) == vote_yes,
            r is Ok ==> final(self).has_startup(founder) && final(self).startup(founder)
                == with_tally(
                old(self).startup(founder),
                (old(self).startup(founder).yes_votes + if vote_yes {
                    1int
                } else {
                    0int
                }) as u32,
                (old(self).startup(founder).no_votes + if vote_yes {
                    0int
                } else {
                    1int
                }) as u32,
            ),
            r is Ok ==> final(self).startups@.len() == old(self).startups@.len() && forall|i: int|
                0 <= i < old(self).startups@.len() ==> (#[trigger] final(self).startups@[i]).0
                    == old(self).startups@[i].0,
            r is Ok ==> forall|g: u64|
                g != founder && old(self).has_startup(g) ==> final(self).has_startup(g)
                    && final(self).startup(g) == old(self).startup(g),
            r is Ok ==> forall|g: u64|
                g != founder && final(self).has_startup(g) ==> old(self).has_startup(g),
            r is Ok ==> forall|v: u64, g: u64|
                (v, g) != (voter, founder) && old(self).has_vote(v, g) ==> final(self).has_vote(
                    v,
                    g,
                ),
            final(self).vcs@ == old(self).vcs@,
            final(self).all_vcs@ == old(self).all_vcs@,
            final(self).investments@ == old(self).investments@,
            final(self).config == old(self).config,
    {
        let idx = match self.find_startup(founder) {
            Some(i) => i,
            None => { return Err(Error::NotFound) },
        };
        proof {
            assoc::lemma_value_at_index(self.startups@, founder, idx as int);
        }
        if now > self.startups[idx].1.voting_end_time {
            return Err(Error::VotingClosed);
        }
        if self.find_vote(voter, founder).is_some() {
            return Err(Error::AlreadyVoted);
        }
        let ghost oldvotes = self.votes@;
        let ghost olds = self.startups@;
        proof {
            assoc::lemma_push(self.votes@, (voter, founder), vote_yes);
            tally::lemma_vote_count_push(self.votes@, voter, founder, vote_yes);
        }
        self.votes.push(((voter, founder), vote_yes));
        if vote_yes {
            let y = self.startups[idx].1.yes_votes;
            self.startups[idx].1.yes_votes = y + 1;
        } else {
            let n = self.startups[idx].1.no_votes;
            self.startups[idx].1.no_votes = n + 1;
        }
        proof {
            let news = self.startups@;
            let d = olds[idx as int].1;
            let d2 = with_tally(
                d,
                (d.yes_votes + if vote_yes { 1int } else { 0int }) as u32,
                (d.no_votes + if vote_yes { 0int } else { 1int }) as u32,
            );
            assert(news =~= olds.update(idx as int, (founder, d2)));
            assoc::lemma_update(olds, idx as int, d2);
            assert forall|i: int| 0 <= i < news.len() implies (#[trigger] news[i]).1.yes_votes
                + news[i].1.no_votes == tally::vote_count(self.votes@, news[i].0) by {
                if i != idx as int {
                    assert(news[i] == olds[i]);
                    assert(olds[i].0 != founder);
                }
            }
            assert forall|i: int| 0 <= i < self.votes@.len() implies assoc::has_key(
                news,
                (#[trigger] self.votes@[i]).0.1,
            ) by {
                if i < oldvotes.len() {
                    assert(self.votes@[i] == oldvotes[i]);
                    let g = oldvotes[i].0.1;
                    if g != founder {
                        assert(assoc::has_key(olds, g));
                    }
                }
            }
        }
        Ok(())
    }

    /// Mark the founder's project approved. Fails with `Unauthorized` if
    /// the caller is not the stored administrator, and with `NotFound`
    /// if the founder has no project record; failures change nothing.
    /// Approval is a pure administrative act: the tally is advisory
    /// input to the administrator, never a gate.
    ///
    /// The caller has been authenticated by the host; this operation
    /// checks that it is the administrator. The ledger must be
    /// initialized for an administrator to exist at all.
    pub fn approve_application(&mut self, caller: u64, founder: u64) -> (r: Result<(), Error>)
        requires
            old(self).wf(),
            old(self).initialized(),
        ensures
            final(self).wf(),
            r is Ok <==> caller == old(self).admin_principal() && old(self).has_startup(founder),
            r == Err::<(), Error>(Error::Unauthorized) <==> caller != old(self).admin_principal(),
            r == Err::<(), Error>(Error::NotFound) <==> caller == old(self).admin_principal()
                && !old(self).has_startup(founder),
            r is Err ==> *final(self) == *old(self),
            r is Ok ==> final(self).has_startup(founder) && final(self).startup(founder)
                == with_approved(old(self).startup(founder)),
            r is Ok ==> final(self).startups@.len() == old(self).startups@.len() && forall|i: int|
                0 <= i < old(self).startups@.len() ==> (#[trigger] final(self).startups@[i]).0
                    == old(self).startups@[i].0,
            r is Ok ==> forall|g: u64|
                g != founder && old(self).has_startup(g) ==> final(self).has_startup(g)
                    && final(self).startup(g) == old(self).startup(g),
            r is Ok ==> forall|g: u64|
                g != founder && final(self).has_startup(g) ==> old(self).has_startup(g),
            final(self).votes@ == old(self).votes@,
            final(self).vcs@ == old(self).vcs@,
            final(self).all_vcs@ == old(self).all_vcs@,
            final(self).investments@ == old(self).investments@,
            final(self).config == old(self).config,
    {
        if caller != self.get_admin() {
            return Err(Error::Unauthorized);
        }
        let idx = match self.find_startup(founder) {
            Some(i) => i,
            None => { return Err(Error::NotFound) },
        };
        proof {
            assoc::lemma_value_at_index(self.startups@, founder, idx as int);
        }
        let ghost olds = self.startups@;
        self.startups[idx].1.approved = true;
        proof {
            self.lemma_startup_entry_replaced(olds, idx as int, founder);
        }
        Ok(())
    }

    /// Set the founder's total allocation to the absolute value
    /// `total_amount` (not additive). Fails with `Unauthorized` if the
    /// caller is not the stored administrator, with `NotFound` if the
    /// founder has no project record, and with `AllocationExceeded` if
    /// the new allocation would fall below the balance already unlocked
    /// — an allocation may never undercut released funds. Failures
    /// change nothing.
    ///
    /// This is the administrative release mode: funds become claimable
    /// only through [`DeCoMVP::unlock_milestone`].
    pub fn fund_startup(&mut self, caller: u64, founder: u64, total_amount: i128) -> (r: Result<
        (),
        Error,
    >)
        requires
            old(self).wf(),
            old(self).initialized(),
        ensures
            final(self).wf(),
            r is Ok <==> caller == old(self).admin_principal() && old(self).has_startup(founder)
                && total_amount >= old(self).startup(founder).unlocked_balance,
            r == Err::<(), Error>(Error::Unauthorized) <==> caller != old(self).admin_principal(),
            r == Err::<(), Error>(Error::NotFound) <==> caller == old(self).admin_principal()
                && !old(self).has_startup(founder),
            r == Err::<(), Error>(Error::AllocationExceeded) <==> caller == old(
                self,
            ).admin_principal() && old(self).has_startup(founder) && total_amount < old(
                self,
            ).startup(founder).unlocked_balance,
            r is Err ==> *final(self) == *old(self),
            r is Ok ==> final(self).has_startup(founder) && final(self).startup(founder)
                == with_allocated(old(self).startup(founder), total_amount),
            r is Ok ==> final(self).startups@.len() == old(self).startups@.len() && forall|i: int|
                0 <= i < old(self).startups@.len() ==> (#[trigger] final(self).startups@[i]).0
                    == old(self).startups@[i].0,
            r is Ok ==> forall|g: u64|
                g != founder && old(self).has_startup(g) ==> final(self).has_startup(g)
                    && final(self).startup(g) == old(self).startup(g),
            r is Ok ==> forall|g: u64|
                g != founder && final(self).has_startup(g) ==> old(self).has_startup(g),
            final(self).votes@ == old(self).votes@,
            final(self).vcs@ == old(self).vcs@,
            final(self).all_vcs@ == old(self).all_vcs@,
            final(self).investments@ == old(self).investments@,
            final(self).config == old(self).config,
    {
        if caller != self.get_admin() {
            return Err(Error::Unauthorized);
        }
        let idx = match self.find_startup(founder) {
            Some(i) => i,
            None => { return Err(Error::NotFound) },
        };
        proof {
            assoc::lemma_value_at_index(self.startups@, founder, idx as int);
        }
        if total_amount < self.startups[idx].1.unlocked_balance {
            return Err(Error::AllocationExceeded);
        }
        let ghost olds = self.startups@;
        self.startups[idx].1.total_allocated = total_amount;
        proof {
            self.lemma_startup_entry_replaced(olds, idx as int, founder);
        }
        Ok(())
    }

    /// Release `amount` more of the founder's allocation to the
    /// claimable balance. Fails with `Unauthorized` if the caller is not
    /// the stored administrator, with `NotFound` if the founder has no
    /// project record, and with `AllocationExceeded` if the new unlocked
    /// balance would exceed the total allocation. Failures change
    /// nothing.
    pub fn unlock_milestone(&mut self, caller: u64, founder: u64, amount: i128) -> (r: Result<
        (),
        Error,
    >)
        requires
            old(self).wf(),
            old(self).initialized(),
            amount >= 0,
        ensures
            final(self).wf(),
            r is Ok <==> caller == old(self).admin_principal() && old(self).has_startup(founder)
                && old(self).startup(founder).unlocked_balance + amount <= old(self).startup(
                founder,
            ).total_allocated,
            r == Err::<(), Error>(Error::Unauthorized) <==> caller != old(self).admin_principal(),
            r == Err::<(), Error>(Error::NotFound) <==> caller == old(self).admin_principal()
                && !old(self).has_startup(founder),
            r == Err::<(), Error>(Error::AllocationExceeded) <==> caller == old(
                self,
            ).admin_principal() && old(self).has_startup(founder) && old(self).startup(
                founder,
            ).unlocked_balance + amount > old(self).startup(founder).total_allocated,
            r is Err ==> *final(self) == *old(self),
            r is Ok ==> final(self).has_startup(founder) && final(self).startup(founder)
                == with_unlocked(
                old(self).startup(founder),
                (old(self).startup(founder).unlocked_balance + amount) as i128,
            ),
            r is Ok ==> final(self).startups@.len() == old(self).startups@.len() && forall|i: int|
                0 <= i < old(self).startups@.len() ==> (#[trigger] final(self).startups@[i]).0
                    == old(self).startups@[i].0,
            r is Ok ==> forall|g: u64|
                g != founder && old(self).has_startup(g) ==> final(self).has_startup(g)
                    && final(self).startup(g) == old(self).startup(g),
            r is Ok ==> forall|g: u64|
                g != founder && final(self).has_startup(g) ==> old(self).has_startup(g),
            final(self).votes@ == old(self).votes@,
            final(self).vcs@ == old(self).vcs@,
            final(self).all_vcs@ == old(self).all_vcs@,
            final(self).investments@ == old(self).investments@,
            final(self).config == old(self).config,
    {
        if caller != self.get_admin() {
            return Err(Error::Unauthorized);
        }
        let idx = match self.find_startup(founder) {
            Some(i) => i,
            None => { return Err(Error::NotFound) },
        };
        proof {
            assoc::lemma_value_at_index(self.startups@, founder, idx as int);
            assert(startup_balances_ok(self.startups@[idx as int].1));
        }
        let room = self.startups[idx].1.total_allocated - self.startups[idx].1.unlocked_balance;
        if amount > room {
            return Err(Error::AllocationExceeded);
        }
        let ghost olds = self.startups@;
        let ub = self.startups[idx].1.unlocked_balance;
        self.startups[idx].1.unlocked_balance = ub + amount;
        proof {
            self.lemma_startup_entry_replaced(olds, idx as int, founder);
        }
        Ok(())
    }

    /// Pay the founder everything unlocked and not yet claimed. Fails
    /// with `NotFound` if the founder has no project record, and with
    /// `NothingToClaim` if the unlocked balance has been claimed in
    /// full; failures change nothing. On success the claimed balance
    /// rises to equal the unlocked balance and the returned order
    /// transfers exactly the difference — always strictly positive — to
    /// the founder. If the host's transfer fails, the host discards the
    /// new state, so `claimed_balance` does not advance.
    ///
    /// The caller has been authenticated as `founder` by the host.
    pub fn claim_funds(&mut self, founder: u64) -> (r: Result<TokenTransfer, Error>)
        requires
            old(self).wf(),
        ensures
            final(self).wf(),
            r is Ok <==> old(self).has_startup(founder) && old(self).startup(
                founder,
            ).unlocked_balance > old(self).startup(founder).claimed_balance,
            r == Err::<TokenTransfer, Error>(Error::NotFound) <==> !old(self).has_startup(founder),
            r == Err::<TokenTransfer, Error>(Error::NothingToClaim) <==> old(self).has_startup(
                founder,
            ) && old(self).startup(founder).unlocked_balance == old(self).startup(
                founder,
            ).claimed_balance,
            r is Err ==> *final(self) == *old(self),
            r matches Ok(t) ==> t == (TokenTransfer::FromEscrow {
                to: founder,
                amount: ((old(self).startup(founder).unlocked_balance - old(self).startup(
                    founder,
                ).claimed_balance) as i128),
            }) && (t matches TokenTransfer::FromEscrow { to, amount } && amount > 0),
            r is Ok ==> final(self).has_startup(founder) && final(self).startup(founder)
                == with_claimed(
                old(self).startup(founder),
                old(self).startup(founder).unlocked_balance,
            ),
            r is Ok ==> final(self).startup(founder).claimed_balance == final(self).startup(
                founder,
            ).unlocked_balance,
            r is Ok ==> final(self).startups@.len() == old(self).startups@.len() && forall|i: int|
                0 <= i < old(self).startups@.len() ==> (#[trigger] final(self).startups@[i]).0
                    == old(self).startups@[i].0,
            r is Ok ==> forall|g: u64|
                g != founder && old(self).has_startup(g) ==> final(self).has_startup(g)
                    && final(self).startup(g) == old(self).startup(g),
            r is Ok ==> forall|g: u64|
                g != founder && final(self).has_startup(g) ==> old(self).has_startup(g),
            final(self).votes@ == old(self).votes@,
            final(self).vcs@ == old(self).vcs@,
            final(self).all_vcs@ == old(self).all_vcs@,
            final(self).investments@ == old(self).investments@,
            final(self).config == old(self).config,
    {
        let idx = match self.find_startup(founder) {
            Some(i) => i,
            None => { return Err(Error::NotFound) },
        };
        proof {
            assoc::lemma_value_at_index(self.startups@, founder, idx as int);
            assert(startup_balances_ok(self.startups@[idx as int].1));
        }
        let ub = self.startups[idx].1.unlocked_balance;
        let cb = self.startups[idx].1.claimed_balance;
        let claimable = ub - cb;
        if claimable <= 0 {
            return Err(Error::NothingToClaim);
        }
        let ghost olds = self.startups@;
        self.startups[idx].1.claimed_balance = ub;
        proof {
            self.lemma_startup_entry_replaced(olds, idx as int, founder);
        }
        Ok(TokenTransfer::FromEscrow { to: founder, amount: claimable })
    }

    /// Register the caller as a VC by staking the configured collateral.
    /// Fails with `AlreadyVC`, and changes nothing, if the principal
    /// already holds a VC record. On success the VC record is created
    /// with a zero invested total, the principal is appended to the
    /// all-VCs roster, and the returned order moves the configured stake
    /// from the principal into escrow. If the host's transfer fails, the
    /// host discards the new state, so registration and the stake
    /// movement succeed or fail together.
    ///
    /// The caller has been authenticated as `vc_address` by the host.
    /// The ledger must be initialized for a stake requirement to exist.
    pub fn stake_to_become_vc(&mut self, vc_address: u64, company_name: String) -> (r: Result<
        TokenTransfer,
        Error,
    >)
        requires
            old(self).wf(),
            old(self).initialized(),
        ensures
            final(self).wf(),
            r is Ok <==> !old(self).has_vc(vc_address),
            r is Err ==> r == Err::<TokenTransfer, Error>(Error::AlreadyVC)
                && *final(self) == *old(self),
            r matches Ok(t) ==> t == (TokenTransfer::ToEscrow {
                from: vc_address,
                amount: old(self).vc_stake_required(),
            }),
            r is Ok ==> final(self).vcs@ == old(self).vcs@.push(
                (
                    vc_address,
                    VCData {
                        vc_address,
                        company_name,
                        stake_amount: old(self).vc_stake_required(),
                        total_invested: 0,
                    },
                ),
            ),
            r is Ok ==> final(self).has_vc(vc_address) && final(self).vc(vc_address) == (VCData {
                vc_address,
                company_name,
                stake_amount: old(self).vc_stake_required(),
                total_invested: 0,
            }),
            r is Ok ==> forall|g: u64|
                g != vc_address && old(self).has_vc(g) ==> final(self).has_vc(g)
                    && final(self).vc(g) == old(self).vc(g),
            r is Ok ==> forall|g: u64|
                g != vc_address && final(self).has_vc(g) ==> old(self).has_vc(g),
            r is Ok ==> final(self).all_vcs@ == old(self).all_vcs@.push(vc_address),
            final(self).startups@ == old(self).startups@,
            final(self).votes@ == old(self).votes@,
            final(self).investments@ == old(self).investments@,
            final(self).config == old(self).config,
    {
        if self.find_vc(vc_address).is_some() {
            return Err(Error::AlreadyVC);
        }
        let stake_required = self.config.unwrap().vc_stake_required;
        let data = VCData {
            vc_address,
            company_name,
            stake_amount: stake_required,
            total_invested: 0,
        };
        proof {
            assoc::lemma_push(self.vcs@, vc_address, data);
            tally::lemma_invested_sum_nonneg(self.investments@, vc_address);
        }
        let ghost oldv = self.vcs@;
        self.vcs.push((vc_address, data));
        self.all_vcs.push(vc_address);
        proof {
            let newv = self.vcs@;
            assert(forall|i: int| 0 <= i < oldv.len() ==> #[trigger] newv[i] == oldv[i]);
            assert forall|i: int| 0 <= i < newv.len() implies self.vc_entry_ok(
                #[trigger] newv[i],
            ) by {
                if i < oldv.len() {
                    assert(old(self).vc_entry_ok(oldv[i]));
                }
            }
        }
        Ok(TokenTransfer::ToEscrow { from: vc_address, amount: stake_required })
    }

    /// Invest `amount` into the founder's project on behalf of the VC.
    /// Fails with `NotVerifiedVC` if the caller holds no VC record, with
    /// `NotFound` if the founder has no project record, and with
    /// `NotApproved` if the project lacks administrator approval;
    /// failures change nothing. On success, atomically: the project's
    /// allocation and unlocked balance both rise by `amount` (investment
    /// capital is immediately claimable by the founder), the VC's
    /// invested total rises by `amount`, the `(vc, founder)` investment
    /// record is created or incremented by `amount`, and the returned
    /// order moves `amount` from the VC into escrow. If the host's
    /// transfer fails, the host discards the new state, so the books
    /// never record capital that did not move.
    ///
    /// The caller has been authenticated as `vc_address` by the host.
    /// The amount is nonnegative, as the token service would refuse to
    /// move a negative amount; the bounds required of the balances keep
    /// the three incremented ledger entries within range.
    pub fn vc_invest(&mut self, vc_address: u64, founder: u64, amount: i128) -> (r: Result<
        TokenTransfer,
        Error,
    >)
        requires
            old(self).wf(),
            amount >= 0,
            old(self).has_vc(vc_address) && old(self).has_startup(founder) && old(self).startup(
                founder,
            ).approved ==> old(self).startup(founder).total_allocated + amount <= i128::MAX,
            old(self).has_vc(vc_address) && old(self).has_startup(founder) && old(self).startup(
                founder,
            ).approved ==> old(self).vc(vc_address).total_invested + amount <= i128::MAX,
            old(self).has_vc(vc_address) && old(self).has_startup(founder) && old(self).startup(
                founder,
            ).approved ==> old(self).investment(vc_address, founder) + amount <= i128::MAX,
        ensures
            final(self).wf(),
            r is Ok <==> old(self).has_vc(vc_address) && old(self).has_startup(founder) && old(
                self,
            ).startup(founder).approved,
            r == Err::<TokenTransfer, Error>(Error::NotVerifiedVC) <==> !old(self).has_vc(
                vc_address,
            ),
            r == Err::<TokenTransfer, Error>(Error::NotFound) <==> old(self).has_vc(vc_address)
                && !old(self).has_startup(founder),
            r == Err::<TokenTransfer, Error>(Error::NotApproved) <==> old(self).has_vc(vc_address)
                && old(self).has_startup(founder) && !old(self).startup(founder).approved,
            r is Err ==> *final(self) == *old(self),
            r matches Ok(t) ==> t == (TokenTransfer::ToEscrow { from: vc_address, amount }),
            r is Ok ==> final(self).has_startup(founder) && final(self).startup(founder)
                == with_unlocked(
                with_allocated(
                    old(self).startup(founder),
                    (old(self).startup(founder).total_allocated + amount) as i128,
                ),
                (old(self).startup(founder).unlocked_balance + amount) as i128,
            ),
            r is Ok ==> final(self).startups@.len() == old(self).startups@.len() && forall|i: int|
                0 <= i < old(self).startups@.len() ==> (#[trigger] final(self).startups@[i]).0
                    == old(self).startups@[i].0,
            r is Ok ==> forall|g: u64|
                g != founder && old(self).has_startup(g) ==> final(self).has_startup(g)
                    && final(self).startup(g) == old(self).startup(g),
            r is Ok ==> forall|g: u64|
                g != founder && final(self).has_startup(g) ==> old(self).has_startup(g),
            r is Ok ==> final(self).has_vc(vc_address) && final(self).vc(vc_address)
                == vc_with_invested(
                old(self).vc(vc_address),
                (old(self).vc(vc_address).total_invested + amount) as i128,
            ),
            r is Ok ==> forall|g: u64|
                g != vc_address && old(self).has_vc(g) ==> final(self).has_vc(g) && final(self).vc(
                    g,
                ) == old(self).vc(g),
            r is Ok ==> forall|g: u64| g != vc_address && final(self).has_vc(g) ==> old(self).has_vc(g),
            r is Ok ==> final(self).has_investment(vc_address, founder) && final(self).investment(
                vc_address,
                founder,
            ) == old(self).investment(vc_address, founder) + amount,
            r is Ok ==> forall|w: u64, g: u64|
                !(w == vc_address && g == founder) && old(self).has_investment(w, g)
                    ==> final(self).has_investment(w, g)
                    && final(self).investment(w, g) == old(self).investment(w, g),
            r is Ok ==> forall|w: u64, g: u64|
                !(w == vc_address && g == founder) && final(self).has_investment(w, g)
                    ==> old(self).has_investment(w, g),
            final(self).votes@ == old(self).votes@,
            final(self).all_vcs@ == old(self).all_vcs@,
            final(self).config == old(self).config,
    {
        let vidx = match self.find_vc(vc_address) {
            Some(i) => i,
            None => { return Err(Error::NotVerifiedVC) },
        };
        proof {
            assoc::lemma_value_at_index(self.vcs@, vc_address, vidx as int);
        }
        let sidx = match self.find_startup(founder) {
            Some(i) => i,
            None => { return Err(Error::NotFound) },
        };
        proof {
            assoc::lemma_value_at_index(self.startups@, founder, sidx as int);
            assert(startup_balances_ok(self.startups@[sidx as int].1));
        }
        if !self.startups[sidx].1.approved {
            return Err(Error::NotApproved);
        }

        let ghost olds = self.startups@;
        let ta = self.startups[sidx].1.total_allocated;
        self.startups[sidx].1.total_allocated = ta + amount;
        let ub = self.startups[sidx].1.unlocked_balance;
        self.startups[sidx].1.unlocked_balance = ub + amount;
        proof {
            assert(self.startups@ =~= olds.update(
                sidx as int,
                (founder, self.startups@[sidx as int].1),
            ));
            self.lemma_startup_entry_replaced(olds, sidx as int, founder);
        }

        let ghost oldv = self.vcs@;
        let ti = self.vcs[vidx].1.total_invested;
        self.vcs[vidx].1.total_invested = ti + amount;
        proof {
            assoc::lemma_update(oldv, vidx as int, self.vcs@[vidx as int].1);
            assert(self.vcs@ =~= oldv.update(vidx as int, (vc_address, self.vcs@[vidx as int].1)));
        }

        let ghost oldi = self.investments@;
        match self.find_investment(vc_address, founder) {
            Some(i) => {
                proof {
                    assoc::lemma_value_at_index(self.investments@, (vc_address, founder), i as int);
                }
                let cur = self.investments[i].1;
                self.investments[i].1 = cur + amount;
                proof {
                    assert(self.investments@ =~= oldi.update(
                        i as int,
                        ((vc_address, founder), (cur + amount) as i128),
                    ));
                    assoc::lemma_update(oldi, i as int, (cur + amount) as i128);
                    assert forall|g: u64|
                        tally::invested_sum(self.investments@, g) == tally::invested_sum(oldi, g)
                            + if g == vc_address {
                            amount as int
                        } else {
                            0int
                        } by {
                        tally::lemma_invested_sum_update(oldi, i as int, (cur + amount) as i128, g);
                    }
                }
            },
            None => {
                proof {
                    assoc::lemma_push(self.investments@, (vc_address, founder), amount);
                    tally::lemma_invested_sum_push(self.investments@, (vc_address, founder), amount);
                }
                self.investments.push(((vc_address, founder), amount));
            },
        }
        proof {
            self.lemma_vc_books_consistent(*old(self), oldv, vidx as int, vc_address, amount);
        }
        Ok(TokenTransfer::ToEscrow { from: vc_address, amount })
    }

    /// After the investing VC's total and the investment records have
    /// both grown by `amount`, every VC entry is again consistent with
    /// the investment records.
    proof fn lemma_vc_books_consistent(
        self,
        pre: DeCoMVP,
        oldv: Seq<(u64, VCData)>,
        vidx: int,
        vc_address: u64,
        amount: i128,
    )
        requires
            pre.wf(),
            amount >= 0,
            oldv == pre.vcs@,
            0 <= vidx < oldv.len(),
            oldv[vidx].0 == vc_address,
            self.config == pre.config,
            self.vcs@ == oldv.update(
                vidx,
                (vc_address, vc_with_invested(oldv[vidx].1, (oldv[vidx].1.total_invested + amount) as i128)),
            ),
            oldv[vidx].1.total_invested + amount <= i128::MAX,
            forall|i: int| 0 <= i < self.investments@.len() ==> (#[trigger] self.investments@[i]).1 >= 0,
            forall|g: u64|
                tally::invested_sum(self.investments@, g) == tally::invested_sum(pre.investments@, g)
                    + if g == vc_address {
                    amount as int
                } else {
                    0int
                },
        ensures
            forall|i: int| 0 <= i < self.vcs@.len() ==> self.vc_entry_ok(#[trigger] self.vcs@[i]),
    {
        assert forall|i: int| 0 <= i < self.vcs@.len() implies self.vc_entry_ok(
            #[trigger] self.vcs@[i],
        ) by {
            assert(pre.vc_entry_ok(oldv[i]));
            if i != vidx {
                assert(self.vcs@[i] == oldv[i]);
            }
        }
    }

    /// Return the VC's stake and delete its record. Fails with
    /// `NotFound`, and changes nothing, if the principal holds no VC
    /// record. On success the record is gone — the all-VCs roster and
    /// the investment records are deliberately kept — and the returned
    /// order moves the recorded stake from escrow back to the principal.
    /// No check is made for outstanding investments: the withdrawal
    /// succeeds even while the VC's invested capital is still allocated
    /// to projects. If the host's transfer fails, the host discards the
    /// new state, so the record outlives a failed payout.
    ///
    /// The caller has been authenticated as `vc_address` by the host.
    pub fn withdraw_vc_stake(&mut self, vc_address: u64) -> (r: Result<TokenTransfer, Error>)
        requires
            old(self).wf(),
        ensures
            final(self).wf(),
            r is Ok <==> old(self).has_vc(vc_address),
            r is Err ==> r == Err::<TokenTransfer, Error>(Error::NotFound)
                && *final(self) == *old(self),
            r matches Ok(t) ==> t == (TokenTransfer::FromEscrow {
                to: vc_address,
                amount: old(self).vc(vc_address).stake_amount,
            }),
            r is Ok ==> !final(self).has_vc(vc_address),
            r is Ok ==> exists|i: int|
                0 <= i < old(self).vcs@.len() && (#[trigger] old(self).vcs@[i]).0 == vc_address
                    && final(self).vcs@ == old(self).vcs@.remove(i),
            r is Ok ==> forall|g: u64|
                g != vc_address && old(self).has_vc(g) ==> final(self).has_vc(g) && final(self).vc(
                    g,
                ) == old(self).vc(g),
            r is Ok ==> forall|g: u64| g != vc_address && final(self).has_vc(g) ==> old(self).has_vc(g),
            final(self).startups@ == old(self).startups@,
            final(self).votes@ == old(self).votes@,
            final(self).all_vcs@ == old(self).all_vcs@,
            final(self).investments@ == old(self).investments@,
            final(self).config == old(self).config,
    {
        let idx = match self.find_vc(vc_address) {
            Some(i) => i,
            None => { return Err(Error::NotFound) },
        };
        proof {
            assoc::lemma_value_at_index(self.vcs@, vc_address, idx as int);
            assoc::lemma_remove(self.vcs@, idx as int);
        }
        let ghost oldv = self.vcs@;
        let entry = self.vcs.remove(idx);
        proof {
            let newv = self.vcs@;
            assert(newv == oldv.remove(idx as int));
            assert forall|i: int| 0 <= i < newv.len() implies self.vc_entry_ok(
                #[trigger] newv[i],
            ) by {
                if i < idx as int {
                    assert(old(self).vc_entry_ok(oldv[i]));
                    assert(newv[i] == oldv[i]);
                } else {
                    assert(old(self).vc_entry_ok(oldv[i + 1]));
                    assert(newv[i] == oldv[i + 1]);
                }
            }
        }
        Ok(TokenTransfer::FromEscrow { to: vc_address, amount: entry.1.stake_amount })
    }

    /// After replacing the entry at `i` of the startup sequence by a new
    /// record under the same key, with the vote and investment families
    /// untouched, the keyed-lookup facts and the non-balance invariant
    /// conjuncts carry over from `before`; only the new record's own
    /// balance ordering remains for the caller's context to supply.
    proof fn lemma_startup_entry_replaced(self, before: Seq<(u64, StartupData)>, i: int, f: u64)
        requires
            assoc::keys_unique(before),
            0 <= i < before.len(),
            before[i].0 == f,
            self.startups@ == before.update(i, (f, self.startups@[i].1)),
            self.startups@[i].1.yes_votes == before[i].1.yes_votes,
            self.startups@[i].1.no_votes == before[i].1.no_votes,
        ensures
            assoc::keys_unique(self.startups@),
            assoc::has_key(self.startups@, f),
            assoc::value_of(self.startups@, f) == self.startups@[i].1,
            forall|g: u64|
                g != f && assoc::has_key(before, g) ==> assoc::has_key(self.startups@, g)
                    && assoc::value_of(self.startups@, g) == assoc::value_of(before, g),
            forall|g: u64| g != f && assoc::has_key(self.startups@, g) ==> assoc::has_key(before, g),
            forall|j: int|
                0 <= j < self.startups@.len() ==> (#[trigger] self.startups@[j]).0 == before[j].0,
            forall|j: int|
                0 <= j < self.startups@.len() && j != i ==> #[trigger] self.startups@[j]
                    == before[j],
            forall|j: int|
                0 <= j < self.startups@.len() && before[j].1.yes_votes + before[j].1.no_votes
                    == tally::vote_count(self.votes@, before[j].0) ==> (
                #[trigger] self.startups@[j]).1.yes_votes + self.startups@[j].1.no_votes
                    == tally::vote_count(self.votes@, self.startups@[j].0),
            forall|j: int|
                0 <= j < self.votes@.len() && assoc::has_key(
                    before,
                    (#[trigger] self.votes@[j]).0.1,
                ) ==> assoc::has_key(self.startups@, self.votes@[j].0.1),
    {
        let news = self.startups@;
        assoc::lemma_update(before, i, news[i].1);
        assert(forall|j: int| 0 <= j < news.len() && j != i ==> #[trigger] news[j] == before[j]);
        assert forall|j: int|
            0 <= j < self.votes@.len() && assoc::has_key(
                before,
                (#[trigger] self.votes@[j]).0.1,
            ) implies assoc::has_key(news, self.votes@[j].0.1) by {
            let g = self.votes@[j].0.1;
            if g != f {
                assert(assoc::has_key(before, g));
            }
        }
    }

    /// The stored administrator principal.
    ///
    /// Relies on the caller to know the ledger is initialized, as the
    /// stored configuration cannot be produced otherwise.
    pub fn get_admin(&self) -> (r: u64)
        requires
            self.initialized(),
        ensures
            r == self.admin_principal(),
    {
        self.config.unwrap().admin
    }

    /// The stored application fee.
    pub fn get_fee(&self) -> (r: i128)
        requires
            self.initialized(),
        ensures
            r == self.application_fee(),
    {
        self.config.unwrap().application_fee
    }

    /// Every project's balance pipeline is well-ordered in every
    /// well-formed state: nothing is claimed beyond what was unlocked,
    /// nothing unlocked beyond what was allocated.
    pub proof fn lemma_balance_pipeline(self, f: u64)
        requires
            self.wf(),
            self.has_startup(f),
        ensures
            startup_balances_ok(self.startup(f)),
            0 <= self.startup(f).claimed_balance <= self.startup(f).unlocked_balance <= self.startup(
                f,
            ).total_allocated,
    {
        let i = choose|i: int| 0 <= i < self.startups@.len() && (#[trigger] self.startups@[i]).0 == f;
        assoc::lemma_value_at_index(self.startups@, f, i);
    }

    /// Every project's tally equals the number of vote records cast on
    /// it, in every well-formed state: `yes_votes + no_votes` counts the
    /// distinct voters that hold a vote record on the founder's project.
    pub proof fn lemma_tally_counts_votes(self, f: u64)
        requires
            self.wf(),
            self.has_startup(f),
        ensures
            self.startup(f).yes_votes + self.startup(f).no_votes == tally::vote_count(
                self.votes@,
                f,
            ),
    {
        let i = choose|i: int| 0 <= i < self.startups@.len() && (#[trigger] self.startups@[i]).0 == f;
        assoc::lemma_value_at_index(self.startups@, f, i);
    }

    /// A founder holds at most one project record, in every well-formed
    /// state: two entries of the startup sequence under one founder are
    /// the same entry. The roster of founders lists each at most once as
    /// a consequence, since it lists the keys of this sequence in order.
    pub proof fn lemma_one_record_per_founder(self, i: int, j: int)
        requires
            self.wf(),
            0 <= i < self.startups@.len(),
            0 <= j < self.startups@.len(),
            self.startups@[i].0 == self.startups@[j].0,
        ensures
            i == j,
    {
    }

    /// A (voter, founder) pair holds at most one vote record, in every
    /// well-formed state: a vote that succeeded cannot succeed again.
    pub proof fn lemma_one_vote_record_per_pair(self, i: int, j: int)
        requires
            self.wf(),
            0 <= i < self.votes@.len(),
            0 <= j < self.votes@.len(),
            self.votes@[i].0 == self.votes@[j].0,
        ensures
            i == j,
    {
    }

    /// Every VC record is consistent with the configuration and the
    /// investment records, in every well-formed state: it was created
    /// after initialization with the configured stake, and its invested
    /// total never exceeds what the investment records sum to. (It can
    /// fall short of that sum after a withdraw-and-register-again cycle,
    /// which resets the total while the records persist.)
    pub proof fn lemma_vc_consistent(self, v: u64)
        requires
            self.wf(),
            self.has_vc(v),
        ensures
            self.initialized(),
            self.vc(v).vc_address == v,
            self.vc(v).stake_amount == self.vc_stake_required(),
            0 <= self.vc(v).total_invested <= tally::invested_sum(self.investments@, v),
    {
        let i = choose|i: int| 0 <= i < self.vcs@.len() && (#[trigger] self.vcs@[i]).0 == v;
        assoc::lemma_value_at_index(self.vcs@, v, i);
    }

    /// The index of the founder `f`'s entry in the startup sequence.
    fn find_startup(&self, f: u64) -> (r: Option<usize>)
        ensures
            r matches Some(i) ==> i < self.startups@.len() && self.startups@[i as int].0 == f
                && self.has_startup(f),
            r is None ==> !self.has_startup(f),
    {
        let n = self.startups.len();
        let mut i: usize = 0;
        while i < n
            invariant
                n == self.startups@.len(),
                i <= n,
                forall|j: int| 0 <= j < i ==> (#[trigger] self.startups@[j]).0 != f,
            decreases n - i,
        {
            if self.startups[i].0 == f {
                return Some(i);
            }
            i = i + 1;
        }
        None
    }

    /// The index of the `(voter, f)` vote record.
    fn find_vote(&self, voter: u64, f: u64) -> (r: Option<usize>)
        ensures
            r matches Some(i) ==> i < self.votes@.len() && self.votes@[i as int].0 == (voter, f)
                && self.has_vote(voter, f),
            r is None ==> !self.has_vote(voter, f),
    {
        let n = self.votes.len();
        let mut i: usize = 0;
        while i < n
            invariant
                n == self.votes@.len(),
                i <= n,
                forall|j: int| 0 <= j < i ==> (#[trigger] self.votes@[j]).0 != (voter, f),
            decreases n - i,
        {
            if self.votes[i].0.0 == voter && self.votes[i].0.1 == f {
                return Some(i);
            }
            i = i + 1;
        }
        None
    }

    /// The index of the principal `v`'s VC record.
    fn find_vc(&self, v: u64) -> (r: Option<usize>)
        ensures
            r matches Some(i) ==> i < self.vcs@.len() && self.vcs@[i as int].0 == v && self.has_vc(
                v,
            ),
            r is None ==> !self.has_vc(v),
    {
        let n = self.vcs.len();
        let mut i: usize = 0;
        while i < n
            invariant
                n == self.vcs@.len(),
                i <= n,
                forall|j: int| 0 <= j < i ==> (#[trigger] self.vcs@[j]).0 != v,
            decreases n - i,
        {
            if self.vcs[i].0 == v {
                return Some(i);
            }
            i = i + 1;
        }
        None
    }

    /// The index of the `(v, f)` investment record.
    fn find_investment(&self, v: u64, f: u64) -> (r: Option<usize>)
        ensures
            r matches Some(i) ==> i < self.investments@.len() && self.investments@[i as int].0 == (
                v,
                f,
            ) && self.has_investment(v, f),
            r is None ==> !self.has_investment(v, f),
    {
        let n = self.investments.len();
        let mut i: usize = 0;
        while i < n
            invariant
                n == self.investments@.len(),
                i <= n,
                forall|j: int| 0 <= j < i ==> (#[trigger] self.investments@[j]).0 != (v, f),
            decreases n - i,
        {
            if self.investments[i].0.0 == v && self.investments[i].0.1 == f {
                return Some(i);
            }
            i = i + 1;
        }
        None
    }

    /// The founder's project record, or `None` if the founder never
    /// applied. Never fails.
    pub fn get_startup_status(&self, founder: u64) -> (r: Option<&StartupData>)
        requires
            self.wf(),
        ensures
            r is Some <==> self.has_startup(founder),
            r matches Some(d) ==> *d == self.startup(founder),
    {
        match self.find_startup(founder) {
            Some(i) => {
                proof {
                    assoc::lemma_value_at_index(self.startups@, founder, i as int);
                }
                Some(&self.startups[i].1)
            },
            None => None,
        }
    }

    /// Every founder with a project record, in application order. A
    /// founder appears at most once: applications are rejected once a
    /// record exists and records are never deleted.
    pub fn get_all_startups(&self) -> (r: Vec<u64>)
        ensures
            r@.len() == self.startups@.len(),
            forall|i: int| 0 <= i < r@.len() ==> r@[i] == self.startups@[i].0,
    {
        let n = self.startups.len();
        let mut out: Vec<u64> = Vec::new();
        let mut i: usize = 0;
        while i < n
            invariant
                i <= n,
                n == self.startups@.len(),
                out@.len() == i,
                forall|j: int| 0 <= j < i ==> out@[j] == self.startups@[j].0,
            decreases n - i,
        {
            out.push(self.startups[i].0);
            i = i + 1;
        }
        out
    }

    /// Whether `voter` holds a vote record on the founder's project.
    /// Never fails.
    pub fn has_voted(&self, voter: u64, founder: u64) -> (r: bool)
        ensures
            r <==> self.has_vote(voter, founder),
    {
        self.find_vote(voter, founder).is_some()
    }

    /// Whether the principal currently holds a VC record. Never fails.
    pub fn is_vc(&self, vc_address: u64) -> (r: bool)
        ensures
            r <==> self.has_vc(vc_address),
    {
        self.find_vc(vc_address).is_some()
    }

    /// The principal's VC record, or `None` if it holds none. Never
    /// fails.
    pub fn get_vc_data(&self, vc_address: u64) -> (r: Option<&VCData>)
        requires
            self.wf(),
        ensures
            r is Some <==> self.has_vc(vc_address),
            r matches Some(d) ==> *d == self.vc(vc_address),
    {
        match self.find_vc(vc_address) {
            Some(i) => {
                proof {
                    assoc::lemma_value_at_index(self.vcs@, vc_address, i as int);
                }
                Some(&self.vcs[i].1)
            },
            None => None,
        }
    }

    /// Every principal that ever registered as a VC, in registration
    /// order, withdrawals notwithstanding. Never fails.
    pub fn get_all_vcs(&self) -> (r: Vec<u64>)
        ensures
            r@ == self.all_vcs@,
    {
        let n = self.all_vcs.len();
        let mut out: Vec<u64> = Vec::new();
        let mut i: usize = 0;
        while i < n
            invariant
                i <= n,
                n == self.all_vcs@.len(),
                out@.len() == i,
                forall|j: int| 0 <= j < i ==> out@[j] == self.all_vcs@[j],
            decreases n - i,
        {
            out.push(self.all_vcs[i]);
            i = i + 1;
        }
        proof {
            assert(out@ =~= self.all_vcs@);
        }
        out
    }

    /// The cumulative amount the VC has invested into the founder's
    /// project; zero when no investment record exists. Never fails.
    pub fn get_vc_investment(&self, vc_address: u64, founder: u64) -> (r: i128)
        requires
            self.wf(),
        ensures
            r == self.investment(vc_address, founder),
    {
        match self.find_investment(vc_address, founder) {
            Some(i) => {
                proof {
                    assoc::lemma_value_at_index(self.investments@, (vc_address, founder), i as int);
                }
                self.investments[i].1
            },
            None => 0,
        }
    }

    /// The stake a principal must put up to register as a VC; zero while
    /// the ledger is uninitialized.
    pub fn get_vc_stake_required(&self) -> (r: i128)
        ensures
            r == if self.initialized() {
                self.vc_stake_required()
            } else {
                0
            },
    {
        match &self.config {
            Some(c) => c.vc_stake_required,
            None => 0,
        }
    }
}

} // verus!
