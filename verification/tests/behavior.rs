//! Voting-window boundaries, tallies, the VC lifecycle, claims, and the
//! full error taxonomy.

use decomvp::Error;
use decomvp::TokenTransfer;
use decomvp::DeCoMVP;
use decomvp::ledger::VOTING_WINDOW_SECONDS;

const ADMIN: u64 = 1;
const FOUNDER: u64 = 2;
const VC: u64 = 7;
const FEE: i128 = 100;
const STAKE_REQUIRED: i128 = 500;

fn apply_project(m: &mut DeCoMVP, founder: u64, now: u64) {
    m.apply(
        founder,
        String::from("proj"),
        String::from("a description"),
        String::from("https://example.org/proj"),
        String::from("the team"),
        1_000,
        now,
    )
    .unwrap();
}

fn ledger_with_project() -> DeCoMVP {
    let mut m = DeCoMVP::new();
    m.init(ADMIN, FEE, STAKE_REQUIRED).unwrap();
    apply_project(&mut m, FOUNDER, 0);
    m
}

#[test]
fn init_only_once() {
    let mut m = DeCoMVP::new();
    m.init(ADMIN, FEE, STAKE_REQUIRED).unwrap();
    assert_eq!(m.init(9, 5, 5), Err(Error::AlreadyInitialized));
    assert_eq!(m.get_admin(), ADMIN);
    assert_eq!(m.get_fee(), FEE);
}

#[test]
fn apply_starts_with_zero_balances() {
    let m = ledger_with_project();
    let d = m.get_startup_status(FOUNDER).unwrap();
    assert_eq!(d.total_allocated, 0);
    assert_eq!(d.unlocked_balance, 0);
    assert_eq!(d.claimed_balance, 0);
    assert_eq!(d.yes_votes, 0);
    assert_eq!(d.no_votes, 0);
    assert!(!d.approved);
    assert_eq!(d.voting_end_time, VOTING_WINDOW_SECONDS);
    assert!(m.get_startup_status(99).is_none());
}

#[test]
fn duplicate_application_leaves_state_unchanged() {
    let mut m = ledger_with_project();
    m.vote(10, FOUNDER, true, 5).unwrap();
    let second = m.apply(
        FOUNDER,
        String::from("other"),
        String::from("other"),
        String::from("https://example.org/other"),
        String::from("other"),
        9,
        5,
    );
    assert_eq!(second, Err(Error::AlreadyApplied));
    let d = m.get_startup_status(FOUNDER).unwrap();
    assert_eq!(d.project_url, "https://example.org/proj");
    assert_eq!(d.yes_votes, 1);
    assert_eq!(m.get_all_startups(), vec![FOUNDER]);
}

#[test]
fn vote_boundary_is_inclusive() {
    let mut m = ledger_with_project();
    let end = VOTING_WINDOW_SECONDS;
    m.vote(10, FOUNDER, true, end).unwrap();
    assert_eq!(m.vote(11, FOUNDER, false, end + 1), Err(Error::VotingClosed));
    let d = m.get_startup_status(FOUNDER).unwrap();
    assert_eq!(d.yes_votes, 1);
    assert_eq!(d.no_votes, 0);
}

#[test]
fn one_vote_per_voter_and_tally_counts_voters() {
    let mut m = ledger_with_project();
    m.vote(10, FOUNDER, true, 1).unwrap();
    m.vote(11, FOUNDER, false, 2).unwrap();
    m.vote(12, FOUNDER, true, 3).unwrap();
    assert_eq!(m.vote(10, FOUNDER, false, 4), Err(Error::AlreadyVoted));
    assert!(m.has_voted(10, FOUNDER));
    assert!(m.has_voted(11, FOUNDER));
    assert!(!m.has_voted(13, FOUNDER));
    let d = m.get_startup_status(FOUNDER).unwrap();
    assert_eq!(d.yes_votes, 2);
    assert_eq!(d.no_votes, 1);
    assert_eq!(d.yes_votes + d.no_votes, 3);
}

#[test]
fn vote_needs_a_project() {
    let mut m = DeCoMVP::new();
    m.init(ADMIN, FEE, STAKE_REQUIRED).unwrap();
    assert_eq!(m.vote(10, 99, true, 0), Err(Error::NotFound));
    assert!(!m.has_voted(10, 99));
}

#[test]
fn approval_is_admin_gated() {
    let mut m = ledger_with_project();
    assert_eq!(m.approve_application(9, FOUNDER), Err(Error::Unauthorized));
    assert_eq!(m.approve_application(ADMIN, 99), Err(Error::NotFound));
    assert!(!m.get_startup_status(FOUNDER).unwrap().approved);
    m.approve_application(ADMIN, FOUNDER).unwrap();
    assert!(m.get_startup_status(FOUNDER).unwrap().approved);
}

#[test]
fn funding_is_admin_gated() {
    let mut m = ledger_with_project();
    assert_eq!(m.fund_startup(9, FOUNDER, 1_000), Err(Error::Unauthorized));
    assert_eq!(m.fund_startup(ADMIN, 99, 1_000), Err(Error::NotFound));
    assert_eq!(m.unlock_milestone(9, FOUNDER, 1), Err(Error::Unauthorized));
    assert_eq!(m.unlock_milestone(ADMIN, 99, 1), Err(Error::NotFound));
}

#[test]
fn allocation_cannot_undercut_unlocked_funds() {
    let mut m = ledger_with_project();
    m.fund_startup(ADMIN, FOUNDER, 1_000).unwrap();
    m.unlock_milestone(ADMIN, FOUNDER, 400).unwrap();
    assert_eq!(
        m.fund_startup(ADMIN, FOUNDER, 300),
        Err(Error::AllocationExceeded)
    );
    let d = m.get_startup_status(FOUNDER).unwrap();
    assert_eq!(d.total_allocated, 1_000);
    assert_eq!(d.unlocked_balance, 400);
}

#[test]
fn stake_registers_a_vc() {
    let mut m = DeCoMVP::new();
    m.init(ADMIN, FEE, STAKE_REQUIRED).unwrap();
    assert_eq!(m.get_vc_stake_required(), STAKE_REQUIRED);
    assert!(!m.is_vc(VC));
    let t = m.stake_to_become_vc(VC, String::from("Acme")).unwrap();
    assert_eq!(
        t,
        TokenTransfer::ToEscrow { from: VC, amount: STAKE_REQUIRED }
    );
    assert!(m.is_vc(VC));
    let d = m.get_vc_data(VC).unwrap();
    assert_eq!(d.vc_address, VC);
    assert_eq!(d.company_name, "Acme");
    assert_eq!(d.stake_amount, STAKE_REQUIRED);
    assert_eq!(d.total_invested, 0);
    assert_eq!(m.get_all_vcs(), vec![VC]);
    assert_eq!(
        m.stake_to_become_vc(VC, String::from("Acme")),
        Err(Error::AlreadyVC)
    );
}

#[test]
fn invest_needs_stake_project_and_approval() {
    let mut m = ledger_with_project();
    assert_eq!(m.vc_invest(VC, FOUNDER, 200), Err(Error::NotVerifiedVC));
    m.stake_to_become_vc(VC, String::from("Acme")).unwrap();
    assert_eq!(m.vc_invest(VC, 99, 200), Err(Error::NotFound));
    assert_eq!(m.vc_invest(VC, FOUNDER, 200), Err(Error::NotApproved));
    assert_eq!(m.get_vc_investment(VC, FOUNDER), 0);
}

#[test]
fn investment_unlocks_immediately() {
    let mut m = ledger_with_project();
    m.fund_startup(ADMIN, FOUNDER, 1_000).unwrap();
    m.unlock_milestone(ADMIN, FOUNDER, 400).unwrap();
    m.stake_to_become_vc(VC, String::from("Acme")).unwrap();
    m.approve_application(ADMIN, FOUNDER).unwrap();
    let t = m.vc_invest(VC, FOUNDER, 200).unwrap();
    assert_eq!(t, TokenTransfer::ToEscrow { from: VC, amount: 200 });
    let d = m.get_startup_status(FOUNDER).unwrap();
    assert_eq!(d.total_allocated, 1_200);
    assert_eq!(d.unlocked_balance, 600);
    assert_eq!(m.get_vc_investment(VC, FOUNDER), 200);
    assert_eq!(m.get_vc_data(VC).unwrap().total_invested, 200);

    let t2 = m.vc_invest(VC, FOUNDER, 50).unwrap();
    assert_eq!(t2, TokenTransfer::ToEscrow { from: VC, amount: 50 });
    assert_eq!(m.get_vc_investment(VC, FOUNDER), 250);
    assert_eq!(m.get_vc_data(VC).unwrap().total_invested, 250);
}

#[test]
fn claim_pays_the_unlocked_remainder_once() {
    let mut m = ledger_with_project();
    m.stake_to_become_vc(VC, String::from("Acme")).unwrap();
    m.approve_application(ADMIN, FOUNDER).unwrap();
    m.vc_invest(VC, FOUNDER, 200).unwrap();
    let t = m.claim_funds(FOUNDER).unwrap();
    assert_eq!(t, TokenTransfer::FromEscrow { to: FOUNDER, amount: 200 });
    let d = m.get_startup_status(FOUNDER).unwrap();
    assert_eq!(d.claimed_balance, d.unlocked_balance);
    assert_eq!(m.claim_funds(FOUNDER), Err(Error::NothingToClaim));
}

#[test]
fn claim_needs_a_project_and_unlocked_funds() {
    let mut m = ledger_with_project();
    assert_eq!(m.claim_funds(99), Err(Error::NotFound));
    assert_eq!(m.claim_funds(FOUNDER), Err(Error::NothingToClaim));
    m.fund_startup(ADMIN, FOUNDER, 1_000).unwrap();
    assert_eq!(m.claim_funds(FOUNDER), Err(Error::NothingToClaim));
    m.unlock_milestone(ADMIN, FOUNDER, 400).unwrap();
    let t = m.claim_funds(FOUNDER).unwrap();
    assert_eq!(t, TokenTransfer::FromEscrow { to: FOUNDER, amount: 400 });
    m.unlock_milestone(ADMIN, FOUNDER, 100).unwrap();
    let t2 = m.claim_funds(FOUNDER).unwrap();
    assert_eq!(t2, TokenTransfer::FromEscrow { to: FOUNDER, amount: 100 });
    assert_eq!(m.get_startup_status(FOUNDER).unwrap().claimed_balance, 500);
}

#[test]
fn withdrawal_returns_stake_and_keeps_books() {
    let mut m = ledger_with_project();
    m.stake_to_become_vc(VC, String::from("Acme")).unwrap();
    m.approve_application(ADMIN, FOUNDER).unwrap();
    m.vc_invest(VC, FOUNDER, 200).unwrap();

    let t = m.withdraw_vc_stake(VC).unwrap();
    assert_eq!(
        t,
        TokenTransfer::FromEscrow { to: VC, amount: STAKE_REQUIRED }
    );
    assert!(!m.is_vc(VC));
    assert!(m.get_vc_data(VC).is_none());
    assert_eq!(m.withdraw_vc_stake(VC), Err(Error::NotFound));

    // the roster and the investment records deliberately survive
    assert_eq!(m.get_all_vcs(), vec![VC]);
    assert_eq!(m.get_vc_investment(VC, FOUNDER), 200);

    // registering again starts a fresh record beside the old books
    m.stake_to_become_vc(VC, String::from("Acme")).unwrap();
    assert_eq!(m.get_vc_data(VC).unwrap().total_invested, 0);
    assert_eq!(m.get_vc_investment(VC, FOUNDER), 200);
    assert_eq!(m.get_all_vcs(), vec![VC, VC]);
}

#[test]
fn rosters_keep_registration_order() {
    let mut m = DeCoMVP::new();
    m.init(ADMIN, FEE, STAKE_REQUIRED).unwrap();
    apply_project(&mut m, 21, 0);
    apply_project(&mut m, 22, 1);
    apply_project(&mut m, 23, 2);
    assert_eq!(m.get_all_startups(), vec![21, 22, 23]);
    m.stake_to_become_vc(31, String::from("A")).unwrap();
    m.stake_to_become_vc(32, String::from("B")).unwrap();
    assert_eq!(m.get_all_vcs(), vec![31, 32]);
}

#[test]
fn stake_requirement_defaults_to_zero() {
    let m = DeCoMVP::new();
    assert_eq!(m.get_vc_stake_required(), 0);
}

fn assert_pipeline_ordered(m: &DeCoMVP, founder: u64) {
    let d = m.get_startup_status(founder).unwrap();
    assert!(0 <= d.claimed_balance);
    assert!(d.claimed_balance <= d.unlocked_balance);
    assert!(d.unlocked_balance <= d.total_allocated);
}

#[test]
fn balance_pipeline_stays_ordered() {
    let mut m = ledger_with_project();
    assert_pipeline_ordered(&m, FOUNDER);
    m.fund_startup(ADMIN, FOUNDER, 1_000).unwrap();
    assert_pipeline_ordered(&m, FOUNDER);
    m.unlock_milestone(ADMIN, FOUNDER, 400).unwrap();
    assert_pipeline_ordered(&m, FOUNDER);
    m.claim_funds(FOUNDER).unwrap();
    assert_pipeline_ordered(&m, FOUNDER);
    m.stake_to_become_vc(VC, String::from("Acme")).unwrap();
    m.approve_application(ADMIN, FOUNDER).unwrap();
    m.vc_invest(VC, FOUNDER, 200).unwrap();
    assert_pipeline_ordered(&m, FOUNDER);
    m.unlock_milestone(ADMIN, FOUNDER, 600).unwrap();
    assert_pipeline_ordered(&m, FOUNDER);
    m.claim_funds(FOUNDER).unwrap();
    assert_pipeline_ordered(&m, FOUNDER);
    let _ = m.fund_startup(ADMIN, FOUNDER, 0);
    assert_pipeline_ordered(&m, FOUNDER);
}

#[test]
fn extreme_amounts_stay_exact() {
    let mut m = ledger_with_project();
    m.fund_startup(ADMIN, FOUNDER, i128::MAX).unwrap();
    m.unlock_milestone(ADMIN, FOUNDER, i128::MAX).unwrap();
    let t = m.claim_funds(FOUNDER).unwrap();
    assert_eq!(
        t,
        TokenTransfer::FromEscrow { to: FOUNDER, amount: i128::MAX }
    );
    let d = m.get_startup_status(FOUNDER).unwrap();
    assert_eq!(d.claimed_balance, i128::MAX);
    assert_eq!(
        m.unlock_milestone(ADMIN, FOUNDER, 1),
        Err(Error::AllocationExceeded)
    );
}
