//! Milestone-mode flows: initialization, application, administrative
//! funding and unlocking, and their failure cases.

use decomvp::Error;
use decomvp::DeCoMVP;

const ADMIN: u64 = 1;
const FOUNDER: u64 = 2;
const FEE: i128 = 100_000_000;
const STAKE_REQUIRED: i128 = 500;
const GOAL: i128 = 100_000_000_000;

fn apply_project(m: &mut DeCoMVP, founder: u64, now: u64) {
    m.apply(
        founder,
        String::from("myproject"),
        String::from("a project"),
        String::from("https://github.com/myproject"),
        String::from("the team"),
        GOAL,
        now,
    )
    .unwrap();
}

#[test]
fn test_init() {
    let mut m = DeCoMVP::new();
    m.init(ADMIN, FEE, STAKE_REQUIRED).unwrap();

    assert_eq!(m.get_admin(), ADMIN);
    assert_eq!(m.get_fee(), FEE);
}

#[test]
fn test_apply() {
    let mut m = DeCoMVP::new();
    m.init(ADMIN, FEE, STAKE_REQUIRED).unwrap();

    apply_project(&mut m, FOUNDER, 0);

    let status = m.get_startup_status(FOUNDER);
    assert!(status.is_some());

    let data = status.unwrap();
    assert_eq!(data.project_url, "https://github.com/myproject");
    assert_eq!(data.total_allocated, 0);
    assert_eq!(data.unlocked_balance, 0);
    assert_eq!(data.claimed_balance, 0);
}

#[test]
fn test_fund_startup() {
    let mut m = DeCoMVP::new();
    m.init(ADMIN, FEE, STAKE_REQUIRED).unwrap();
    apply_project(&mut m, FOUNDER, 0);

    let funding_amount: i128 = 100_000_000_000;
    m.fund_startup(ADMIN, FOUNDER, funding_amount).unwrap();

    let status = m.get_startup_status(FOUNDER).unwrap();
    assert_eq!(status.total_allocated, funding_amount);
}

#[test]
fn test_unlock_milestone() {
    let mut m = DeCoMVP::new();
    m.init(ADMIN, FEE, STAKE_REQUIRED).unwrap();
    apply_project(&mut m, FOUNDER, 0);

    let funding_amount: i128 = 100_000_000_000;
    m.fund_startup(ADMIN, FOUNDER, funding_amount).unwrap();

    let unlock_amount: i128 = 25_000_000_000;
    m.unlock_milestone(ADMIN, FOUNDER, unlock_amount).unwrap();

    let status = m.get_startup_status(FOUNDER).unwrap();
    assert_eq!(status.unlocked_balance, unlock_amount);
}

#[test]
fn test_full_flow() {
    let mut m = DeCoMVP::new();
    m.init(ADMIN, FEE, STAKE_REQUIRED).unwrap();
    apply_project(&mut m, FOUNDER, 0);

    let total_funding: i128 = 100_000_000_000;
    m.fund_startup(ADMIN, FOUNDER, total_funding).unwrap();

    let milestone1: i128 = 25_000_000_000;
    m.unlock_milestone(ADMIN, FOUNDER, milestone1).unwrap();

    let status = m.get_startup_status(FOUNDER).unwrap();
    assert_eq!(status.total_allocated, total_funding);
    assert_eq!(status.unlocked_balance, milestone1);
    assert_eq!(status.claimed_balance, 0);

    let milestone2: i128 = 25_000_000_000;
    m.unlock_milestone(ADMIN, FOUNDER, milestone2).unwrap();

    let status = m.get_startup_status(FOUNDER).unwrap();
    assert_eq!(status.unlocked_balance, milestone1 + milestone2);
}

#[test]
fn test_unlock_exceeds_allocation() {
    let mut m = DeCoMVP::new();
    m.init(ADMIN, FEE, STAKE_REQUIRED).unwrap();
    apply_project(&mut m, FOUNDER, 0);

    let funding_amount: i128 = 100_000_000_000;
    m.fund_startup(ADMIN, FOUNDER, funding_amount).unwrap();

    let unlock_amount: i128 = 150_000_000_000;
    assert_eq!(
        m.unlock_milestone(ADMIN, FOUNDER, unlock_amount),
        Err(Error::AllocationExceeded)
    );
    let status = m.get_startup_status(FOUNDER).unwrap();
    assert_eq!(status.unlocked_balance, 0);
}

#[test]
fn test_duplicate_application() {
    let mut m = DeCoMVP::new();
    m.init(ADMIN, FEE, STAKE_REQUIRED).unwrap();
    apply_project(&mut m, FOUNDER, 0);

    let second = m.apply(
        FOUNDER,
        String::from("myproject"),
        String::from("a project"),
        String::from("https://github.com/myproject"),
        String::from("the team"),
        GOAL,
        0,
    );
    assert_eq!(second, Err(Error::AlreadyApplied));
}
