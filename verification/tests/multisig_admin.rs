use mentorminds::multisig_admin::{CallArg, Error, ExecutionOutcome, MultisigAdminContract, EXPIRY_SECONDS};

const CONTRACT: u64 = 1000;
const SIGNERS: [u64; 5] = [1, 2, 3, 4, 5];
const TARGET: u64 = 50;
const OUTSIDER: u64 = 60;

fn setup() -> MultisigAdminContract {
    let mut m = MultisigAdminContract::new();
    m.initialize(SIGNERS.to_vec(), 3).unwrap();
    m
}

fn propose(m: &mut MultisigAdminContract, target: u64, function: &str, now: u64) -> u32 {
    m.propose_action(SIGNERS[0], target, function.to_string(), vec![], now).unwrap()
}

fn sign_n(m: &mut MultisigAdminContract, pid: u32, n: usize, now: u64) {
    for i in 1..n {
        m.sign_action(SIGNERS[i], pid, now).unwrap();
    }
}

fn self_proposal(m: &mut MultisigAdminContract, function: &str, arg: u64) -> u32 {
    m.propose_action(SIGNERS[0], CONTRACT, function.to_string(), vec![CallArg::Address(arg)], 0)
        .unwrap()
}

#[test]
fn test_initialize() {
    let mut m = MultisigAdminContract::new();
    let s0 = 10;
    let s1 = 11;
    assert_eq!(m.initialize(vec![s0], 0), Err(Error::InvalidThreshold));
    assert_eq!(m.initialize(vec![s0], 2), Err(Error::InvalidThreshold));
    assert_eq!(m.initialize(vec![s0, s0], 1), Err(Error::AlreadySigner));
    m.initialize(vec![s0, s1], 1).unwrap();
    assert_eq!(m.get_threshold(), Ok(1));
    assert_eq!(m.get_signer_count(), Ok(2));
    assert_eq!(m.is_signer(s0), Ok(true));
    assert_eq!(m.is_signer(s1), Ok(true));
    assert_eq!(m.initialize(vec![s0], 1), Err(Error::AlreadyInitialized));
}

#[test]
fn test_propose_action() {
    let mut m = setup();
    assert_eq!(
        m.propose_action(OUTSIDER, TARGET, "do_thing".to_string(), vec![], 0),
        Err(Error::NotSigner)
    );
    let pid1 = propose(&mut m, TARGET, "do_thing", 0);
    assert_eq!(pid1, 1);
    let pid2 = propose(&mut m, TARGET, "do_thing", 0);
    assert_eq!(pid2, 2);

    let proposal = m.get_proposal(pid1).unwrap();
    assert_eq!(proposal.approval_count, 1);
    assert_eq!(proposal.proposer, SIGNERS[0]);
    assert_eq!(proposal.executed, false);
    assert_eq!(proposal.cancelled, false);
    assert_eq!(proposal.expiry, EXPIRY_SECONDS);
}

#[test]
fn test_sign_action() {
    let mut m = setup();
    let pid = propose(&mut m, TARGET, "do_thing", 0);
    assert_eq!(m.sign_action(OUTSIDER, pid, 0), Err(Error::NotSigner));
    m.sign_action(SIGNERS[1], pid, 0).unwrap();
    assert_eq!(m.get_proposal(pid).unwrap().approval_count, 2);
    assert_eq!(m.sign_action(SIGNERS[1], pid, 0), Err(Error::AlreadySigned));
    assert_eq!(m.sign_action(SIGNERS[2], pid, EXPIRY_SECONDS + 1), Err(Error::Expired));
}

#[test]
fn test_execute_below_threshold() {
    let mut m = setup();
    let pid = propose(&mut m, TARGET, "do_thing", 0);
    assert_eq!(m.execute_action(pid, 0, CONTRACT), Err(Error::BelowThreshold));
    m.sign_action(SIGNERS[1], pid, 0).unwrap();
    assert_eq!(m.execute_action(pid, 0, CONTRACT), Err(Error::BelowThreshold));
}

#[test]
fn test_signer_management_via_proposal() {
    let mut m = setup();
    let new_signer = 77;

    let pid_add = self_proposal(&mut m, "add_signer", new_signer);
    sign_n(&mut m, pid_add, 3, 0);
    m.execute_action(pid_add, 0, CONTRACT).unwrap();
    assert_eq!(m.get_signer_count(), Ok(6));
    assert_eq!(m.is_signer(new_signer), Ok(true));

    let pid_rem = self_proposal(&mut m, "remove_signer", new_signer);
    sign_n(&mut m, pid_rem, 3, 0);
    m.execute_action(pid_rem, 0, CONTRACT).unwrap();
    assert_eq!(m.get_signer_count(), Ok(5));
    assert_eq!(m.is_signer(new_signer), Ok(false));

    let pid_r1 = self_proposal(&mut m, "remove_signer", SIGNERS[3]);
    sign_n(&mut m, pid_r1, 3, 0);
    m.execute_action(pid_r1, 0, CONTRACT).unwrap();

    let pid_r2 = self_proposal(&mut m, "remove_signer", SIGNERS[4]);
    sign_n(&mut m, pid_r2, 3, 0);
    m.execute_action(pid_r2, 0, CONTRACT).unwrap();

    let pid_r3 = self_proposal(&mut m, "remove_signer", SIGNERS[2]);
    sign_n(&mut m, pid_r3, 3, 0);
    assert_eq!(m.execute_action(pid_r3, 0, CONTRACT), Err(Error::InvalidThreshold));
}

#[test]
fn test_cancel_action() {
    let mut m = setup();
    let pid = propose(&mut m, TARGET, "do_thing", 0);
    assert_eq!(m.cancel_action(OUTSIDER, pid, 0), Err(Error::NotSigner));
    m.cancel_action(SIGNERS[1], pid, 0).unwrap();
    assert_eq!(m.get_proposal(pid).unwrap().cancelled, true);
    assert_eq!(m.cancel_action(SIGNERS[0], pid, 0), Err(Error::Cancelled));
}

#[test]
fn multisig_external_call_is_handed_to_host() {
    let mut m = setup();
    let pid = propose(&mut m, TARGET, "do_thing", 0);
    sign_n(&mut m, pid, 3, 0);
    assert_eq!(m.execute_action(pid, 0, CONTRACT), Ok(ExecutionOutcome::External { target: TARGET }));
    assert!(m.get_proposal(pid).unwrap().executed);
    assert_eq!(m.execute_action(pid, 0, CONTRACT), Err(Error::AlreadyExecuted));
}

#[test]
fn multisig_unknown_proposal_and_expiry() {
    let mut m = setup();
    assert_eq!(m.sign_action(SIGNERS[1], 9, 0), Err(Error::ProposalNotFound));
    let pid = propose(&mut m, TARGET, "do_thing", 0);
    sign_n(&mut m, pid, 3, 0);
    assert_eq!(m.execute_action(pid, EXPIRY_SECONDS + 1, CONTRACT), Err(Error::Expired));
}

#[test]
fn multisig_execution_keeps_proposal_and_counts_signers() {
    let mut m = setup();
    let pid = propose(&mut m, TARGET, "do_thing", 10);
    sign_n(&mut m, pid, 3, 10);
    m.execute_action(pid, 10, CONTRACT).unwrap();
    let p = m.get_proposal(pid).unwrap();
    assert!(p.executed && !p.cancelled);
    assert_eq!(p.approval_count, 3);
    assert_eq!(p.function, "do_thing");
    assert_eq!(p.expiry, 10 + EXPIRY_SECONDS);
    assert_eq!(p.proposer, SIGNERS[0]);
    let pid_add = self_proposal(&mut m, "add_signer", OUTSIDER);
    sign_n(&mut m, pid_add, 3, 0);
    m.execute_action(pid_add, 0, CONTRACT).unwrap();
    let listed = (0..100u64).filter(|a| m.is_signer(*a) == Ok(true)).count() as u32;
    assert_eq!(m.get_signer_count(), Ok(listed));
    assert_eq!(listed, 6);
    let t = m.get_threshold().unwrap();
    assert!(1 <= t && t <= listed);
}
