use mentorminds::dispute_evidence::{
    DisputeEvidenceContract, Error, Escrow, EscrowStatus, DEFAULT_WINDOW_SECS, MAX_EVIDENCE_ITEMS,
};

const ADMIN: u64 = 1;
const ESCROW_CONTRACT: u64 = 2;
const MENTOR: u64 = 3;
const LEARNER: u64 = 4;

fn escrow(id: u64, status: EscrowStatus, session_end_time: u64) -> Escrow {
    Escrow {
        id,
        mentor: MENTOR,
        learner: LEARNER,
        amount: 100,
        session_id: 77,
        status,
        created_at: 0,
        token_address: 9,
        platform_fee: 0,
        net_amount: 0,
        session_end_time,
        auto_release_delay: 0,
        dispute_reason: 78,
        resolved_at: 0,
        usd_amount: 0,
        quoted_token_amount: 100,
        send_asset: 9,
        dest_asset: 9,
        total_sessions: 1,
        sessions_completed: 0,
    }
}

fn setup() -> DisputeEvidenceContract {
    let mut c = DisputeEvidenceContract::new();
    c.initialize(ADMIN, ESCROW_CONTRACT).unwrap();
    c
}

#[test]
fn stores_evidence_until_cap() {
    let mut c = setup();
    let e = escrow(1, EscrowStatus::Disputed, 0);
    for evidence in [1u64, 2, 3, 4, 5] {
        c.submit_evidence(1, e.mentor, evidence, &e, 0).unwrap();
    }
    assert_eq!(c.get_evidence_count(1), MAX_EVIDENCE_ITEMS);
    assert_eq!(c.submit_evidence(1, e.mentor, 6, &e, 0), Err(Error::EvidenceLimitReached));
    assert_eq!(c.get_evidence(1).len(), 5);
}

#[test]
fn evidence_rejections() {
    let mut c = setup();
    let active = escrow(2, EscrowStatus::Active, 0);
    assert_eq!(c.submit_evidence(2, MENTOR, 1, &active, 0), Err(Error::InvalidEscrowState));
    let disputed = escrow(2, EscrowStatus::Disputed, 100);
    assert_eq!(c.submit_evidence(2, 99, 1, &disputed, 0), Err(Error::Unauthorized));
    let late = 100 + DEFAULT_WINDOW_SECS + 1;
    assert_eq!(c.submit_evidence(2, LEARNER, 1, &disputed, late), Err(Error::EvidenceWindowClosed));
    let item = c.submit_evidence(2, LEARNER, 1, &disputed, late - 1).unwrap();
    assert_eq!(item.submitter, LEARNER);
    assert_eq!(item.submitted_at, late - 1);
    assert_eq!(c.get_evidence(2)[0], item);
    assert_eq!(c.get_evidence_count(3), 0);
}

#[test]
fn evidence_admin_operations() {
    let mut c = setup();
    assert_eq!(c.initialize(ADMIN, ESCROW_CONTRACT), Err(Error::AlreadyInitialized));
    assert_eq!(c.set_escrow_contract(MENTOR, 50), Err(Error::Unauthorized));
    c.set_escrow_contract(ADMIN, 50).unwrap();
    assert_eq!(c.escrow_source(), Some(50));
}
