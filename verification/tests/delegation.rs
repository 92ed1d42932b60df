use std::collections::HashMap;

use mentorminds::delegation::{DelegationContract, Rejection};

const ADMIN: u64 = 1;
const TOKEN: u64 = 2;

fn or_panic<T>(r: Result<T, Rejection>) -> T {
    match r {
        Ok(v) => v,
        Err(e) => panic!("{}", e.message()),
    }
}

/// The delegation contract and the token whose balances it weighs, as the
/// host runs them.
struct Host {
    del: DelegationContract,
    balances: HashMap<u64, i128>,
}

impl Host {
    fn setup() -> Self {
        let mut del = DelegationContract::new();
        or_panic(del.initialize(ADMIN, TOKEN));
        Host { del, balances: HashMap::new() }
    }

    fn delegator_balances(&self) -> Vec<i128> {
        self.del
            .get_delegators()
            .iter()
            .map(|d| *self.balances.get(d).unwrap_or(&0))
            .collect()
    }

    fn delegated_power(&self, delegate: u64) -> i128 {
        or_panic(self.del.get_delegated_power(delegate, &self.delegator_balances()))
    }

    fn effective_power(&self, voter: u64) -> i128 {
        let own = *self.balances.get(&voter).unwrap_or(&0);
        or_panic(self.del.get_effective_power(voter, own, &self.delegator_balances()))
    }
}

#[test]
fn test_delegate_and_undelegate() {
    let mut h = Host::setup();
    let (a, b) = (10, 11);
    h.balances.insert(a, 100);
    or_panic(h.del.delegate(a, b));
    assert_eq!(h.del.get_delegate(a), Some(b));
    assert_eq!(h.delegated_power(b), 100);
    assert!(h.del.undelegate(a).is_some());
    assert!(h.del.get_delegate(a).is_none());
    assert_eq!(h.delegated_power(b), 0);
}

#[test]
#[should_panic]
fn test_circular() {
    let mut h = Host::setup();
    let (a, b) = (10, 11);
    h.balances.insert(a, 10);
    h.balances.insert(b, 20);
    or_panic(h.del.delegate(a, b));
    or_panic(h.del.delegate(b, a));
}

#[test]
fn test_chain_delegation_and_effective_power() {
    let mut h = Host::setup();
    let (a, b, c) = (10, 11, 12);
    h.balances.insert(a, 10);
    h.balances.insert(b, 20);
    h.balances.insert(c, 30);
    or_panic(h.del.delegate(a, b));
    or_panic(h.del.delegate(b, c));
    assert_eq!(h.effective_power(c), 60);
    assert_eq!(h.effective_power(a), 0);
}

#[test]
fn delegation_messages_and_rejections() {
    let mut h = Host::setup();
    assert_eq!(h.del.delegate(5, 5), Err(Rejection::SelfDelegation));
    assert_eq!(Rejection::SelfDelegation.message(), "cannot delegate to self");
    or_panic(h.del.delegate(1, 2));
    assert_eq!(h.del.delegate(2, 1), Err(Rejection::CircularDelegation));
    assert_eq!(Rejection::CircularDelegation.message(), "circular delegation");
    assert!(h.del.undelegate(77).is_none());
    let fresh = DelegationContract::new();
    assert_eq!(fresh.get_delegated_power(1, &vec![]), Err(Rejection::TokenNotSet));
    assert_eq!(h.del.initialize(ADMIN, TOKEN), Err(Rejection::AlreadyInitialized));
}

#[test]
fn delegation_chain_is_followed_three_hops() {
    let mut h = Host::setup();
    // 1 -> 2 -> 3 -> 4 -> 5: from 1, three hops end at 4.
    for (x, y) in [(1, 2), (2, 3), (3, 4), (4, 5)] {
        or_panic(h.del.delegate(x, y));
    }
    assert_eq!(h.del.resolve_delegate_internal(1, 3), Some(4));
    assert_eq!(h.del.resolve_delegate_internal(2, 3), Some(5));
    assert_eq!(h.del.resolve_delegate_internal(5, 3), Some(5));
    // 5 -> 1 would close a cycle of five, which three hops do not see.
    assert!(h.del.delegate(5, 1).is_ok());
}

#[test]
fn delegation_redelegating_keeps_one_entry() {
    let mut h = Host::setup();
    or_panic(h.del.delegate(1, 2));
    or_panic(h.del.delegate(1, 3));
    assert_eq!(h.del.get_delegators(), vec![1]);
    assert_eq!(h.del.get_delegate(1), Some(3));
}

#[test]
fn delegation_overflow_is_reported() {
    let mut h = Host::setup();
    or_panic(h.del.delegate(1, 9));
    or_panic(h.del.delegate(2, 9));
    h.balances.insert(1, i128::MAX);
    h.balances.insert(2, 1);
    assert_eq!(h.del.get_delegated_power(9, &h.delegator_balances()), Err(Rejection::Overflow));
}
