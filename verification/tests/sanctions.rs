use mentorminds::sanctions::{hash_address, Rejection, Sanctions};
use soroban_sdk::xdr::{AccountId, Limits, PublicKey, ScAddress, ScVal, Uint256, WriteXdr};

const ADMIN: u64 = 1;

fn or_panic<T>(r: Result<T, Rejection>) -> T {
    match r {
        Ok(v) => v,
        Err(e) => panic!("{}", e.message()),
    }
}

fn deploy() -> Sanctions {
    let mut c = Sanctions::new();
    or_panic(c.initialize(ADMIN));
    c
}

/// The XDR encoding of a fresh address, as the host produces it.
fn address_xdr(seed: u8) -> Vec<u8> {
    let address = ScAddress::Account(AccountId(PublicKey::PublicKeyTypeEd25519(Uint256([seed; 32]))));
    let sc_val = ScVal::Address(address);
    sc_val.to_xdr(Limits::none()).unwrap()
}

#[test]
fn test_add_and_check_match() {
    let mut c = deploy();
    let bad_actor = address_xdr(1);
    let hash = hash_address(&bad_actor);
    assert!(!c.is_sanctioned(&bad_actor));
    or_panic(c.add_to_list(hash));
    assert!(c.is_sanctioned(&bad_actor));
}

#[test]
fn test_check_non_match() {
    let mut c = deploy();
    let bad_actor = address_xdr(1);
    let innocent = address_xdr(2);
    or_panic(c.add_to_list(hash_address(&bad_actor)));
    assert!(!c.is_sanctioned(&innocent));
}

#[test]
fn test_remove() {
    let mut c = deploy();
    let addr = address_xdr(3);
    let hash = hash_address(&addr);
    or_panic(c.add_to_list(hash));
    assert!(c.is_sanctioned(&addr));
    or_panic(c.remove_from_list(hash));
    assert!(!c.is_sanctioned(&addr));
}

#[test]
fn test_batch_add() {
    let mut c = deploy();
    let addrs: Vec<Vec<u8>> = (0..5).map(|i| address_xdr(10 + i)).collect();
    let hashes: Vec<[u8; 32]> = addrs.iter().map(|a| hash_address(a)).collect();
    or_panic(c.add_batch(&hashes));
    for a in &addrs {
        assert!(c.is_sanctioned(a));
    }
}

#[test]
#[should_panic(expected = "batch exceeds 100")]
fn test_batch_over_limit_panics() {
    let mut c = deploy();
    let hashes = vec![[0u8; 32]; 101];
    or_panic(c.add_batch(&hashes));
}

#[test]
fn sanctions_hash_is_sha256_of_the_bytes() {
    // SHA-256 of the empty string.
    let empty = hash_address(&[]);
    assert_eq!(
        empty,
        [
            0xe3, 0xb0, 0xc4, 0x42, 0x98, 0xfc, 0x1c, 0x14, 0x9a, 0xfb, 0xf4, 0xc8, 0x99, 0x6f,
            0xb9, 0x24, 0x27, 0xae, 0x41, 0xe4, 0x64, 0x9b, 0x93, 0x4c, 0xa4, 0x95, 0x99, 0x1b,
            0x78, 0x52, 0xb8, 0x55
        ]
    );
    assert_ne!(hash_address(b"abc"), [0u8; 32]);
    assert_ne!(hash_address(b"abc").to_vec(), b"abc".to_vec());
}

#[test]
fn sanctions_rejections() {
    let mut c = Sanctions::new();
    assert_eq!(c.add_to_list([1u8; 32]), Err(Rejection::NotInitialized));
    assert_eq!(c.remove_from_list([1u8; 32]), Err(Rejection::NotInitialized));
    or_panic(c.initialize(ADMIN));
    assert_eq!(c.initialize(ADMIN), Err(Rejection::AlreadyInitialized));
    or_panic(c.add_to_list([1u8; 32]));
    or_panic(c.add_to_list([1u8; 32]));
    or_panic(c.remove_from_list([1u8; 32]));
    assert!(!c.is_listed(&[1u8; 32]));
    let exactly_100 = vec![[2u8; 32]; 100];
    assert_eq!(c.add_batch(&exactly_100), Ok(()));
    assert!(c.is_listed(&[2u8; 32]));
}
