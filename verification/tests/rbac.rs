use mentorminds::rbac::{Error, RbacContract};

const ADMIN: u64 = 1;
const OPERATOR: u64 = 2;

#[test]
fn grants_and_revokes_roles() {
    let mut c = RbacContract::new();
    c.initialize(ADMIN).unwrap();
    let role = RbacContract::kyc_operator_role();
    c.grant_role(ADMIN, &role, OPERATOR).unwrap();
    assert!(c.has_role(&role, OPERATOR));
    assert_eq!(c.get_role_members(&role).len(), 1);
    c.revoke_role(ADMIN, &role, OPERATOR).unwrap();
    assert!(!c.has_role(&role, OPERATOR));
}

#[test]
fn rbac_role_names() {
    assert_eq!(RbacContract::super_admin_role(), "SUPER_ADMIN");
    assert_eq!(RbacContract::escrow_admin_role(), "ESCROW_ADMIN");
    assert_eq!(RbacContract::dispute_resolver_role(), "DISPUTE_RESOLVER");
    assert_eq!(RbacContract::oracle_admin_role(), "ORACLE_ADMIN");
    assert_eq!(RbacContract::oracle_feeder_role(), "ORACLE_FEEDER");
    assert_eq!(RbacContract::kyc_operator_role(), "KYC_OPERATOR");
    assert_eq!(RbacContract::session_oracle_role(), "SESSION_ORACLE");
}

#[test]
fn rbac_super_admin_role_holders_may_grant() {
    let mut c = RbacContract::new();
    c.initialize(ADMIN).unwrap();
    assert!(c.has_role("SUPER_ADMIN", ADMIN));
    assert_eq!(c.grant_role(OPERATOR, "ORACLE_FEEDER", 5), Err(Error::Unauthorized));
    c.grant_role(ADMIN, "SUPER_ADMIN", OPERATOR).unwrap();
    c.grant_role(OPERATOR, "ORACLE_FEEDER", 5).unwrap();
    assert!(c.has_role("ORACLE_FEEDER", 5));
    // granting twice keeps one membership
    c.grant_role(ADMIN, "ORACLE_FEEDER", 5).unwrap();
    assert_eq!(c.get_role_members("ORACLE_FEEDER"), vec![5]);
}

#[test]
fn rbac_rejections() {
    let mut c = RbacContract::new();
    assert_eq!(c.grant_role(ADMIN, "X", 3), Err(Error::Unauthorized));
    c.initialize(ADMIN).unwrap();
    assert_eq!(c.initialize(ADMIN), Err(Error::AlreadyInitialized));
    assert_eq!(c.revoke_role(ADMIN, "X", 3), Err(Error::RoleNotGranted));
    assert_eq!(c.require_role("X", 3), Err(Error::Unauthorized));
    c.grant_role(ADMIN, "X", 3).unwrap();
    c.grant_role(ADMIN, "X", 4).unwrap();
    assert_eq!(c.require_role("X", 3), Ok(()));
    c.revoke_role(ADMIN, "X", 3).unwrap();
    assert_eq!(c.get_role_members("X"), vec![4]);
    assert_eq!(c.revoke_role(ADMIN, "X", 3), Err(Error::RoleNotGranted));
}
