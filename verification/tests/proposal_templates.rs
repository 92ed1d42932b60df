use mentorminds::proposal_templates::{
    ParamSet, ParamValue, ProposalTemplatesContract, Rejection, TemplateType,
};

const ADMIN: u64 = 1;
const PROPOSER: u64 = 2;

fn or_panic<T>(r: Result<T, Rejection>) -> T {
    match r {
        Ok(v) => v,
        Err(e) => panic!("{}", e.message()),
    }
}

/// The schema hash as the host computes it, independently of the library.
fn schema_hash_for(template_type: &TemplateType) -> [u8; 32] {
    let descriptor = match template_type {
        TemplateType::UpdateFee => "UpdateFee:fee_bps:u32",
        TemplateType::UpdateAutoRelease => "UpdateAutoRelease:auto_release_secs:u64",
        TemplateType::AddAsset => "AddAsset:asset:Address",
        TemplateType::UpdateAdmin => "UpdateAdmin:new_admin:Address",
        TemplateType::UpdateKycRequirement => "UpdateKycRequirement:kyc_required:bool",
        TemplateType::UpdateVelocityLimit => "UpdateVelocityLimit:velocity_limit:i128",
        TemplateType::TreasuryAllocation => "TreasuryAllocation:recipient:Address,amount:i128",
    };
    let env = soroban_sdk::Env::default();
    let bytes = soroban_sdk::Bytes::from_slice(&env, descriptor.as_bytes());
    env.crypto().sha256(&bytes).to_array()
}

fn setup() -> ProposalTemplatesContract {
    let mut c = ProposalTemplatesContract::new();
    or_panic(c.initialize(ADMIN));
    c
}

fn params(entries: &[(&str, ParamValue)]) -> ParamSet {
    let mut p = ParamSet::new();
    for (k, v) in entries {
        p.set(k.to_string(), *v);
    }
    p
}

#[test]
fn test_register_template() {
    let mut c = setup();
    let template = TemplateType::UpdateFee;
    let schema_hash = schema_hash_for(&template);
    or_panic(c.register_template(template, schema_hash, 0));
    let stored = or_panic(c.get_template(template));
    assert_eq!(stored.template_type, template);
    assert_eq!(stored.param_schema_hash, schema_hash);
}

#[test]
fn test_create_valid_proposal() {
    let mut c = setup();
    let template = TemplateType::UpdateFee;
    or_panic(c.register_template(template, schema_hash_for(&template), 0));
    let p = params(&[("fee_bps", ParamValue::U32(250))]);
    let id = or_panic(c.create_from_template(PROPOSER, template, p, 10));
    assert_eq!(id, 1);
    let proposal = or_panic(c.get_proposal(id));
    assert_eq!(proposal.id, id);
    assert_eq!(proposal.proposer, PROPOSER);
    assert_eq!(proposal.template_type, template);
}

#[test]
#[should_panic(expected = "missing required param")]
fn test_invalid_params_rejection() {
    let mut c = setup();
    let template = TemplateType::UpdateFee;
    or_panic(c.register_template(template, schema_hash_for(&template), 0));
    let p = params(&[("wrong_key", ParamValue::U32(250))]);
    or_panic(c.create_from_template(PROPOSER, template, p, 10));
}

#[test]
fn templates_schema_hash_is_sha256_of_descriptor() {
    assert_eq!(ProposalTemplatesContract::schema_descriptor(&TemplateType::UpdateFee), "UpdateFee:fee_bps:u32");
    assert_eq!(
        ProposalTemplatesContract::expected_schema_hash(&TemplateType::UpdateFee),
        [
            40, 67, 146, 6, 187, 220, 225, 179, 131, 210, 53, 12, 48, 167, 210, 120, 34, 98,
            227, 181, 138, 68, 82, 131, 219, 145, 95, 192, 13, 255, 219, 245
        ]
    );
    assert_eq!(
        ProposalTemplatesContract::expected_schema_hash(&TemplateType::TreasuryAllocation),
        [
            123, 49, 154, 139, 157, 232, 161, 169, 218, 249, 220, 238, 100, 114, 241, 176, 17,
            21, 146, 172, 139, 250, 217, 239, 171, 208, 127, 8, 200, 188, 90, 33
        ]
    );
    for t in [
        TemplateType::UpdateAutoRelease,
        TemplateType::AddAsset,
        TemplateType::UpdateAdmin,
        TemplateType::UpdateKycRequirement,
        TemplateType::UpdateVelocityLimit,
    ] {
        assert_eq!(ProposalTemplatesContract::expected_schema_hash(&t), schema_hash_for(&t));
    }
}

#[test]
fn templates_wrong_hash_and_missing_template() {
    let mut c = setup();
    assert_eq!(
        c.register_template(TemplateType::AddAsset, [0u8; 32], 0),
        Err(Rejection::InvalidSchemaHash)
    );
    let p = params(&[("asset", ParamValue::Address(5))]);
    assert_eq!(
        c.create_from_template(PROPOSER, TemplateType::AddAsset, p, 0),
        Err(Rejection::TemplateNotFound)
    );
    assert_eq!(c.get_proposal(9).map(|p| p.id), Err(Rejection::ProposalNotFound));
}

#[test]
fn templates_mismatching_stored_hash() {
    let mut c = setup();
    let t = TemplateType::AddAsset;
    // a template stored against another expectation fails the creation check
    or_panic(c.register_template_against(t, [7u8; 32], [7u8; 32], 0));
    let p = params(&[("asset", ParamValue::Address(5))]);
    assert_eq!(c.create_from_template(PROPOSER, t, p, 0), Err(Rejection::TemplateSchemaMismatch));
    let p2 = params(&[("asset", ParamValue::Address(5))]);
    assert_eq!(c.create_from_template_against(PROPOSER, t, p2, [7u8; 32], 0), Ok(1));
}

#[test]
fn templates_parameter_validation() {
    let fee = TemplateType::UpdateFee;
    assert_eq!(ProposalTemplatesContract::validate_params(&fee, &params(&[("fee_bps", ParamValue::U32(10_000))])), Ok(()));
    assert_eq!(
        ProposalTemplatesContract::validate_params(&fee, &params(&[("fee_bps", ParamValue::U32(10_001))])),
        Err(Rejection::InvalidFeeBps)
    );
    assert_eq!(
        ProposalTemplatesContract::validate_params(&fee, &params(&[("fee_bps", ParamValue::U64(1))])),
        Err(Rejection::InvalidParamType)
    );
    assert_eq!(
        ProposalTemplatesContract::validate_params(&fee, &params(&[("fee_bps", ParamValue::U32(1)), ("x", ParamValue::Bool(true))])),
        Err(Rejection::InvalidParamSet)
    );
    assert_eq!(
        ProposalTemplatesContract::validate_params(&TemplateType::UpdateAutoRelease, &params(&[("auto_release_secs", ParamValue::U64(0))])),
        Err(Rejection::InvalidAutoReleaseDelay)
    );
    assert_eq!(
        ProposalTemplatesContract::validate_params(&TemplateType::UpdateVelocityLimit, &params(&[("velocity_limit", ParamValue::I128(0))])),
        Err(Rejection::InvalidVelocityLimit)
    );
    assert_eq!(
        ProposalTemplatesContract::validate_params(&TemplateType::UpdateKycRequirement, &params(&[("kyc_required", ParamValue::Bool(false))])),
        Ok(())
    );
    assert_eq!(
        ProposalTemplatesContract::validate_params(&TemplateType::UpdateAdmin, &params(&[("new_admin", ParamValue::Other)])),
        Err(Rejection::InvalidParamType)
    );
    let treasury = TemplateType::TreasuryAllocation;
    assert_eq!(
        ProposalTemplatesContract::validate_params(
            &treasury,
            &params(&[("recipient", ParamValue::Address(3)), ("amount", ParamValue::I128(-1))])
        ),
        Err(Rejection::InvalidTreasuryAllocation)
    );
    assert_eq!(
        ProposalTemplatesContract::validate_params(
            &treasury,
            &params(&[("recipient", ParamValue::Address(3)), ("amount", ParamValue::I128(5))])
        ),
        Ok(())
    );
}

#[test]
fn templates_param_set_replaces_values() {
    let mut p = ParamSet::new();
    p.set("a".to_string(), ParamValue::U32(1));
    p.set("a".to_string(), ParamValue::U32(2));
    assert_eq!(p.len(), 1);
    assert_eq!(p.get("a"), Some(ParamValue::U32(2)));
    assert_eq!(p.get("b"), None);
}

#[test]
fn templates_uninitialized() {
    let mut c = ProposalTemplatesContract::new();
    assert_eq!(
        c.register_template(TemplateType::UpdateFee, [0u8; 32], 0),
        Err(Rejection::NotInitialized)
    );
    or_panic(c.initialize(ADMIN));
    assert_eq!(c.initialize(ADMIN), Err(Rejection::AlreadyInitialized));
}

#[test]
fn templates_descriptors_are_distinct_and_named() {
    let all = [
        (TemplateType::UpdateFee, "UpdateFee"),
        (TemplateType::UpdateAutoRelease, "UpdateAutoRelease"),
        (TemplateType::AddAsset, "AddAsset"),
        (TemplateType::UpdateAdmin, "UpdateAdmin"),
        (TemplateType::UpdateKycRequirement, "UpdateKycRequirement"),
        (TemplateType::UpdateVelocityLimit, "UpdateVelocityLimit"),
        (TemplateType::TreasuryAllocation, "TreasuryAllocation"),
    ];
    for (i, (t, name)) in all.iter().enumerate() {
        let d = ProposalTemplatesContract::schema_descriptor(t);
        assert!(d.starts_with(&format!("{}:", name)));
        for (u, _) in all.iter().skip(i + 1) {
            assert_ne!(d, ProposalTemplatesContract::schema_descriptor(u));
            assert_ne!(
                ProposalTemplatesContract::expected_schema_hash(t),
                ProposalTemplatesContract::expected_schema_hash(u)
            );
        }
    }
}
