use auth_rules::accounts::{AccountEntry, AccountRef, Accounts, FrequencyAccount};
use auth_rules::error::RuleSetError;
use auth_rules::payload::{LeafInfo, ParsedPayload, PayloadField, PayloadKey, PayloadType, SeedsVec};
use auth_rules::pubkey::Pubkey;
use auth_rules::rules::Rule;

fn pk(byte: u8) -> Pubkey {
    Pubkey([byte; 32])
}

fn no_accounts() -> Accounts {
    Accounts { entries: Vec::new() }
}

fn empty_payload() -> ParsedPayload {
    ParsedPayload { target: None, holder: None, authority: None, amount: None }
}

fn amount_payload(amount: u64) -> ParsedPayload {
    ParsedPayload { target: None, holder: None, authority: None, amount: Some(amount) }
}

#[test]
fn default_payload_is_empty() {
    let p = ParsedPayload::default();
    assert!(p.target.is_none());
    assert!(p.holder.is_none());
    assert!(p.authority.is_none());
    assert!(p.amount.is_none());
}

#[test]
fn empty_all_is_true() {
    let rule = Rule::All { rules: vec![] };
    let res = rule.ll_validate_at(&pk(9), &no_accounts(), &empty_payload(), None);
    assert_eq!(res, (true, RuleSetError::NotImplemented));
}

#[test]
fn empty_any_is_false() {
    let rule = Rule::Any { rules: vec![] };
    let res = rule.ll_validate_at(&pk(9), &no_accounts(), &empty_payload(), None);
    assert_eq!(res, (false, RuleSetError::NotImplemented));
}

#[test]
fn all_short_circuits_on_first_failure() {
    // The first child fails, so its result is returned unchanged; the second
    // child (which would pass) is never the deciding one.
    let failing = Rule::Amount { amount: 1 };
    let passing = Rule::All { rules: vec![] };
    let rule = Rule::All { rules: vec![failing, passing] };
    let res = rule.ll_validate_at(&pk(9), &no_accounts(), &empty_payload(), None);
    assert_eq!(res, (false, RuleSetError::AmountCheckFailed));
}

#[test]
fn all_reports_last_child_identity_on_success() {
    let rule = Rule::All {
        rules: vec![Rule::Amount { amount: 7 }, Rule::All { rules: vec![] }],
    };
    let res = rule.ll_validate_at(&pk(9), &no_accounts(), &amount_payload(7), None);
    assert_eq!(res, (true, RuleSetError::NotImplemented));
}

#[test]
fn any_returns_first_passing_child() {
    let rule = Rule::Any {
        rules: vec![Rule::Amount { amount: 1 }, Rule::Amount { amount: 2 }],
    };
    let res = rule.ll_validate_at(&pk(9), &no_accounts(), &amount_payload(2), None);
    assert_eq!(res, (true, RuleSetError::AmountCheckFailed));
    let res = rule.ll_validate_at(&pk(9), &no_accounts(), &amount_payload(3), None);
    assert_eq!(res, (false, RuleSetError::AmountCheckFailed));
}

#[test]
fn double_negation_matches_plain_rule() {
    let plain = Rule::Amount { amount: 5 };
    let wrapped = Rule::Not {
        rule: Box::new(Rule::Not { rule: Box::new(Rule::Amount { amount: 5 }) }),
    };
    for payload in [amount_payload(5), amount_payload(6), empty_payload()] {
        let a = plain.ll_validate_at(&pk(9), &no_accounts(), &payload, None);
        let b = wrapped.ll_validate_at(&pk(9), &no_accounts(), &payload, None);
        assert_eq!(a, b);
    }
}

#[test]
fn not_inverts_and_keeps_identity() {
    let rule = Rule::Not { rule: Box::new(Rule::Amount { amount: 5 }) };
    let res = rule.ll_validate_at(&pk(9), &no_accounts(), &amount_payload(5), None);
    assert_eq!(res, (false, RuleSetError::AmountCheckFailed));
    let res = rule.ll_validate_at(&pk(9), &no_accounts(), &empty_payload(), None);
    assert_eq!(res, (true, RuleSetError::AmountCheckFailed));
}

#[test]
fn pubkey_match_against_target() {
    let rule = Rule::PubkeyMatch { pubkey: pk(3), field: PayloadKey::Target };
    let matching = ParsedPayload {
        target: Some(PayloadType::Pubkey(pk(3))),
        holder: None,
        authority: None,
        amount: None,
    };
    let res = rule.ll_validate_at(&pk(9), &no_accounts(), &matching, None);
    assert_eq!(res, (true, RuleSetError::PubkeyMatchCheckFailed));

    let differing = ParsedPayload {
        target: Some(PayloadType::Pubkey(pk(4))),
        holder: None,
        authority: None,
        amount: None,
    };
    let res = rule.ll_validate_at(&pk(9), &no_accounts(), &differing, None);
    assert_eq!(res, (false, RuleSetError::PubkeyMatchCheckFailed));

    let res = rule.ll_validate_at(&pk(9), &no_accounts(), &empty_payload(), None);
    assert_eq!(res, (false, RuleSetError::PubkeyMatchCheckFailed));
}

#[test]
fn pubkey_match_ignores_other_slots() {
    // The rule reads the holder slot; a matching target slot does not help.
    let rule = Rule::PubkeyMatch { pubkey: pk(3), field: PayloadKey::Holder };
    let payload = ParsedPayload {
        target: Some(PayloadType::Pubkey(pk(3))),
        holder: None,
        authority: None,
        amount: None,
    };
    let res = rule.ll_validate_at(&pk(9), &no_accounts(), &payload, None);
    assert_eq!(res, (false, RuleSetError::PubkeyMatchCheckFailed));
}

#[test]
fn amount_exact_match_only() {
    let rule = Rule::Amount { amount: 5 };
    let res = rule.ll_validate_at(&pk(9), &no_accounts(), &amount_payload(5), None);
    assert_eq!(res, (true, RuleSetError::AmountCheckFailed));
    let res = rule.ll_validate_at(&pk(9), &no_accounts(), &amount_payload(4), None);
    assert_eq!(res, (false, RuleSetError::AmountCheckFailed));
    let res = rule.ll_validate_at(&pk(9), &no_accounts(), &empty_payload(), None);
    assert_eq!(res, (false, RuleSetError::AmountCheckFailed));
}

#[test]
fn amount_zero_differs_from_unset() {
    let rule = Rule::Amount { amount: 0 };
    let res = rule.ll_validate_at(&pk(9), &no_accounts(), &amount_payload(0), None);
    assert!(res.0);
    let res = rule.ll_validate_at(&pk(9), &no_accounts(), &empty_payload(), None);
    assert_eq!(res, (false, RuleSetError::AmountCheckFailed));
}

#[test]
fn additional_signer_requires_present_signer() {
    let signer = pk(7);
    let bystander = pk(8);
    let accounts = Accounts {
        entries: vec![
            AccountEntry {
                key: signer,
                account: AccountRef { is_signer: true, owner: pk(1), frequency: None },
            },
            AccountEntry {
                key: bystander,
                account: AccountRef { is_signer: false, owner: pk(1), frequency: None },
            },
        ],
    };
    let rule = Rule::AdditionalSigner { account: signer };
    let res = rule.ll_validate_at(&pk(9), &accounts, &empty_payload(), None);
    assert_eq!(res, (true, RuleSetError::AdditionalSignerCheckFailed));

    let rule = Rule::AdditionalSigner { account: bystander };
    let res = rule.ll_validate_at(&pk(9), &accounts, &empty_payload(), None);
    assert_eq!(res, (false, RuleSetError::AdditionalSignerCheckFailed));

    let rule = Rule::AdditionalSigner { account: pk(6) };
    let res = rule.ll_validate_at(&pk(9), &accounts, &empty_payload(), None);
    assert_eq!(res, (false, RuleSetError::AdditionalSignerCheckFailed));
}

#[test]
fn program_owned_checks_owner_of_named_account() {
    let owner = pk(5);
    let held = pk(6);
    let accounts = Accounts {
        entries: vec![AccountEntry {
            key: held,
            account: AccountRef { is_signer: false, owner, frequency: None },
        }],
    };
    let payload = ParsedPayload {
        target: Some(PayloadType::Pubkey(held)),
        holder: None,
        authority: None,
        amount: None,
    };
    let rule = Rule::ProgramOwned { program: owner, field: PayloadKey::Target };
    let res = rule.ll_validate_at(&pk(9), &accounts, &payload, None);
    assert_eq!(res, (true, RuleSetError::ProgramOwnedCheckFailed));

    let rule = Rule::ProgramOwned { program: pk(4), field: PayloadKey::Target };
    let res = rule.ll_validate_at(&pk(9), &accounts, &payload, None);
    assert_eq!(res, (false, RuleSetError::ProgramOwnedCheckFailed));

    let rule = Rule::ProgramOwned { program: owner, field: PayloadKey::Target };
    let res = rule.ll_validate_at(&pk(9), &no_accounts(), &payload, None);
    assert_eq!(res, (false, RuleSetError::ProgramOwnedCheckFailed));

    let res = rule.ll_validate_at(&pk(9), &accounts, &empty_payload(), None);
    assert_eq!(res, (false, RuleSetError::ProgramOwnedCheckFailed));
}

fn frequency_accounts(freq_account: Pubkey, last_update: u64, period: u64) -> Accounts {
    Accounts {
        entries: vec![AccountEntry {
            key: freq_account,
            account: AccountRef {
                is_signer: false,
                owner: pk(1),
                frequency: Some(FrequencyAccount { last_update, period }),
            },
        }],
    }
}

#[test]
fn frequency_boundary_is_exclusive() {
    let freq = pk(2);
    let rule = Rule::Frequency { freq_name: String::from("gate"), freq_account: freq };
    let accounts = frequency_accounts(freq, 100, 50);
    let res = rule.ll_validate_at(&pk(9), &accounts, &empty_payload(), Some(151));
    assert_eq!(res, (true, RuleSetError::FrequencyCheckFailed));
    let res = rule.ll_validate_at(&pk(9), &accounts, &empty_payload(), Some(150));
    assert_eq!(res, (false, RuleSetError::FrequencyCheckFailed));
}

#[test]
fn frequency_overflow_is_distinct() {
    let freq = pk(2);
    let rule = Rule::Frequency { freq_name: String::from("gate"), freq_account: freq };
    let accounts = frequency_accounts(freq, u64::MAX, 1);
    let res = rule.ll_validate_at(&pk(9), &accounts, &empty_payload(), Some(151));
    assert_eq!(res, (false, RuleSetError::NumericalOverflow));
}

#[test]
fn frequency_fails_without_account_time_or_state() {
    let freq = pk(2);
    let rule = Rule::Frequency { freq_name: String::from("gate"), freq_account: freq };

    let res = rule.ll_validate_at(&pk(9), &no_accounts(), &empty_payload(), Some(151));
    assert_eq!(res, (false, RuleSetError::FrequencyCheckFailed));

    let accounts = frequency_accounts(freq, 100, 50);
    let res = rule.ll_validate_at(&pk(9), &accounts, &empty_payload(), None);
    assert_eq!(res, (false, RuleSetError::FrequencyCheckFailed));

    let unparsed = Accounts {
        entries: vec![AccountEntry {
            key: freq,
            account: AccountRef { is_signer: false, owner: pk(1), frequency: None },
        }],
    };
    let res = rule.ll_validate_at(&pk(9), &unparsed, &empty_payload(), Some(151));
    assert_eq!(res, (false, RuleSetError::FrequencyCheckFailed));
}

#[test]
fn frequency_without_runtime_clock_fails() {
    // Outside the ledger runtime the clock sysvar is unavailable, so a
    // rate-limit leaf cannot pass, whatever the persisted state says.
    let freq = pk(2);
    let rule = Rule::Frequency { freq_name: String::from("gate"), freq_account: freq };
    let accounts = frequency_accounts(freq, 0, 0);
    let res = rule.ll_validate(&pk(9), &accounts, &empty_payload());
    assert_eq!(res, (false, RuleSetError::FrequencyCheckFailed));
}

#[test]
fn validate_folds_fields_last_write_wins() {
    let rule = Rule::PubkeyMatch { pubkey: pk(3), field: PayloadKey::Target };
    // Two target fields: the later one overwrites the earlier one.
    let fields = vec![
        PayloadField::Target(PayloadType::Pubkey(pk(4))),
        PayloadField::Target(PayloadType::Pubkey(pk(3))),
    ];
    let res = rule.validate(&pk(9), &no_accounts(), fields);
    assert_eq!(res, Ok(()));

    let fields = vec![
        PayloadField::Target(PayloadType::Pubkey(pk(3))),
        PayloadField::Target(PayloadType::Pubkey(pk(4))),
    ];
    let res = rule.validate(&pk(9), &no_accounts(), fields);
    assert_eq!(res, Err(RuleSetError::PubkeyMatchCheckFailed));
}

#[test]
fn validate_reports_deciding_identity() {
    let rule = Rule::All {
        rules: vec![
            Rule::Amount { amount: 5 },
            Rule::AdditionalSigner { account: pk(7) },
        ],
    };
    let fields = vec![PayloadField::Amount(5)];
    let res = rule.validate(&pk(9), &no_accounts(), fields);
    assert_eq!(res, Err(RuleSetError::AdditionalSignerCheckFailed));

    let fields = vec![PayloadField::Amount(4)];
    let res = rule.validate(&pk(9), &no_accounts(), fields);
    assert_eq!(res, Err(RuleSetError::AmountCheckFailed));
}

#[test]
fn validate_fills_every_slot() {
    let rule = Rule::All {
        rules: vec![
            Rule::PubkeyMatch { pubkey: pk(1), field: PayloadKey::Target },
            Rule::PubkeyMatch { pubkey: pk(2), field: PayloadKey::Holder },
            Rule::PubkeyMatch { pubkey: pk(3), field: PayloadKey::Authority },
            Rule::Amount { amount: 44 },
        ],
    };
    let fields = vec![
        PayloadField::Target(PayloadType::Pubkey(pk(1))),
        PayloadField::Holder(PayloadType::Pubkey(pk(2))),
        PayloadField::Authority(PayloadType::Pubkey(pk(3))),
        PayloadField::Amount(44),
    ];
    let res = rule.validate(&pk(9), &no_accounts(), fields);
    assert_eq!(res, Ok(()));
}

#[test]
fn to_error_maps_each_variant() {
    assert_eq!(
        Rule::AdditionalSigner { account: pk(1) }.to_error(),
        RuleSetError::AdditionalSignerCheckFailed
    );
    assert_eq!(
        Rule::PubkeyMatch { pubkey: pk(1), field: PayloadKey::Target }.to_error(),
        RuleSetError::PubkeyMatchCheckFailed
    );
    assert_eq!(
        Rule::DerivedKeyMatch { account: pk(1), field: PayloadKey::Target }.to_error(),
        RuleSetError::DerivedKeyMatchCheckFailed
    );
    assert_eq!(
        Rule::ProgramOwned { program: pk(1), field: PayloadKey::Target }.to_error(),
        RuleSetError::ProgramOwnedCheckFailed
    );
    assert_eq!(Rule::Amount { amount: 1 }.to_error(), RuleSetError::AmountCheckFailed);
    assert_eq!(
        Rule::Frequency { freq_name: String::from("gate"), freq_account: pk(1) }.to_error(),
        RuleSetError::FrequencyCheckFailed
    );
    assert_eq!(
        Rule::PubkeyTreeMatch { root: [0; 32], field: PayloadKey::Target }.to_error(),
        RuleSetError::PubkeyTreeMatchCheckFailed
    );
    assert_eq!(Rule::All { rules: vec![] }.to_error(), RuleSetError::NotImplemented);
    assert_eq!(Rule::Any { rules: vec![] }.to_error(), RuleSetError::NotImplemented);
    assert_eq!(
        Rule::Not { rule: Box::new(Rule::Amount { amount: 1 }) }.to_error(),
        RuleSetError::NotImplemented
    );
}

#[test]
fn accounts_lookup_last_entry_wins() {
    let key = pk(5);
    let accounts = Accounts {
        entries: vec![
            AccountEntry {
                key,
                account: AccountRef { is_signer: false, owner: pk(1), frequency: None },
            },
            AccountEntry {
                key,
                account: AccountRef { is_signer: true, owner: pk(1), frequency: None },
            },
        ],
    };
    let rule = Rule::AdditionalSigner { account: key };
    let res = rule.ll_validate_at(&pk(9), &accounts, &empty_payload(), None);
    assert_eq!(res, (true, RuleSetError::AdditionalSignerCheckFailed));
}

#[test]
fn missing_seeds_fail_derived_key_match() {
    let rule = Rule::DerivedKeyMatch { account: pk(1), field: PayloadKey::Target };
    let res = rule.ll_validate_at(&pk(9), &no_accounts(), &empty_payload(), None);
    assert_eq!(res, (false, RuleSetError::DerivedKeyMatchCheckFailed));
}

#[test]
fn missing_proof_fails_tree_match() {
    let rule = Rule::PubkeyTreeMatch { root: [0; 32], field: PayloadKey::Target };
    let res = rule.ll_validate_at(&pk(9), &no_accounts(), &empty_payload(), None);
    assert_eq!(res, (false, RuleSetError::PubkeyTreeMatchCheckFailed));
}

#[test]
fn seeds_slot_is_not_a_pubkey_slot() {
    // A seed list in the target slot does not satisfy an identifier match.
    let rule = Rule::PubkeyMatch { pubkey: pk(3), field: PayloadKey::Target };
    let payload = ParsedPayload {
        target: Some(PayloadType::Seeds(SeedsVec { seeds: vec![vec![3u8; 32]] })),
        holder: None,
        authority: None,
        amount: None,
    };
    let res = rule.ll_validate_at(&pk(9), &no_accounts(), &payload, None);
    assert_eq!(res, (false, RuleSetError::PubkeyMatchCheckFailed));
}

#[test]
fn leaf_info_slot_requires_proof_shape() {
    // A Merkle proof is only read from a slot that actually holds one.
    let rule = Rule::PubkeyTreeMatch { root: [0; 32], field: PayloadKey::Holder };
    let payload = ParsedPayload {
        target: Some(PayloadType::MerkleProof(LeafInfo { leaf: [0; 32], proof: vec![] })),
        holder: Some(PayloadType::Pubkey(pk(3))),
        authority: None,
        amount: None,
    };
    let res = rule.ll_validate_at(&pk(9), &no_accounts(), &payload, None);
    assert_eq!(res, (false, RuleSetError::PubkeyTreeMatchCheckFailed));
}
