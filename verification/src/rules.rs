//! The rule engine: a recursive tree of composable predicate rules, its
//! evaluation semantics with short-circuiting boolean composition, and the
//! structural pre-flight pass over the rate-limit leaves. Every result pairs
//! the boolean decision with the error identity of the predicate that
//! determined it.

use vstd::prelude::*;

use vstd::slice::slice_to_vec;
use vstd::string::{StrSliceExecFns, StringSliceAdditionalSpecFns};
use vstd::utf8::encode_utf8;

use crate::accounts::{spec_lookup, AccountEntry, Accounts};
use crate::derivation::{assert_derivation, spec_assert_derivation};
use crate::error::RuleSetError;
use crate::frequency::{current_time, frequency_gate, spec_frequency_gate, GateOutcome};
use crate::merkle::{compute_merkle_root, hash_views, merkle_root};
use crate::payload::{
    parse_fields, spec_get_merkle_proof, spec_get_pubkey, spec_get_seeds, ParsedPayload,
    PayloadField, PayloadKey,
};
use crate::pubkey::{bytes32_eq, pubkey_eq, Pubkey};

verus! {

/// A node of the boolean decision tree.
#[derive(Debug, PartialEq, Eq)]
pub enum Rule {
    /// Conjunction: true iff every child is true.
    All { rules: Vec<Rule> },
    /// Disjunction: true iff at least one child is true.
    Any { rules: Vec<Rule> },
    /// Negation of exactly one child.
    Not { rule: Box<Rule> },
    /// True iff that identifier's account is present and marked as a signer.
    AdditionalSigner { account: Pubkey },
    /// True iff the payload's identifier at `field` equals `pubkey`.
    PubkeyMatch { pubkey: Pubkey, field: PayloadKey },
    /// True iff `account` was derived from the seeds supplied in the payload
    /// at `field`, under the program's namespace.
    DerivedKeyMatch { account: Pubkey, field: PayloadKey },
    /// True iff the account named by the payload at `field` is owned by
    /// `program`.
    ProgramOwned { program: Pubkey, field: PayloadKey },
    /// True iff the payload carries exactly this amount.
    Amount { amount: u64 },
    /// True iff the named persisted rate-limit account's cooldown has elapsed.
    Frequency { freq_name: String, freq_account: Pubkey },
    /// True iff a Merkle proof supplied in the payload at `field` verifies
    /// against `root`.
    PubkeyTreeMatch { root: [u8; 32], field: PayloadKey },
}

/// The error identity of a node: one dedicated identity per leaf predicate;
/// composite nodes have none of their own and fall back to the
/// not-implemented identity.
pub open spec fn spec_to_error(r: Rule) -> RuleSetError {
    match r {
        Rule::AdditionalSigner { .. } => RuleSetError::AdditionalSignerCheckFailed,
        Rule::PubkeyMatch { .. } => RuleSetError::PubkeyMatchCheckFailed,
        Rule::DerivedKeyMatch { .. } => RuleSetError::DerivedKeyMatchCheckFailed,
        Rule::ProgramOwned { .. } => RuleSetError::ProgramOwnedCheckFailed,
        Rule::Amount { .. } => RuleSetError::AmountCheckFailed,
        Rule::Frequency { .. } => RuleSetError::FrequencyCheckFailed,
        Rule::PubkeyTreeMatch { .. } => RuleSetError::PubkeyTreeMatchCheckFailed,
        Rule::All { .. } => RuleSetError::NotImplemented,
        Rule::Any { .. } => RuleSetError::NotImplemented,
        Rule::Not { .. } => RuleSetError::NotImplemented,
    }
}

/// What a rate-limit leaf decides: false when the account is missing, the
/// time is unavailable or the account does not resolve to rate-limit state;
/// otherwise the cooldown decision, with overflow carrying its own identity.
pub open spec fn eval_frequency(
    freq_account: Pubkey,
    accounts: Seq<AccountEntry>,
    now: Option<u64>,
) -> (bool, RuleSetError) {
    match spec_lookup(accounts, freq_account@) {
        None => (false, RuleSetError::FrequencyCheckFailed),
        Some(account) => match now {
            None => (false, RuleSetError::FrequencyCheckFailed),
            Some(t) => match account.frequency {
                None => (false, RuleSetError::FrequencyCheckFailed),
                Some(f) => match spec_frequency_gate(f.last_update, f.period, t) {
                    GateOutcome::Pass => (true, RuleSetError::FrequencyCheckFailed),
                    GateOutcome::Fail => (false, RuleSetError::FrequencyCheckFailed),
                    GateOutcome::Overflow => (false, RuleSetError::NumericalOverflow),
                },
            },
        },
    }
}

/// The evaluation semantics of a rule tree against a program namespace, an
/// accounts mapping, a normalized payload and the current time.
pub open spec fn eval(
    r: Rule,
    program: Seq<u8>,
    accounts: Seq<AccountEntry>,
    payload: ParsedPayload,
    now: Option<u64>,
) -> (bool, RuleSetError)
    decreases r, 0int,
{
    match r {
        Rule::All { rules } => eval_all(
            rules@,
            0,
            RuleSetError::NotImplemented,
            program,
            accounts,
            payload,
            now,
        ),
        Rule::Any { rules } => eval_any(
            rules@,
            0,
            RuleSetError::NotImplemented,
            program,
            accounts,
            payload,
            now,
        ),
        Rule::Not { rule } => {
            let res = eval(*rule, program, accounts, payload, now);
            (!res.0, res.1)
        },
        Rule::AdditionalSigner { account } => (
            match spec_lookup(accounts, account@) {
                Some(a) => a.is_signer,
                None => false,
            },
            RuleSetError::AdditionalSignerCheckFailed,
        ),
        Rule::PubkeyMatch { pubkey, field } => (
            match spec_get_pubkey(payload, field) {
                Some(k) => k@ == pubkey@,
                None => false,
            },
            RuleSetError::PubkeyMatchCheckFailed,
        ),
        Rule::DerivedKeyMatch { account, field } => (
            match spec_get_seeds(payload, field) {
                Some(s) => spec_assert_derivation(
                    program,
                    account@,
                    s.seeds.deep_view(),
                ) is Ok,
                None => false,
            },
            RuleSetError::DerivedKeyMatchCheckFailed,
        ),
        Rule::ProgramOwned { program: owner, field } => (
            match spec_get_pubkey(payload, field) {
                Some(k) => match spec_lookup(accounts, k@) {
                    Some(a) => a.owner@ == owner@,
                    None => false,
                },
                None => false,
            },
            RuleSetError::ProgramOwnedCheckFailed,
        ),
        Rule::Amount { amount } => (
            payload.amount == Some(amount),
            RuleSetError::AmountCheckFailed,
        ),
        Rule::Frequency { freq_name, freq_account } => eval_frequency(freq_account, accounts, now),
        Rule::PubkeyTreeMatch { root, field } => (
            match spec_get_merkle_proof(payload, field) {
                Some(li) => merkle_root(li.leaf@, hash_views(li.proof@)) == root@,
                None => false,
            },
            RuleSetError::PubkeyTreeMatchCheckFailed,
        ),
    }
}

/// Conjunction semantics from child `i` on: the first failing child's result
/// decides; when every child passes, true with the identity of the last
/// child consulted so far (`last`).
pub open spec fn eval_all(
    rules: Seq<Rule>,
    i: int,
    last: RuleSetError,
    program: Seq<u8>,
    accounts: Seq<AccountEntry>,
    payload: ParsedPayload,
    now: Option<u64>,
) -> (bool, RuleSetError)
    decreases rules, rules.len() - i,
{
    if i < 0 || i >= rules.len() {
        (true, last)
    } else {
        let res = eval(rules[i], program, accounts, payload, now);
        if !res.0 {
            res
        } else {
            eval_all(rules, i + 1, spec_to_error(rules[i]), program, accounts, payload, now)
        }
    }
}

/// Disjunction semantics from child `i` on: the first passing child's result
/// decides; when no child passes, false with the identity of the last child
/// consulted so far (`last`).
pub open spec fn eval_any(
    rules: Seq<Rule>,
    i: int,
    last: RuleSetError,
    program: Seq<u8>,
    accounts: Seq<AccountEntry>,
    payload: ParsedPayload,
    now: Option<u64>,
) -> (bool, RuleSetError)
    decreases rules, rules.len() - i,
{
    if i < 0 || i >= rules.len() {
        (false, last)
    } else {
        let res = eval(rules[i], program, accounts, payload, now);
        if res.0 {
            res
        } else {
            eval_any(rules, i + 1, spec_to_error(rules[i]), program, accounts, payload, now)
        }
    }
}

/// What validating a field list comes to: fold the fields into the payload
/// record, evaluate, and turn a denial into the deciding identity.
pub open spec fn spec_validate(
    r: Rule,
    program: Seq<u8>,
    accounts: Seq<AccountEntry>,
    fields: Seq<PayloadField>,
    now: Option<u64>,
) -> Result<(), RuleSetError> {
    let res = eval(r, program, accounts, parse_fields(fields), now);
    if res.0 {
        Ok(())
    } else {
        Err(res.1)
    }
}

/// The tag that begins every rate-limit account's seed list.
pub open spec fn freq_seed() -> Seq<u8> {
    "frequency".spec_bytes()
}

/// The seed list from which a rate-limit account's identifier must have been
/// derived: the fixed tag, the payer, the rule-set name and the leaf's name.
pub open spec fn frequency_seeds(
    payer: Seq<u8>,
    rule_set_name: Seq<char>,
    freq_name: Seq<char>,
) -> Seq<Seq<u8>> {
    seq![freq_seed(), payer, encode_utf8(rule_set_name), encode_utf8(freq_name)]
}

/// The structural pre-flight pass: every rate-limit leaf's account must be
/// the identifier derived for its `(payer, rule-set name, leaf name)` triple.
/// A conjunction needs every child to pass; a disjunction needs one, and
/// surfaces the structural-mismatch identity when none does; every other
/// node passes trivially.
pub open spec fn spec_pda_check(
    r: Rule,
    program: Seq<u8>,
    payer: Seq<u8>,
    rule_set_name: Seq<char>,
) -> Result<(), RuleSetError>
    decreases r, 0int,
{
    match r {
        Rule::All { rules } => spec_pda_check_all(rules@, 0, program, payer, rule_set_name),
        Rule::Any { rules } => spec_pda_check_any(rules@, 0, program, payer, rule_set_name),
        Rule::Frequency { freq_name, freq_account } => match spec_assert_derivation(
            program,
            freq_account@,
            frequency_seeds(payer, rule_set_name, freq_name@),
        ) {
            Ok(_) => Ok(()),
            Err(e) => Err(e),
        },
        _ => Ok(()),
    }
}

/// Pre-flight over a conjunction's children from `i` on: the first failing
/// child's error decides.
pub open spec fn spec_pda_check_all(
    rules: Seq<Rule>,
    i: int,
    program: Seq<u8>,
    payer: Seq<u8>,
    rule_set_name: Seq<char>,
) -> Result<(), RuleSetError>
    decreases rules, rules.len() - i,
{
    if i < 0 || i >= rules.len() {
        Ok(())
    } else {
        match spec_pda_check(rules[i], program, payer, rule_set_name) {
            Ok(_) => spec_pda_check_all(rules, i + 1, program, payer, rule_set_name),
            Err(e) => Err(e),
        }
    }
}

/// Pre-flight over a disjunction's children from `i` on: one passing child
/// suffices; with none, the structural-mismatch identity.
pub open spec fn spec_pda_check_any(
    rules: Seq<Rule>,
    i: int,
    program: Seq<u8>,
    payer: Seq<u8>,
    rule_set_name: Seq<char>,
) -> Result<(), RuleSetError>
    decreases rules, rules.len() - i,
{
    if i < 0 || i >= rules.len() {
        Err(RuleSetError::DataTypeMismatch)
    } else if spec_pda_check(rules[i], program, payer, rule_set_name) is Ok {
        Ok(())
    } else {
        spec_pda_check_any(rules, i + 1, program, payer, rule_set_name)
    }
}

impl Rule {
    /// The error identity of this node alone.
    pub fn to_error(&self) -> (r: RuleSetError)
        ensures
            r == spec_to_error(*self),
    {
        match self {
            Rule::AdditionalSigner { .. } => RuleSetError::AdditionalSignerCheckFailed,
            Rule::PubkeyMatch { .. } => RuleSetError::PubkeyMatchCheckFailed,
            Rule::DerivedKeyMatch { .. } => RuleSetError::DerivedKeyMatchCheckFailed,
            Rule::ProgramOwned { .. } => RuleSetError::ProgramOwnedCheckFailed,
            Rule::Amount { .. } => RuleSetError::AmountCheckFailed,
            Rule::Frequency { .. } => RuleSetError::FrequencyCheckFailed,
            Rule::PubkeyTreeMatch { .. } => RuleSetError::PubkeyTreeMatchCheckFailed,
            Rule::All { .. } => RuleSetError::NotImplemented,
            Rule::Any { .. } => RuleSetError::NotImplemented,
            Rule::Not { .. } => RuleSetError::NotImplemented,
        }
    }

    /// Evaluate this tree against an already-normalized payload at an
    /// explicitly supplied time.
    #[verifier::loop_isolation(false)]
    pub fn ll_validate_at(
        &self,
        program_id: &Pubkey,
        accounts: &Accounts,
        payload: &ParsedPayload,
        now: Option<u64>,
    ) -> (r: (bool, RuleSetError))
        ensures
            r == eval(*self, program_id@, accounts.entries@, *payload, now),
        decreases *self,
    {
        match self {
            Rule::All { rules } => {
                let mut last = RuleSetError::NotImplemented;
                let mut i: usize = 0;
                while i < rules.len()
                    invariant
                        i <= rules.len(),
                        eval(*self, program_id@, accounts.entries@, *payload, now) == eval_all(
                            rules@,
                            i as int,
                            last,
                            program_id@,
                            accounts.entries@,
                            *payload,
                            now,
                        ),
                    decreases rules.len() - i,
                {
                    proof {
                        assert(decreases_to!(*self => rules@[i as int]));
                    }
                    let child = &rules[i];
                    let res = child.ll_validate_at(program_id, accounts, payload, now);
                    if !res.0 {
                        return res;
                    }
                    last = child.to_error();
                    i += 1;
                }
                (true, last)
            },
            Rule::Any { rules } => {
                let mut last = RuleSetError::NotImplemented;
                let mut i: usize = 0;
                while i < rules.len()
                    invariant
                        i <= rules.len(),
                        eval(*self, program_id@, accounts.entries@, *payload, now) == eval_any(
                            rules@,
                            i as int,
                            last,
                            program_id@,
                            accounts.entries@,
                            *payload,
                            now,
                        ),
                    decreases rules.len() - i,
                {
                    proof {
                        assert(decreases_to!(*self => rules@[i as int]));
                    }
                    let child = &rules[i];
                    let res = child.ll_validate_at(program_id, accounts, payload, now);
                    if res.0 {
                        return res;
                    }
                    last = child.to_error();
                    i += 1;
                }
                (false, last)
            },
            Rule::Not { rule } => {
                let res = rule.ll_validate_at(program_id, accounts, payload, now);
                (!res.0, res.1)
            },
            Rule::AdditionalSigner { account } => {
                let passed = match accounts.get(account) {
                    Some(a) => a.is_signer,
                    None => false,
                };
                (passed, RuleSetError::AdditionalSignerCheckFailed)
            },
            Rule::PubkeyMatch { pubkey, field } => {
                let passed = match payload.get_pubkey(*field) {
                    Some(k) => pubkey_eq(&k, pubkey),
                    None => false,
                };
                (passed, RuleSetError::PubkeyMatchCheckFailed)
            },
            Rule::DerivedKeyMatch { account, field } => {
                let passed = match payload.get_seeds(*field) {
                    Some(s) => assert_derivation(program_id, account, &s.seeds).is_ok(),
                    None => false,
                };
                (passed, RuleSetError::DerivedKeyMatchCheckFailed)
            },
            Rule::ProgramOwned { program, field } => {
                let passed = match payload.get_pubkey(*field) {
                    Some(k) => match accounts.get(&k) {
                        Some(a) => pubkey_eq(&a.owner, program),
                        None => false,
                    },
                    None => false,
                };
                (passed, RuleSetError::ProgramOwnedCheckFailed)
            },
            Rule::Amount { amount } => {
                let passed = match &payload.amount {
                    Some(a) => *a == *amount,
                    None => false,
                };
                (passed, RuleSetError::AmountCheckFailed)
            },
            Rule::Frequency { freq_name: _, freq_account } => {
                match accounts.get(freq_account) {
                    None => (false, RuleSetError::FrequencyCheckFailed),
                    Some(a) => match now {
                        None => (false, RuleSetError::FrequencyCheckFailed),
                        Some(t) => match &a.frequency {
                            None => (false, RuleSetError::FrequencyCheckFailed),
                            Some(f) => match frequency_gate(f.last_update, f.period, t) {
                                GateOutcome::Pass => (true, RuleSetError::FrequencyCheckFailed),
                                GateOutcome::Fail => (false, RuleSetError::FrequencyCheckFailed),
                                GateOutcome::Overflow => (
                                    false,
                                    RuleSetError::NumericalOverflow,
                                ),
                            },
                        },
                    },
                }
            },
            Rule::PubkeyTreeMatch { root, field } => {
                let passed = match payload.get_merkle_proof(*field) {
                    Some(li) => {
                        let computed = compute_merkle_root(&li.leaf, &li.proof);
                        bytes32_eq(&computed, root)
                    },
                    None => false,
                };
                (passed, RuleSetError::PubkeyTreeMatchCheckFailed)
            },
        }
    }

    /// Evaluate this tree against an already-normalized payload at the time
    /// the external clock reports. The clock is environmental, so the result
    /// is pinned down for some current time, not a specific one.
    pub fn ll_validate(
        &self,
        program_id: &Pubkey,
        accounts: &Accounts,
        payload: &ParsedPayload,
    ) -> (r: (bool, RuleSetError))
        ensures
            exists|now: Option<u64>|
                r == eval(*self, program_id@, accounts.entries@, *payload, now),
    {
        let now = current_time();
        self.ll_validate_at(program_id, accounts, payload, now)
    }

    /// Decide whether this tree permits the action described by the supplied
    /// payload fields and accounts: success when the tree is satisfied,
    /// otherwise the error identity of the sub-rule that caused denial.
    pub fn validate(
        &self,
        program_id: &Pubkey,
        accounts: &Accounts,
        payload: Vec<PayloadField>,
    ) -> (r: Result<(), RuleSetError>)
        ensures
            exists|now: Option<u64>|
                r == spec_validate(*self, program_id@, accounts.entries@, payload@, now),
    {
        let parsed = ParsedPayload::from_fields(payload);
        let res = self.ll_validate(program_id, accounts, &parsed);
        let ghost now = choose|now: Option<u64>|
            res == eval(*self, program_id@, accounts.entries@, parsed, now);
        if res.0 {
            proof {
                assert(Ok::<(), RuleSetError>(()) == spec_validate(
                    *self,
                    program_id@,
                    accounts.entries@,
                    payload@,
                    now,
                ));
            }
            Ok(())
        } else {
            proof {
                assert(Err::<(), RuleSetError>(res.1) == spec_validate(
                    *self,
                    program_id@,
                    accounts.entries@,
                    payload@,
                    now,
                ));
            }
            Err(res.1)
        }
    }

    /// The structural pre-flight pass, independent of any payload or account
    /// set: confirm that every rate-limit leaf references the identifier
    /// derived for its `(payer, rule-set name, leaf name)` triple.
    #[verifier::loop_isolation(false)]
    pub fn assert_rule_pda_derivations(
        &self,
        program_id: &Pubkey,
        payer: &Pubkey,
        rule_set_name: &String,
    ) -> (r: Result<(), RuleSetError>)
        ensures
            r == spec_pda_check(*self, program_id@, payer@, rule_set_name@),
        decreases *self,
    {
        match self {
            Rule::All { rules } => {
                let mut i: usize = 0;
                while i < rules.len()
                    invariant
                        i <= rules.len(),
                        spec_pda_check(*self, program_id@, payer@, rule_set_name@)
                            == spec_pda_check_all(
                            rules@,
                            i as int,
                            program_id@,
                            payer@,
                            rule_set_name@,
                        ),
                    decreases rules.len() - i,
                {
                    proof {
                        assert(decreases_to!(*self => rules@[i as int]));
                    }
                    let child = &rules[i];
                    match child.assert_rule_pda_derivations(program_id, payer, rule_set_name) {
                        Ok(_) => {},
                        Err(e) => {
                            return Err(e);
                        },
                    }
                    i += 1;
                }
                Ok(())
            },
            Rule::Any { rules } => {
                let mut i: usize = 0;
                while i < rules.len()
                    invariant
                        i <= rules.len(),
                        spec_pda_check(*self, program_id@, payer@, rule_set_name@)
                            == spec_pda_check_any(
                            rules@,
                            i as int,
                            program_id@,
                            payer@,
                            rule_set_name@,
                        ),
                    decreases rules.len() - i,
                {
                    proof {
                        assert(decreases_to!(*self => rules@[i as int]));
                    }
                    let child = &rules[i];
                    match child.assert_rule_pda_derivations(program_id, payer, rule_set_name) {
                        Ok(_) => {
                            return Ok(());
                        },
                        Err(_) => {},
                    }
                    i += 1;
                }
                Err(RuleSetError::DataTypeMismatch)
            },
            Rule::Frequency { freq_name, freq_account } => {
                let mut seeds: Vec<Vec<u8>> = Vec::new();
                seeds.push(slice_to_vec("frequency".as_bytes()));
                seeds.push(slice_to_vec(payer.0.as_slice()));
                seeds.push(rule_set_name.as_str().as_bytes_vec());
                seeds.push(freq_name.as_str().as_bytes_vec());
                proof {
                    assert(seeds.deep_view() =~~= frequency_seeds(
                        payer@,
                        rule_set_name@,
                        freq_name@,
                    ));
                }
                match assert_derivation(program_id, freq_account, &seeds) {
                    Ok(_) => Ok(()),
                    Err(e) => Err(e),
                }
            },
            _ => Ok(()),
        }
    }
}

/// Whether a tree consults the clock at all: true exactly when it has no
/// rate-limit leaf.
pub open spec fn clock_free(r: Rule) -> bool
    decreases r, 0int,
{
    match r {
        Rule::All { rules } => clock_free_list(rules@, 0),
        Rule::Any { rules } => clock_free_list(rules@, 0),
        Rule::Not { rule } => clock_free(*rule),
        Rule::Frequency { .. } => false,
        _ => true,
    }
}

/// Whether every child from `i` on is free of rate-limit leaves.
pub open spec fn clock_free_list(rules: Seq<Rule>, i: int) -> bool
    decreases rules, rules.len() - i,
{
    if i < 0 || i >= rules.len() {
        true
    } else {
        clock_free(rules[i]) && clock_free_list(rules, i + 1)
    }
}

/// A tree without rate-limit leaves evaluates independently of the clock:
/// its result is the same at any two times, available or not.
pub proof fn lemma_clock_free_time_independent(
    r: Rule,
    program: Seq<u8>,
    accounts: Seq<AccountEntry>,
    payload: ParsedPayload,
    now1: Option<u64>,
    now2: Option<u64>,
)
    requires
        clock_free(r),
    ensures
        eval(r, program, accounts, payload, now1) == eval(r, program, accounts, payload, now2),
    decreases r, 0int,
{
    match r {
        Rule::All { rules } => {
            lemma_clock_free_all(
                rules@,
                0,
                RuleSetError::NotImplemented,
                program,
                accounts,
                payload,
                now1,
                now2,
            );
        },
        Rule::Any { rules } => {
            lemma_clock_free_any(
                rules@,
                0,
                RuleSetError::NotImplemented,
                program,
                accounts,
                payload,
                now1,
                now2,
            );
        },
        Rule::Not { rule } => {
            lemma_clock_free_time_independent(*rule, program, accounts, payload, now1, now2);
        },
        _ => {},
    }
}

/// Conjunction counterpart of the time-independence law, from child `i` on.
proof fn lemma_clock_free_all(
    rules: Seq<Rule>,
    i: int,
    last: RuleSetError,
    program: Seq<u8>,
    accounts: Seq<AccountEntry>,
    payload: ParsedPayload,
    now1: Option<u64>,
    now2: Option<u64>,
)
    requires
        0 <= i <= rules.len(),
        clock_free_list(rules, i),
    ensures
        eval_all(rules, i, last, program, accounts, payload, now1) == eval_all(
            rules,
            i,
            last,
            program,
            accounts,
            payload,
            now2,
        ),
    decreases rules, rules.len() - i,
{
    if i < rules.len() {
        lemma_clock_free_time_independent(rules[i], program, accounts, payload, now1, now2);
        lemma_clock_free_all(
            rules,
            i + 1,
            spec_to_error(rules[i]),
            program,
            accounts,
            payload,
            now1,
            now2,
        );
    }
}

/// Disjunction counterpart of the time-independence law, from child `i` on.
proof fn lemma_clock_free_any(
    rules: Seq<Rule>,
    i: int,
    last: RuleSetError,
    program: Seq<u8>,
    accounts: Seq<AccountEntry>,
    payload: ParsedPayload,
    now1: Option<u64>,
    now2: Option<u64>,
)
    requires
        0 <= i <= rules.len(),
        clock_free_list(rules, i),
    ensures
        eval_any(rules, i, last, program, accounts, payload, now1) == eval_any(
            rules,
            i,
            last,
            program,
            accounts,
            payload,
            now2,
        ),
    decreases rules, rules.len() - i,
{
    if i < rules.len() {
        lemma_clock_free_time_independent(rules[i], program, accounts, payload, now1, now2);
        lemma_clock_free_any(
            rules,
            i + 1,
            spec_to_error(rules[i]),
            program,
            accounts,
            payload,
            now1,
            now2,
        );
    }
}

/// An empty conjunction is vacuously true and an empty disjunction vacuously
/// false, whatever the accounts, payload and time.
pub proof fn lemma_empty_composites(
    r_all: Rule,
    r_any: Rule,
    program: Seq<u8>,
    accounts: Seq<AccountEntry>,
    payload: ParsedPayload,
    now: Option<u64>,
)
    requires
        r_all matches Rule::All { rules } && rules@.len() == 0,
        r_any matches Rule::Any { rules } && rules@.len() == 0,
    ensures
        eval(r_all, program, accounts, payload, now).0,
        !eval(r_any, program, accounts, payload, now).0,
{
    assert(eval(r_all, program, accounts, payload, now) == eval_all(
        r_all->All_rules@,
        0,
        RuleSetError::NotImplemented,
        program,
        accounts,
        payload,
        now,
    ));
    assert(eval_all(
        r_all->All_rules@,
        0,
        RuleSetError::NotImplemented,
        program,
        accounts,
        payload,
        now,
    ) == (true, RuleSetError::NotImplemented));
    assert(eval(r_any, program, accounts, payload, now) == eval_any(
        r_any->Any_rules@,
        0,
        RuleSetError::NotImplemented,
        program,
        accounts,
        payload,
        now,
    ));
    assert(eval_any(
        r_any->Any_rules@,
        0,
        RuleSetError::NotImplemented,
        program,
        accounts,
        payload,
        now,
    ) == (false, RuleSetError::NotImplemented));
}

/// A conjunction decides on its first failing child: its result is that
/// child's result, and nothing after that child is consulted.
pub proof fn lemma_all_short_circuit(
    r: Rule,
    program: Seq<u8>,
    accounts: Seq<AccountEntry>,
    payload: ParsedPayload,
    now: Option<u64>,
)
    requires
        r matches Rule::All { rules } && rules@.len() > 0 && !eval(
            rules@[0],
            program,
            accounts,
            payload,
            now,
        ).0,
    ensures
        eval(r, program, accounts, payload, now) == eval(
            (r->All_rules)@[0],
            program,
            accounts,
            payload,
            now,
        ),
{
    assert(eval(r, program, accounts, payload, now) == eval_all(
        r->All_rules@,
        0,
        RuleSetError::NotImplemented,
        program,
        accounts,
        payload,
        now,
    ));
    assert(eval_all(
        r->All_rules@,
        0,
        RuleSetError::NotImplemented,
        program,
        accounts,
        payload,
        now,
    ) == eval((r->All_rules)@[0], program, accounts, payload, now));
}

/// Double negation is the identity: wrapping a rule in two negations
/// evaluates exactly as the rule itself, on any input.
pub proof fn lemma_double_negation(
    r: Rule,
    program: Seq<u8>,
    accounts: Seq<AccountEntry>,
    payload: ParsedPayload,
    now: Option<u64>,
)
    requires
        r matches Rule::Not { rule } && *rule matches Rule::Not { rule: inner },
    ensures
        eval(r, program, accounts, payload, now) == eval(
            *(r->Not_rule)->Not_rule,
            program,
            accounts,
            payload,
            now,
        ),
{
    let mid = eval(*r->Not_rule, program, accounts, payload, now);
    let res = eval(*(r->Not_rule)->Not_rule, program, accounts, payload, now);
    assert(eval(r, program, accounts, payload, now) == (!mid.0, mid.1));
    assert(mid == (!res.0, res.1));
    assert((res.0, res.1) == res);
}

/// The identifier-match predicate holds exactly when the selected payload
/// slot carries that identifier; an empty slot never passes.
pub proof fn lemma_pubkey_match(
    r: Rule,
    program: Seq<u8>,
    accounts: Seq<AccountEntry>,
    payload: ParsedPayload,
    now: Option<u64>,
)
    requires
        r matches Rule::PubkeyMatch { pubkey, field },
    ensures
        eval(r, program, accounts, payload, now).0 == (spec_get_pubkey(
            payload,
            r->PubkeyMatch_field,
        ) matches Some(k) && k@ == r->PubkeyMatch_pubkey@),
        spec_get_pubkey(payload, r->PubkeyMatch_field) is None ==> !eval(
            r,
            program,
            accounts,
            payload,
            now,
        ).0,
{
}

/// The amount predicate holds exactly when the payload carries that amount;
/// in particular an absent amount never passes, even against zero.
pub proof fn lemma_amount(
    r: Rule,
    program: Seq<u8>,
    accounts: Seq<AccountEntry>,
    payload: ParsedPayload,
    now: Option<u64>,
)
    requires
        r matches Rule::Amount { amount },
    ensures
        eval(r, program, accounts, payload, now).0 == (payload.amount == Some(
            r->Amount_amount,
        )),
        payload.amount is None ==> !eval(r, program, accounts, payload, now).0,
{
}

/// Pre-flight over a disjunction's children from `i` on succeeds exactly
/// when some remaining child passes; with none, it yields the
/// structural-mismatch identity.
proof fn lemma_pda_any_from(
    rules: Seq<Rule>,
    i: int,
    program: Seq<u8>,
    payer: Seq<u8>,
    rule_set_name: Seq<char>,
)
    requires
        0 <= i <= rules.len(),
    ensures
        spec_pda_check_any(rules, i, program, payer, rule_set_name) == (
        if exists|j: int|
            i <= j < rules.len() && spec_pda_check(rules[j], program, payer, rule_set_name) is Ok {
            Ok::<(), RuleSetError>(())
        } else {
            Err::<(), RuleSetError>(RuleSetError::DataTypeMismatch)
        }),
    decreases rules.len() - i,
{
    if i < rules.len() {
        lemma_pda_any_from(rules, i + 1, program, payer, rule_set_name);
        if spec_pda_check(rules[i], program, payer, rule_set_name) is Ok {
            assert(exists|j: int|
                i <= j < rules.len() && spec_pda_check(
                    rules[j],
                    program,
                    payer,
                    rule_set_name,
                ) is Ok) by {
                assert(spec_pda_check(rules[i], program, payer, rule_set_name) is Ok);
            }
        }
    }
}

/// On a disjunction the structural pre-flight succeeds exactly when some
/// child passes; when no child does, it surfaces the structural-mismatch
/// identity, not any child's own error.
pub proof fn lemma_pda_any(
    r: Rule,
    program: Seq<u8>,
    payer: Seq<u8>,
    rule_set_name: Seq<char>,
)
    requires
        r matches Rule::Any { rules },
    ensures
        spec_pda_check(r, program, payer, rule_set_name) == (
        if exists|j: int|
            0 <= j < r->Any_rules@.len() && spec_pda_check(
                r->Any_rules@[j],
                program,
                payer,
                rule_set_name,
            ) is Ok {
            Ok::<(), RuleSetError>(())
        } else {
            Err::<(), RuleSetError>(RuleSetError::DataTypeMismatch)
        }),
{
    lemma_pda_any_from(r->Any_rules@, 0, program, payer, rule_set_name);
}

} // verus!
