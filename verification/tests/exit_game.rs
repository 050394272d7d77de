use std::cell::RefCell;

use plasma_exit::exit::{
    exit_checkpoint_challenge_label, exit_claim_label, exit_spent_challenge_label, ChallengeKind,
    ChallengeValidation, ClaimRequest, Decision, DecideQuery, ExitError, ExitEvent, InclusionQuery,
    Module,
};
use plasma_exit::hashing::hash_of_bytes;
use plasma_exit::types::{encode_property, encode_state_update, encode_transaction, Property, Range, StateUpdate, Transaction, H256};

const PLAPPS: [u8; 32] = [0x11; 32];
const TOKEN: [u8; 32] = [0x22; 32];
const PREDICATE: [u8; 32] = [0x33; 32];
const MODULE: [u8; 32] = [0xaa; 32];

fn su(start: u128, end: u128, block: u32, state_inputs: Vec<Vec<u8>>) -> StateUpdate {
    StateUpdate {
        deposit_contract_address: TOKEN,
        range: Range { start, end },
        block_number: block,
        state_object: Property { predicate_address: PREDICATE, inputs: state_inputs },
    }
}

fn blake2(data: &[u8]) -> [u8; 32] {
    <sp_core::Blake2Hasher as sp_core::Hasher>::hash(data).0
}

fn module() -> Module {
    Module { address: MODULE }
}

fn claim_property(bytes: &[u8]) -> Property {
    Property { predicate_address: MODULE, inputs: vec![b"EXIT_CLAIM".to_vec(), bytes.to_vec()] }
}

/// Runs an exit claim step by step, asking the given functions.
fn run_claim(
    m: &Module,
    plapps: &[u8; 32],
    inputs: &Vec<Vec<u8>>,
    witness: &Vec<Vec<u8>>,
    finalized: impl Fn(&[u8; 32], &[u8; 32]) -> bool,
    decodes: impl Fn(&Vec<u8>) -> bool,
    root: impl Fn(&[u8; 32], &Vec<u8>) -> Vec<u8>,
    verify: impl Fn(&InclusionQuery) -> bool,
    claim: impl FnOnce(&Property) -> Result<(), ExitError>,
) -> Result<ExitEvent, ExitError> {
    let c = m.bare_exit_claim(plapps, inputs, witness)?;
    let c = match c.request.clone() {
        ClaimRequest::Finalized { plapps_id, checkpoint_id } => {
            let answer = finalized(&plapps_id, &checkpoint_id);
            Module::exit_claim_after_finalized(c, answer)?
        },
        ClaimRequest::DecodeProof { plapps_id, block_key } => {
            let answer = decodes(&c.inclusion_proof);
            let c = Module::exit_claim_after_proof(c, answer)?;
            let stored = root(&plapps_id, &block_key);
            let q = Module::exit_claim_inclusion_query(&c, &stored);
            let answer = verify(&q);
            Module::exit_claim_after_inclusion(c, answer)?
        },
        _ => unreachable!(),
    };
    let answer = claim(&c.property);
    Module::exit_claim_after_claim(c, answer)
}

/// Runs a challenge step by step; the events reported along the way are
/// pushed on `events`.
fn run_challenge(
    m: &Module,
    inputs: &Vec<Vec<u8>>,
    challenge_inputs: &Vec<Vec<u8>>,
    witness: &Vec<Vec<u8>>,
    decide: impl Fn(&DecideQuery) -> bool,
    validate: impl Fn(&Vec<Vec<u8>>, &Vec<Vec<u8>>, &Vec<Vec<u8>>) -> Result<(), ExitError>,
    started: impl Fn(&[u8; 32]) -> bool,
    challenge: impl FnOnce(&Property, &Property) -> Result<(), ExitError>,
    events: &RefCell<Vec<ExitEvent>>,
) -> Result<(), ExitError> {
    let v = m.bare_exit_challenge(inputs, challenge_inputs, witness)?;
    let ready = match v.clone() {
        ChallengeValidation::Decide { query, .. } => {
            let answer = decide(&query);
            Module::exit_challenge_decided(v, answer)?
        },
        ChallengeValidation::ValidateCheckpoint { inputs, challenge_inputs, witness, .. } => {
            let answer = validate(&inputs, &challenge_inputs, &witness);
            Module::exit_challenge_validated(v, answer)?
        },
    };
    events.borrow_mut().push(ready.event.clone());
    let answer = started(&ready.claim_id);
    let ready = Module::exit_challenge_after_started(ready, answer)?;
    challenge(&ready.claimed, &ready.challenge_property)
}

/// Runs a settlement step by step.
fn run_settle(
    m: &Module,
    inputs: &Vec<Vec<u8>>,
    settle: impl FnOnce(&Property) -> Result<Decision, ExitError>,
) -> Result<ExitEvent, ExitError> {
    let p = m.bare_exit_settle(inputs)?;
    let answer = settle(&p);
    Module::exit_settle_after_settle(inputs, answer)
}

#[test]
fn ranges() {
    let a = Range { start: 10, end: 20 };
    let b = Range { start: 0, end: 30 };
    assert!(Module::is_subrange(&a, &b));
    assert!(!Module::is_subrange(&b, &a));
    assert!(Module::is_subrange(&a, &a));
    assert!(Module::has_intersection(&a, &b));
    assert!(Module::has_intersection(&Range { start: 5, end: 11 }, &a));
    assert!(!Module::has_intersection(&Range { start: 20, end: 25 }, &a));
    assert!(!Module::has_intersection(&Range { start: 15, end: 15 }, &a));
}

#[test]
fn labels_are_their_names() {
    assert_eq!(exit_claim_label(), b"EXIT_CLAIM".to_vec());
    assert_eq!(exit_spent_challenge_label(), b"EXIT_SPENT_CHALLENGE".to_vec());
    assert_eq!(exit_checkpoint_challenge_label(), b"EXIT_CHECKPOINT_CHALLENGE".to_vec());
}

#[test]
fn ids_are_blake2_of_scale_bytes() {
    let s = su(1, 2, 3, vec![vec![4]]);
    assert_eq!(Module::get_id(&s), blake2(&encode_state_update(&s)));
    let p = claim_property(&[1, 2]);
    assert_eq!(Module::get_property_id(&p), blake2(&encode_property(&p)));
    assert_eq!(hash_of_bytes(b"abc"), blake2(&[12, b'a', b'b', b'c']));
    assert_ne!(hash_of_bytes(b"abc"), *b"\x0cabc\0\0\0\0\0\0\0\0\0\0\0\0\0\0\0\0\0\0\0\0\0\0\0\0\0\0\0\0");
    // Blake2b-256 of nothing.
    let empty: H256 = blake2(&[]);
    assert_eq!(empty[..4], [0x0e, 0x57, 0x51, 0xc0]);
}

#[test]
fn create_property_and_root_padding() {
    let m = module();
    assert_eq!(m.create_property(&[9, 9], b"L"), Property { predicate_address: MODULE, inputs: vec![b"L".to_vec(), vec![9, 9]] });
    let mut expect = [0u8; 32];
    expect[0] = 5;
    expect[1] = 6;
    assert_eq!(Module::bytes_to_bytes32(&[5, 6]), expect);
    let long: Vec<u8> = (0..40).collect();
    assert_eq!(Module::bytes_to_bytes32(&long).to_vec(), long[..32].to_vec());
}

#[test]
fn checkpoint_exitable_refusals_in_order() {
    let exiting = su(10, 20, 5, vec![vec![1]]);
    let checkpoint = su(0, 30, 5, vec![vec![2]]);
    assert_eq!(Module::checkpoint_exitable(&exiting, &checkpoint), Some(Module::get_id(&checkpoint)));
    assert_eq!(Module::checkpoint_exitable(&su(10, 40, 5, vec![]), &checkpoint), None);
    assert_eq!(Module::checkpoint_exitable(&su(10, 40, 6, vec![]), &checkpoint), None);
    assert_eq!(Module::checkpoint_exitable(&su(10, 20, 6, vec![]), &checkpoint), None);
}

#[test]
fn exit_claim_with_checkpoint() {
    let m = module();
    let exiting = su(10, 20, 5, vec![vec![1]]);
    let checkpoint = su(0, 30, 5, vec![vec![2]]);
    let inputs = vec![encode_state_update(&exiting), encode_state_update(&checkpoint)];
    let claimed = RefCell::new(None);
    let res = run_claim(
        &m,
        &PLAPPS,
        &inputs,
        &vec![],
        |_: &[u8; 32], h: &[u8; 32]| *h == Module::get_id(&su(0, 30, 5, vec![vec![2]])),
        |_: &Vec<u8>| true,
        |_: &[u8; 32], _: &Vec<u8>| panic!("no root is read on the checkpoint path"),
        |_: &InclusionQuery| panic!("no inclusion is verified on the checkpoint path"),
        |p: &Property| {
            *claimed.borrow_mut() = Some(p.clone());
            Ok(())
        },
    );
    assert_eq!(res, Ok(ExitEvent::ExitClaimed(exiting.clone())));
    assert_eq!(claimed.borrow().clone(), Some(claim_property(&inputs[0])));

    let res = run_claim(
        &m,
        &PLAPPS,
        &inputs,
        &vec![],
        |_: &[u8; 32], _: &[u8; 32]| false,
        |_: &Vec<u8>| true,
        |_: &[u8; 32], _: &Vec<u8>| vec![],
        |_: &InclusionQuery| true,
        |_: &Property| -> Result<(), ExitError> { panic!("no claim is filed") },
    );
    assert_eq!(res, Err(ExitError::CheckpointNotExitable));

    let res = run_claim(
        &m,
        &PLAPPS,
        &inputs,
        &vec![],
        |_: &[u8; 32], _: &[u8; 32]| true,
        |_: &Vec<u8>| true,
        |_: &[u8; 32], _: &Vec<u8>| vec![],
        |_: &InclusionQuery| true,
        |_: &Property| Err(ExitError::Dispute("already claimed".to_string())),
    );
    assert_eq!(res, Err(ExitError::Dispute("already claimed".to_string())));

    let bad = vec![encode_state_update(&exiting), vec![1, 2, 3]];
    let res = run_claim(
        &m,
        &PLAPPS,
        &bad,
        &vec![],
        |_: &[u8; 32], _: &[u8; 32]| true,
        |_: &Vec<u8>| true,
        |_: &[u8; 32], _: &Vec<u8>| vec![],
        |_: &InclusionQuery| true,
        |_: &Property| Ok(()),
    );
    assert_eq!(res, Err(ExitError::DecodeError));
}

#[test]
fn exit_claim_with_inclusion_proof() {
    let m = module();
    let exiting = su(10, 20, 0x0102_0304, vec![vec![1]]);
    let inputs = vec![encode_state_update(&exiting)];
    let witness = vec![vec![0xde, 0xad]];
    let asked_root = RefCell::new(None);
    let query = RefCell::new(None);
    let res = run_claim(
        &m,
        &PLAPPS,
        &inputs,
        &witness,
        |_: &[u8; 32], _: &[u8; 32]| false,
        |_: &Vec<u8>| true,
        |p: &[u8; 32], k: &Vec<u8>| {
            *asked_root.borrow_mut() = Some((*p, k.clone()));
            vec![0x77; 32]
        },
        |q: &InclusionQuery| {
            *query.borrow_mut() = Some(q.clone());
            true
        },
        |_: &Property| Ok(()),
    );
    assert_eq!(res, Ok(ExitEvent::ExitClaimed(exiting.clone())));
    assert_eq!(asked_root.borrow().clone(), Some((PLAPPS, vec![4, 3, 2, 1])));
    let q = query.borrow().clone().unwrap();
    assert_eq!(q.leaf, blake2(&encode_property(&exiting.state_object)));
    assert_eq!(q.token, TOKEN);
    assert_eq!(q.range, Range { start: 10, end: 20 });
    assert_eq!(q.inclusion_proof, vec![0xde, 0xad]);
    assert_eq!(q.root, [0x77; 32]);

    let res = run_claim(
        &m,
        &PLAPPS,
        &inputs,
        &witness,
        |_: &[u8; 32], _: &[u8; 32]| true,
        |_: &Vec<u8>| true,
        |_: &[u8; 32], _: &Vec<u8>| vec![],
        |_: &InclusionQuery| false,
        |_: &Property| Ok(()),
    );
    assert_eq!(res, Err(ExitError::InclusionVerificationFailed));
}

#[test]
fn exit_claim_input_errors() {
    let m = module();
    let res = run_claim(
        &m,
        &PLAPPS,
        &vec![],
        &vec![],
        |_: &[u8; 32], _: &[u8; 32]| true,
        |_: &Vec<u8>| true,
        |_: &[u8; 32], _: &Vec<u8>| vec![],
        |_: &InclusionQuery| true,
        |_: &Property| Ok(()),
    );
    assert_eq!(res, Err(ExitError::InputsTooShort));
    let res = run_claim(
        &m,
        &PLAPPS,
        &vec![vec![0; 10]],
        &vec![],
        |_: &[u8; 32], _: &[u8; 32]| true,
        |_: &Vec<u8>| true,
        |_: &[u8; 32], _: &Vec<u8>| vec![],
        |_: &InclusionQuery| true,
        |_: &Property| Ok(()),
    );
    assert_eq!(res, Err(ExitError::DecodeError));
}

fn tx(start: u128, end: u128, max_block: u32, token: [u8; 32]) -> Transaction {
    Transaction {
        deposit_contract_address: token,
        range: Range { start, end },
        max_block_number: max_block,
        next_state_object: Property { predicate_address: [0x44; 32], inputs: vec![vec![8]] },
    }
}

#[test]
fn spent_challenge_validation() {
    let exiting = su(10, 20, 5, vec![b"owner".to_vec()]);
    let inputs = vec![encode_state_update(&exiting)];
    let witness = vec![b"signature".to_vec()];
    let spend = encode_transaction(&tx(15, 25, 5, TOKEN));
    assert_eq!(
        Module::validate_spent_challenge(&inputs, &vec![spend.clone()], &witness),
        Ok(DecideQuery { predicate_address: PREDICATE, inputs: vec![b"owner".to_vec(), spend.clone()], witness: witness.clone() })
    );
    let other = encode_transaction(&tx(15, 25, 5, [0x99; 32]));
    assert_eq!(Module::validate_spent_challenge(&inputs, &vec![other], &witness), Err(ExitError::TokenMismatch));
    let apart = encode_transaction(&tx(20, 25, 5, TOKEN));
    assert_eq!(Module::validate_spent_challenge(&inputs, &vec![apart], &witness), Err(ExitError::NoIntersection));
    let early = encode_transaction(&tx(15, 25, 4, TOKEN));
    assert_eq!(Module::validate_spent_challenge(&inputs, &vec![early], &witness), Err(ExitError::InvalidBlockNumber));
    assert_eq!(Module::validate_spent_challenge(&inputs, &vec![vec![1]], &witness), Err(ExitError::DecodeError));
    assert_eq!(Module::validate_spent_challenge(&vec![vec![1]], &vec![spend], &witness), Err(ExitError::DecodeError));
}

#[test]
fn challenge_kinds_by_hash() {
    let a = [1u8; 32];
    let b = [2u8; 32];
    let c = [3u8; 32];
    assert_eq!(Module::challenge_kind(&a, &a, &b), ChallengeKind::Spent);
    assert_eq!(Module::challenge_kind(&b, &a, &b), ChallengeKind::Checkpoint);
    assert_eq!(Module::challenge_kind(&c, &a, &b), ChallengeKind::Illegal);
    // Were the two label hashes the same, the spent kind would win.
    assert_eq!(Module::challenge_kind(&a, &a, &a), ChallengeKind::Spent);
    assert_eq!(Module::label_kind(b"EXIT_SPENT_CHALLENGE"), ChallengeKind::Spent);
    assert_eq!(Module::label_kind(b"EXIT_CHECKPOINT_CHALLENGE"), ChallengeKind::Checkpoint);
    assert_eq!(Module::label_kind(b"EXIT_CLAIM"), ChallengeKind::Illegal);
}

fn no_decide(_: &DecideQuery) -> bool {
    panic!("the predicate is not asked")
}

fn no_validate(_: &Vec<Vec<u8>>, _: &Vec<Vec<u8>>, _: &Vec<Vec<u8>>) -> Result<(), ExitError> {
    panic!("the validator is not asked")
}

fn no_started(_: &[u8; 32]) -> bool {
    panic!("the dispute manager is not asked")
}

fn no_challenge(_: &Property, _: &Property) -> Result<(), ExitError> {
    panic!("no challenge is filed")
}

#[test]
fn spent_challenge_of_a_started_claim() {
    let m = module();
    let exiting = su(10, 20, 5, vec![b"owner".to_vec()]);
    let inputs = vec![encode_state_update(&exiting)];
    let spend = encode_transaction(&tx(15, 25, 6, TOKEN));
    let challenge_inputs = vec![exit_spent_challenge_label(), spend.clone()];
    let witness = vec![b"signature".to_vec()];
    let claim_id = Module::get_property_id(&claim_property(&inputs[0]));
    let handed = RefCell::new(None);
    let events = RefCell::new(Vec::new());
    let res = run_challenge(
        &m,
        &inputs,
        &challenge_inputs,
        &witness,
        |_: &DecideQuery| true,
        no_validate,
        |h: &[u8; 32]| *h == claim_id,
        |a: &Property, b: &Property| {
            *handed.borrow_mut() = Some((a.clone(), b.clone()));
            Ok(())
        },
        &events,
    );
    assert_eq!(res, Ok(()));
    assert_eq!(events.borrow().clone(), vec![ExitEvent::ExitSpentChallenged(exiting.clone())]);
    let (a, b) = handed.borrow().clone().unwrap();
    assert_eq!(a, claim_property(&inputs[0]));
    assert_eq!(b, Property { predicate_address: MODULE, inputs: vec![b"EXIT_SPENT_CHALLENGE".to_vec(), b"EXIT_SPENT_CHALLENGE".to_vec()] });

    // No claim: refused, and no challenge is filed; the event was reported before.
    let events = RefCell::new(Vec::new());
    let res = run_challenge(&m, &inputs, &challenge_inputs, &witness, |_: &DecideQuery| true, no_validate, |_: &[u8; 32]| false, no_challenge, &events);
    assert_eq!(res, Err(ExitError::ClaimNotFound));
    assert_eq!(events.borrow().len(), 1);

    // The predicate's refusal comes before the missing claim; nothing further is asked.
    let events = RefCell::new(Vec::new());
    let res = run_challenge(&m, &inputs, &challenge_inputs, &witness, |_: &DecideQuery| false, no_validate, no_started, no_challenge, &events);
    assert_eq!(res, Err(ExitError::DecidedFalse));
    assert!(events.borrow().is_empty());

    // The dispute manager's refusal is passed on.
    let res = run_challenge(
        &m,
        &inputs,
        &challenge_inputs,
        &witness,
        |_: &DecideQuery| true,
        no_validate,
        |_: &[u8; 32]| true,
        |_: &Property, _: &Property| Err(ExitError::Dispute("already challenged".to_string())),
        &RefCell::new(Vec::new()),
    );
    assert_eq!(res, Err(ExitError::Dispute("already challenged".to_string())));
}

#[test]
fn checkpoint_challenge_of_a_started_claim() {
    let m = module();
    let exiting = su(10, 20, 5, vec![b"owner".to_vec()]);
    let earlier = su(0, 30, 3, vec![b"older".to_vec()]);
    let inputs = vec![encode_state_update(&exiting)];
    let challenge_inputs = vec![exit_checkpoint_challenge_label(), encode_state_update(&earlier)];
    for witness in [vec![], vec![b"proof".to_vec()]] {
        let validated = RefCell::new(None);
        let handed = RefCell::new(None);
        let events = RefCell::new(Vec::new());
        let res = run_challenge(
            &m,
            &inputs,
            &challenge_inputs,
            &witness,
            no_decide,
            |a: &Vec<Vec<u8>>, c: &Vec<Vec<u8>>, w: &Vec<Vec<u8>>| {
                *validated.borrow_mut() = Some((a.clone(), c.clone(), w.clone()));
                Ok(())
            },
            |_: &[u8; 32]| true,
            |a: &Property, b: &Property| {
                *handed.borrow_mut() = Some((a.clone(), b.clone()));
                Ok(())
            },
            &events,
        );
        assert_eq!(res, Ok(()));
        assert_eq!(events.borrow().clone(), vec![ExitEvent::ExitCheckpointChallenged(exiting.clone(), earlier.clone())]);
        assert_eq!(validated.borrow().clone(), Some((inputs.clone(), vec![challenge_inputs[1].clone()], witness.clone())));
        let (a, b) = handed.borrow().clone().unwrap();
        assert_eq!(a, claim_property(&inputs[0]));
        assert_eq!(b, Property { predicate_address: MODULE, inputs: vec![b"EXIT_CHECKPOINT_CHALLENGE".to_vec(), challenge_inputs[1].clone()] });
    }

    let res = run_challenge(
        &m,
        &inputs,
        &challenge_inputs,
        &vec![],
        no_decide,
        |_: &Vec<Vec<u8>>, _: &Vec<Vec<u8>>, _: &Vec<Vec<u8>>| Err(ExitError::Dispute("BlockNumber must be smaller".to_string())),
        no_started,
        no_challenge,
        &RefCell::new(Vec::new()),
    );
    assert_eq!(res, Err(ExitError::Dispute("BlockNumber must be smaller".to_string())));

    let undecodable = vec![exit_checkpoint_challenge_label(), vec![1, 2]];
    let res = run_challenge(&m, &inputs, &undecodable, &vec![], no_decide, |_: &Vec<Vec<u8>>, _: &Vec<Vec<u8>>, _: &Vec<Vec<u8>>| Ok(()), no_started, no_challenge, &RefCell::new(Vec::new()));
    assert_eq!(res, Err(ExitError::DecodeError));

    // Two witnesses are too many even for a checkpoint challenge.
    let res = run_challenge(&m, &inputs, &challenge_inputs, &vec![vec![], vec![]], no_decide, no_validate, no_started, no_challenge, &RefCell::new(Vec::new()));
    assert_eq!(res, Err(ExitError::WitnessLength));
}

#[test]
fn challenge_input_errors_ask_nothing() {
    let m = module();
    let inputs = vec![encode_state_update(&su(10, 20, 5, vec![vec![1]]))];
    let call = |i: &Vec<Vec<u8>>, c: &Vec<Vec<u8>>, w: &Vec<Vec<u8>>| {
        run_challenge(&m, i, c, w, no_decide, no_validate, no_started, no_challenge, &RefCell::new(Vec::new()))
    };
    let w = vec![vec![0]];
    let c = vec![exit_spent_challenge_label(), vec![]];
    assert_eq!(call(&vec![], &c, &w), Err(ExitError::InputsLength));
    assert_eq!(call(&vec![vec![0], vec![0]], &c, &w), Err(ExitError::InputsLength));
    assert_eq!(call(&inputs, &c, &vec![]), Err(ExitError::WitnessLength));
    assert_eq!(call(&inputs, &vec![exit_spent_challenge_label()], &w), Err(ExitError::ChallengeInputsLength));
    assert_eq!(call(&vec![vec![1]], &c, &w), Err(ExitError::DecodeError));
    assert_eq!(call(&inputs, &vec![b"OTHER".to_vec(), vec![]], &w), Err(ExitError::IllegalChallengeType));
    assert_eq!(call(&inputs, &c, &w), Err(ExitError::DecodeError));
}

#[test]
fn checked_challenge_refuses_state_object_without_input() {
    let m = module();
    let inputs = vec![encode_state_update(&su(10, 20, 5, vec![]))];
    let challenge_inputs = vec![exit_spent_challenge_label(), encode_transaction(&tx(15, 25, 6, TOKEN))];
    let witness = vec![vec![0]];
    assert!(Module::exit_challenge_lacks_state_input_check(&inputs, &challenge_inputs, &witness));
    assert_eq!(m.checked_exit_challenge(&inputs, &challenge_inputs, &witness), None);
    let fine = vec![encode_state_update(&su(10, 20, 5, vec![vec![1]]))];
    match m.checked_exit_challenge(&fine, &challenge_inputs, &witness) {
        Some(Ok(ChallengeValidation::Decide { query, challenge })) => {
            assert_eq!(query.inputs[0], vec![1]);
            assert_eq!(challenge.state_update, su(10, 20, 5, vec![vec![1]]));
            assert_eq!(challenge.claim_id, Module::get_property_id(&claim_property(&fine[0])));
        },
        other => panic!("unexpected {:?}", other),
    }
}

#[test]
fn checked_claim_refuses_claim_without_proof() {
    let m = module();
    let inputs = vec![encode_state_update(&su(10, 20, 5, vec![vec![1]]))];
    assert_eq!(m.checked_exit_claim(&PLAPPS, &inputs, &vec![]), None);
    assert_eq!(m.checked_exit_claim(&PLAPPS, &vec![], &vec![]), Some(Err(ExitError::InputsTooShort)));
    assert!(matches!(m.checked_exit_claim(&PLAPPS, &inputs, &vec![vec![1]]), Some(Ok(_))));
}

#[test]
fn settle_and_remove_challenge() {
    let m = module();
    let exiting = su(10, 20, 5, vec![vec![1]]);
    let inputs = vec![encode_state_update(&exiting)];
    let handed = RefCell::new(None);
    let res = run_settle(&m, &inputs, |p: &Property| {
        *handed.borrow_mut() = Some(p.clone());
        Ok(Decision::True)
    });
    assert_eq!(res, Ok(ExitEvent::ExitSettled(exiting.clone(), true)));
    assert_eq!(handed.borrow().clone(), Some(claim_property(&inputs[0])));
    assert_eq!(run_settle(&m, &inputs, |_: &Property| Err(ExitError::Dispute("not decidable".to_string()))), Err(ExitError::Dispute("not decidable".to_string())));
    assert_eq!(run_settle(&m, &vec![vec![1]], |_: &Property| Ok(Decision::False)), Err(ExitError::DecodeError));
    assert_eq!(run_settle(&m, &vec![], |_: &Property| -> Result<Decision, ExitError> { panic!("nothing is settled") }), Err(ExitError::InputsLength));
    assert_eq!(Module::bare_exit_remove_challenge(vec![], vec![], vec![]), Ok(()));
}

#[test]
fn decision_and_completability_ask_for_the_claim() {
    let m = module();
    let exiting = su(10, 20, 5, vec![vec![1]]);
    let id = Module::get_property_id(&claim_property(&encode_state_update(&exiting)));
    assert_eq!(m.exit_claim_property(&exiting), claim_property(&encode_state_update(&exiting)));
    assert_eq!(m.get_claim_decision(&exiting, |h: &[u8; 32]| if *h == id { Some(Decision::True) } else { None }), Some(Decision::True));
    assert_eq!(m.get_claim_decision(&exiting, |_: &[u8; 32]| None), None);
    assert!(m.is_completable(&exiting, |h: &[u8; 32]| *h == id));
    assert!(!m.is_completable(&exiting, |_: &[u8; 32]| false));
}

#[test]
fn unexitable_checkpoint_is_one_refusal() {
    let m = module();
    let checkpoint = su(0, 30, 5, vec![vec![2]]);
    for exiting in [su(10, 40, 5, vec![vec![1]]), su(10, 20, 6, vec![vec![1]])] {
        let inputs = vec![encode_state_update(&exiting), encode_state_update(&checkpoint)];
        let res = run_claim(
            &m,
            &PLAPPS,
            &inputs,
            &vec![],
            |_: &[u8; 32], _: &[u8; 32]| -> bool { panic!("no checkpoint is looked up") },
            |_: &Vec<u8>| true,
            |_: &[u8; 32], _: &Vec<u8>| vec![],
            |_: &InclusionQuery| true,
            |_: &Property| -> Result<(), ExitError> { panic!("no claim is filed") },
        );
        assert_eq!(res, Err(ExitError::CheckpointNotExitable));
        assert_eq!(ExitError::CheckpointNotExitable.message(), "Checkpoint must be exitable for stateUpdate");
    }
}

#[test]
fn undecodable_inclusion_proof_is_refused_before_the_root() {
    let m = module();
    let inputs = vec![encode_state_update(&su(10, 20, 5, vec![vec![1]]))];
    let res = run_claim(
        &m,
        &PLAPPS,
        &inputs,
        &vec![vec![0xff]],
        |_: &[u8; 32], _: &[u8; 32]| true,
        |p: &Vec<u8>| p != &vec![0xff],
        |_: &[u8; 32], _: &Vec<u8>| -> Vec<u8> { panic!("no root is read") },
        |_: &InclusionQuery| -> bool { panic!("no inclusion is verified") },
        |_: &Property| -> Result<(), ExitError> { panic!("no claim is filed") },
    );
    assert_eq!(res, Err(ExitError::DecodeError));
}

#[test]
fn claim_steps_name_the_next_question() {
    let m = module();
    let exiting = su(10, 20, 5, vec![vec![1]]);
    let inputs = vec![encode_state_update(&exiting)];
    let c = m.bare_exit_claim(&PLAPPS, &inputs, &vec![vec![7]]).unwrap();
    assert_eq!(c.request, ClaimRequest::DecodeProof { plapps_id: PLAPPS, block_key: vec![5, 0, 0, 0] });
    let c = Module::exit_claim_after_proof(c, true).unwrap();
    assert_eq!(c.request, ClaimRequest::Root { plapps_id: PLAPPS, block_key: vec![5, 0, 0, 0] });
    let c = Module::exit_claim_after_inclusion(c, true).unwrap();
    assert_eq!(c.request, ClaimRequest::File);
    assert_eq!(c.property, claim_property(&inputs[0]));
    assert_eq!(Module::exit_claim_after_claim(c, Ok(())), Ok(ExitEvent::ExitClaimed(exiting)));
}

#[test]
fn error_messages() {
    assert_eq!(ExitError::InputsTooShort.message(), "inputs length does not match. at least 1");
    assert_eq!(ExitError::WitnessLength.message(), "witness length does not match. expected 1");
    assert_eq!(ExitError::ClaimNotFound.message(), "Claim does not exist");
    assert_eq!(ExitError::Dispute("x".to_string()).message(), "x");
}
