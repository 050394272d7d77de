//! The exit game of a plasma chain: claiming an exit of a range of coins,
//! challenging a claimed exit, and settling it.
//!
//! Each of the three runs in steps. A step either refuses the request or
//! returns the next question for the outside: the plasma storage (is a
//! checkpoint finalized, what root is stored for a block), the inclusion
//! verifier of the commitment, the predicate of a state object, the
//! validator of checkpoint challenges, or the dispute manager (claim,
//! started, challenge, settle). The next step takes the answer. A refused
//! request therefore asks nothing further, and each question is asked once.

use vstd::prelude::*;
use crate::hashing::{blake2_256, hash_eq, hash_of_bytes, spec_blake2_256, spec_hash_of_bytes};
use crate::scale::{byte_list_view, copy_byte_list, copy_range, encode_u32, le_bytes};
use crate::types::{
    decode_state_update, decode_transaction, encode_property, encode_state_update, AccountId, H256,
    Property, PropertyModel, Range, StateUpdate, StateUpdateModel, property_wf,
    spec_decode_state_update, spec_decode_transaction, spec_encode_property,
    spec_encode_state_update, state_update_wf,
};

verus! {

/// Why an exit request is refused.
#[derive(Clone, Debug, PartialEq, Eq)]
pub enum ExitError {
    /// "inputs length does not match. at least 1"
    InputsTooShort,
    /// "inputs length does not match. expected 1"
    InputsLength,
    /// "witness length does not match. expected 1"
    WitnessLength,
    /// "challenge inputs length does not match. expected 2"
    ChallengeInputsLength,
    /// Bytes that do not decode as the value expected there.
    DecodeError,
    /// "Checkpoint must be exitable for stateUpdate"
    CheckpointNotExitable,
    /// "Inclusion verification failed"
    InclusionVerificationFailed,
    /// "token must be same"
    TokenMismatch,
    /// "range must contain subrange"
    NoIntersection,
    /// "blockNumber must be valid"
    InvalidBlockNumber,
    /// "State object decided to false"
    DecidedFalse,
    /// "illegal challenge type"
    IllegalChallengeType,
    /// "Claim does not exist"
    ClaimNotFound,
    /// An error of the dispute manager or of a validator, passed on as it came.
    Dispute(String),
}

/// The text with which the runtime refuses an exit request.
pub open spec fn spec_error_message(e: ExitError) -> Seq<char> {
    match e {
        ExitError::InputsTooShort => "inputs length does not match. at least 1"@,
        ExitError::InputsLength => "inputs length does not match. expected 1"@,
        ExitError::WitnessLength => "witness length does not match. expected 1"@,
        ExitError::ChallengeInputsLength => "challenge inputs length does not match. expected 2"@,
        ExitError::DecodeError => "DecodeError"@,
        ExitError::CheckpointNotExitable => "Checkpoint must be exitable for stateUpdate"@,
        ExitError::InclusionVerificationFailed => "Inclusion verification failed"@,
        ExitError::TokenMismatch => "token must be same"@,
        ExitError::NoIntersection => "range must contain subrange"@,
        ExitError::InvalidBlockNumber => "blockNumber must be valid"@,
        ExitError::DecidedFalse => "State object decided to false"@,
        ExitError::IllegalChallengeType => "illegal challenge type"@,
        ExitError::ClaimNotFound => "Claim does not exist"@,
        ExitError::Dispute(m) => m@,
    }
}

impl ExitError {
    /// The text with which the runtime refuses the request.
    pub fn message(&self) -> (r: String)
        ensures
            r@ == spec_error_message(*self),
    {
        match self {
            ExitError::InputsTooShort => String::from_str("inputs length does not match. at least 1"),
            ExitError::InputsLength => String::from_str("inputs length does not match. expected 1"),
            ExitError::WitnessLength => String::from_str("witness length does not match. expected 1"),
            ExitError::ChallengeInputsLength => String::from_str("challenge inputs length does not match. expected 2"),
            ExitError::DecodeError => String::from_str("DecodeError"),
            ExitError::CheckpointNotExitable => String::from_str("Checkpoint must be exitable for stateUpdate"),
            ExitError::InclusionVerificationFailed => String::from_str("Inclusion verification failed"),
            ExitError::TokenMismatch => String::from_str("token must be same"),
            ExitError::NoIntersection => String::from_str("range must contain subrange"),
            ExitError::InvalidBlockNumber => String::from_str("blockNumber must be valid"),
            ExitError::DecidedFalse => String::from_str("State object decided to false"),
            ExitError::IllegalChallengeType => String::from_str("illegal challenge type"),
            ExitError::ClaimNotFound => String::from_str("Claim does not exist"),
            ExitError::Dispute(m) => m.clone(),
        }
    }
}

/// The decision of a dispute game.
#[derive(Clone, Copy, Debug, PartialEq, Eq, Structural)]
pub enum Decision {
    Undecided,
    True,
    False,
}

/// What the exit game reports.
#[derive(Clone, Debug, PartialEq, Eq)]
pub enum ExitEvent {
    ExitClaimed(StateUpdate),
    ExitSpentChallenged(StateUpdate),
    ExitCheckpointChallenged(StateUpdate, StateUpdate),
    ExitSettled(StateUpdate, bool),
}

/// What is handed to the inclusion verifier of the commitment: the leaf
/// (hash of the state object), the deposit contract, the range, the raw
/// inclusion proof and the block root.
#[derive(Clone, Debug, PartialEq, Eq)]
pub struct InclusionQuery {
    pub leaf: H256,
    pub token: AccountId,
    pub range: Range,
    pub inclusion_proof: Vec<u8>,
    pub root: H256,
}

#[verifier::ext_equal]
pub struct InclusionQueryModel {
    pub leaf: Seq<u8>,
    pub token: Seq<u8>,
    pub range: Range,
    pub inclusion_proof: Seq<u8>,
    pub root: Seq<u8>,
}

impl View for InclusionQuery {
    type V = InclusionQueryModel;

    open spec fn view(&self) -> InclusionQueryModel {
        InclusionQueryModel {
            leaf: self.leaf@,
            token: self.token@,
            range: self.range,
            inclusion_proof: self.inclusion_proof@,
            root: self.root@,
        }
    }
}

/// What is handed to a predicate for its decision: the predicate's address,
/// its inputs and the witness.
#[derive(Clone, Debug, PartialEq, Eq)]
pub struct DecideQuery {
    pub predicate_address: AccountId,
    pub inputs: Vec<Vec<u8>>,
    pub witness: Vec<Vec<u8>>,
}

#[verifier::ext_equal]
pub struct DecideQueryModel {
    pub predicate_address: Seq<u8>,
    pub inputs: Seq<Seq<u8>>,
    pub witness: Seq<Seq<u8>>,
}

impl View for DecideQuery {
    type V = DecideQueryModel;

    open spec fn view(&self) -> DecideQueryModel {
        DecideQueryModel {
            predicate_address: self.predicate_address@,
            inputs: byte_list_view(&self.inputs),
            witness: byte_list_view(&self.witness),
        }
    }
}

/// The exit game of one plasma module, which makes its claims under its own
/// address.
pub struct Module {
    pub address: AccountId,
}

// ---------------------------------------------------------------- labels

pub open spec fn spec_exit_claim_label() -> Seq<u8> {
    seq![69u8, 88, 73, 84, 95, 67, 76, 65, 73, 77]
}

pub open spec fn spec_exit_spent_challenge_label() -> Seq<u8> {
    seq![69u8, 88, 73, 84, 95, 83, 80, 69, 78, 84, 95, 67, 72, 65, 76, 76, 69, 78, 71, 69]
}

pub open spec fn spec_exit_checkpoint_challenge_label() -> Seq<u8> {
    seq![69u8, 88, 73, 84, 95, 67, 72, 69, 67, 75, 80, 79, 73, 78, 84, 95, 67, 72, 65, 76, 76, 69, 78, 71, 69]
}

/// The label `EXIT_CLAIM`.
pub fn exit_claim_label() -> (r: Vec<u8>)
    ensures
        r@ == spec_exit_claim_label(),
{
    let r = vec![69u8, 88, 73, 84, 95, 67, 76, 65, 73, 77];
    assert(r@ =~= spec_exit_claim_label());
    r
}

/// The label `EXIT_SPENT_CHALLENGE`.
pub fn exit_spent_challenge_label() -> (r: Vec<u8>)
    ensures
        r@ == spec_exit_spent_challenge_label(),
{
    let r = vec![69u8, 88, 73, 84, 95, 83, 80, 69, 78, 84, 95, 67, 72, 65, 76, 76, 69, 78, 71, 69];
    assert(r@ =~= spec_exit_spent_challenge_label());
    r
}

/// The label `EXIT_CHECKPOINT_CHALLENGE`.
pub fn exit_checkpoint_challenge_label() -> (r: Vec<u8>)
    ensures
        r@ == spec_exit_checkpoint_challenge_label(),
{
    let r = vec![
        69u8, 88, 73, 84, 95, 67, 72, 69, 67, 75, 80, 79, 73, 78, 84, 95, 67, 72, 65, 76, 76, 69,
        78, 71, 69,
    ];
    assert(r@ =~= spec_exit_checkpoint_challenge_label());
    r
}

// ---------------------------------------------------------------- rules

pub open spec fn spec_is_subrange(subrange: Range, surrounding: Range) -> bool {
    subrange.start >= surrounding.start && subrange.end <= surrounding.end
}

/// The two ranges share a coin: the larger start is below the smaller end.
pub open spec fn spec_has_intersection(a: Range, b: Range) -> bool {
    let max_start = if a.start >= b.start { a.start } else { b.start };
    let min_end = if a.end <= b.end { a.end } else { b.end };
    max_start < min_end
}

/// The id of a state update: the hash of its SCALE bytes.
pub open spec fn spec_get_id(su: StateUpdateModel) -> Seq<u8> {
    spec_blake2_256(spec_encode_state_update(su))
}

/// The id of a property: the hash of its SCALE bytes.
pub open spec fn spec_property_id(p: PropertyModel) -> Seq<u8> {
    spec_blake2_256(spec_encode_property(p))
}

/// The property that the module at `address` makes of `bytes` under `label`:
/// its inputs are the label, then the bytes.
pub open spec fn spec_create_property(address: Seq<u8>, bytes: Seq<u8>, label: Seq<u8>) -> PropertyModel {
    PropertyModel { predicate_address: address, inputs: seq![label, bytes] }
}

/// A block root as 32 bytes: the first 32 bytes of what is stored, padded
/// with zeros where fewer are stored.
pub open spec fn spec_bytes_to_bytes32(b: Seq<u8>) -> Seq<u8> {
    if b.len() >= 32 {
        b.take(32)
    } else {
        b + Seq::new((32 - b.len()) as nat, |i: int| 0u8)
    }
}

/// The inclusion query for the state update `su` of the plasma app
/// `plapps_id`, given the bytes stored as the root of its block.
pub open spec fn spec_inclusion_query(su: StateUpdateModel, proof: Seq<u8>, stored_root: Seq<u8>) -> InclusionQueryModel {
    InclusionQueryModel {
        leaf: spec_blake2_256(spec_encode_property(su.state_object)),
        token: su.deposit_contract_address,
        range: su.range,
        inclusion_proof: proof,
        root: spec_bytes_to_bytes32(stored_root),
    }
}

/// The exit claim of these inputs reaches `witness[0]` with no witness: the
/// one input on which the claim cannot proceed.
pub open spec fn exit_claim_lacks_proof(inputs: Seq<Seq<u8>>, witness: Seq<Seq<u8>>) -> bool {
    &&& inputs.len() >= 1
    &&& spec_decode_state_update(inputs[0]) is Some
    &&& witness.len() == 0
    &&& inputs.len() != 2
}

/// The byte strings that a challenge hashes, once its input counts are
/// right (the state update and the label), fit the 32-bit lengths of the
/// wire format; the codec panics on longer ones.
pub open spec fn hashed_inputs_fit(inputs: Seq<Seq<u8>>, challenge_inputs: Seq<Seq<u8>>) -> bool {
    inputs.len() == 1 && challenge_inputs.len() == 2 ==> inputs[0].len() < 0x1_0000_0000
        && challenge_inputs[0].len() < 0x1_0000_0000
}

/// The spent challenge of `inputs0` by the transaction `challenge0` passes
/// every check before the predicate is asked, with a state object that has
/// no input to hand it: the one input on which the check cannot proceed.
pub open spec fn spent_challenge_lacks_state_input(inputs0: Seq<u8>, challenge0: Seq<u8>) -> bool {
    match spec_decode_state_update(inputs0) {
        None => false,
        Some((su, _)) => match spec_decode_transaction(challenge0) {
            None => false,
            Some((tx, _)) => {
                &&& tx.deposit_contract_address == su.deposit_contract_address
                &&& spec_has_intersection(tx.range, su.range)
                &&& tx.max_block_number >= su.block_number
                &&& su.state_object.inputs.len() == 0
            },
        },
    }
}

/// The challenge of these inputs is a spent challenge that cannot proceed.
pub open spec fn exit_challenge_lacks_state_input(
    inputs: Seq<Seq<u8>>,
    challenge_inputs: Seq<Seq<u8>>,
    witness: Seq<Seq<u8>>,
) -> bool {
    &&& inputs.len() == 1
    &&& witness.len() == 1
    &&& challenge_inputs.len() == 2
    &&& spec_decode_state_update(inputs[0]) is Some
    &&& spec_label_kind(challenge_inputs[0]) == ChallengeKind::Spent
    &&& spent_challenge_lacks_state_input(inputs[0], challenge_inputs[1])
}

// ---------------------------------------------------------------- requests to the outside

/// The kind of a challenge, told by the hash of its label.
#[derive(Clone, Copy, Debug, PartialEq, Eq, Structural)]
pub enum ChallengeKind {
    Spent,
    Checkpoint,
    Illegal,
}

/// What an exit claim asks of the plasma storage before it can be filed.
#[derive(Clone, Debug, PartialEq, Eq)]
pub enum ClaimRequest {
    /// Is the checkpoint `checkpoint_id` of the plasma app finalized?
    Finalized { plapps_id: AccountId, checkpoint_id: H256 },
    /// Does the claim's inclusion proof decode as an inclusion proof of the
    /// commitment? The root of the block whose encoded number is
    /// `block_key` is asked next.
    DecodeProof { plapps_id: AccountId, block_key: Vec<u8> },
    /// What root is stored for the block whose encoded number is `block_key`?
    /// The inclusion query is then built from it and handed to the verifier.
    Root { plapps_id: AccountId, block_key: Vec<u8> },
    /// Every answer allowed the claim: file `property` with the dispute
    /// manager.
    File,
}

/// An exit claim under way: what it asks next, the property to claim once
/// the answers allow it, the state update that exits, and the inclusion
/// proof (empty on the checkpoint path).
#[derive(Clone, Debug, PartialEq, Eq)]
pub struct ExitClaim {
    pub request: ClaimRequest,
    pub property: Property,
    pub state_update: StateUpdate,
    pub inclusion_proof: Vec<u8>,
}

/// A challenge under way: the challenged state update, the property of its
/// claim and that property's id, the property of the challenge, and the
/// second challenge input (the spending transaction or the earlier state
/// update).
#[derive(Clone, Debug, PartialEq, Eq)]
pub struct ExitChallenge {
    pub state_update: StateUpdate,
    pub claimed: Property,
    pub claim_id: H256,
    pub challenge_property: Property,
    pub challenge_input: Vec<u8>,
}

/// What a challenge asks before it can stand.
#[derive(Clone, Debug, PartialEq, Eq)]
pub enum ChallengeValidation {
    /// Ask the predicate of the challenged state object: the spent challenge
    /// stands if it decides true.
    Decide { query: DecideQuery, challenge: ExitChallenge },
    /// Ask the checkpoint challenge validator about these inputs, challenge
    /// inputs and witness.
    ValidateCheckpoint {
        inputs: Vec<Vec<u8>>,
        challenge_inputs: Vec<Vec<u8>>,
        witness: Vec<Vec<u8>>,
        challenge: ExitChallenge,
    },
}

/// Where a validated challenge stands.
#[derive(Clone, Copy, Debug, PartialEq, Eq, Structural)]
pub enum ChallengeStage {
    /// Report `event`, then ask the dispute manager whether the claim
    /// `claim_id` has started.
    AskStarted,
    /// File the challenge of `claimed` by `challenge_property` with the
    /// dispute manager.
    File,
}

/// A validated challenge: the event to report, what is asked next, the
/// claim and its id, and the challenge to file.
#[derive(Clone, Debug, PartialEq, Eq)]
pub struct ChallengeReady {
    pub stage: ChallengeStage,
    pub event: ExitEvent,
    pub claimed: Property,
    pub claim_id: H256,
    pub challenge_property: Property,
}

// ---------------------------------------------------------------- what each step returns

/// `next` is the claim under way `claim`, now asking `request`.
pub open spec fn claim_moved(claim: ExitClaim, next: ExitClaim, request: ClaimRequest) -> bool {
    &&& next.request == request
    &&& next.property == claim.property
    &&& next.state_update == claim.state_update
    &&& next.inclusion_proof == claim.inclusion_proof
}

pub open spec fn spec_challenge_kind(kind: Seq<u8>, spent: Seq<u8>, checkpoint: Seq<u8>) -> ChallengeKind {
    if kind == spent {
        ChallengeKind::Spent
    } else if kind == checkpoint {
        ChallengeKind::Checkpoint
    } else {
        ChallengeKind::Illegal
    }
}

/// The kind of the challenge whose first input is `label`.
pub open spec fn spec_label_kind(label: Seq<u8>) -> ChallengeKind {
    spec_challenge_kind(
        spec_hash_of_bytes(label),
        spec_hash_of_bytes(spec_exit_spent_challenge_label()),
        spec_hash_of_bytes(spec_exit_checkpoint_challenge_label()),
    )
}

/// The witness a challenge takes: none or one for a checkpoint challenge
/// (its description gives it none; one was accepted too), exactly one
/// otherwise (the signature of a spent challenge).
pub open spec fn witness_fits(challenge_inputs: Seq<Seq<u8>>, witness: Seq<Seq<u8>>) -> bool {
    if challenge_inputs.len() == 2 && spec_label_kind(challenge_inputs[0]) == ChallengeKind::Checkpoint {
        witness.len() <= 1
    } else {
        witness.len() == 1
    }
}

/// What the first step of an exit claim returns.
pub open spec fn exit_claim_start_outcome(
    address: Seq<u8>,
    plapps_id: AccountId,
    inputs: Seq<Seq<u8>>,
    witness: Seq<Seq<u8>>,
    res: Result<ExitClaim, ExitError>,
) -> bool {
    if inputs.len() < 1 {
        res == Err::<ExitClaim, ExitError>(ExitError::InputsTooShort)
    } else {
        match spec_decode_state_update(inputs[0]) {
            None => res == Err::<ExitClaim, ExitError>(ExitError::DecodeError),
            Some((su, _)) => if witness.len() == 0 && inputs.len() == 2 {
                match spec_decode_state_update(inputs[1]) {
                    None => res == Err::<ExitClaim, ExitError>(ExitError::DecodeError),
                    Some((checkpoint, _)) => if !spec_is_subrange(su.range, checkpoint.range)
                        || su.block_number != checkpoint.block_number {
                        res == Err::<ExitClaim, ExitError>(ExitError::CheckpointNotExitable)
                    } else {
                        &&& res matches Ok(c)
                        &&& c.property@ == spec_create_property(address, inputs[0], spec_exit_claim_label())
                        &&& c.state_update@ == su
                        &&& c.inclusion_proof@.len() == 0
                        &&& c.request matches ClaimRequest::Finalized { plapps_id: p, checkpoint_id: h }
                        &&& p == plapps_id
                        &&& h@ == spec_get_id(checkpoint)
                    },
                }
            } else {
                &&& res matches Ok(c)
                &&& c.property@ == spec_create_property(address, inputs[0], spec_exit_claim_label())
                &&& c.state_update@ == su
                &&& c.inclusion_proof@ == witness[0]
                &&& c.request matches ClaimRequest::DecodeProof { plapps_id: p, block_key: k }
                &&& p == plapps_id
                &&& k@ == le_bytes(su.block_number as nat, 4)
            },
        }
    }
}

/// The spent-challenge check of the state update `inputs0` by the
/// transaction `challenge0`: its refusal, or the query to hand the
/// predicate of the state object.
pub open spec fn spec_spent_challenge(
    inputs0: Seq<u8>,
    challenge0: Seq<u8>,
    witness: Seq<Seq<u8>>,
) -> Result<DecideQueryModel, ExitError> {
    match spec_decode_state_update(inputs0) {
        None => Err(ExitError::DecodeError),
        Some((su, _)) => match spec_decode_transaction(challenge0) {
            None => Err(ExitError::DecodeError),
            Some((tx, _)) => if tx.deposit_contract_address != su.deposit_contract_address {
                Err(ExitError::TokenMismatch)
            } else if !spec_has_intersection(tx.range, su.range) {
                Err(ExitError::NoIntersection)
            } else if tx.max_block_number < su.block_number {
                Err(ExitError::InvalidBlockNumber)
            } else {
                Ok(
                    DecideQueryModel {
                        predicate_address: su.state_object.predicate_address,
                        inputs: seq![su.state_object.inputs[0], challenge0],
                        witness: witness,
                    },
                )
            },
        },
    }
}

/// The challenge carried by a validation request.
pub open spec fn validation_challenge(v: ChallengeValidation) -> ExitChallenge {
    match v {
        ChallengeValidation::Decide { challenge, .. } => challenge,
        ChallengeValidation::ValidateCheckpoint { challenge, .. } => challenge,
    }
}

/// The challenge under way is that of `su`, whose claim is the property of
/// `inputs0` under `EXIT_CLAIM`, by the property `challenge_property`.
pub open spec fn challenge_fits(
    c: ExitChallenge,
    address: Seq<u8>,
    su: StateUpdateModel,
    inputs0: Seq<u8>,
    challenge_property: PropertyModel,
    challenge_input: Seq<u8>,
) -> bool {
    &&& c.state_update@ == su
    &&& c.claimed@ == spec_create_property(address, inputs0, spec_exit_claim_label())
    &&& c.claim_id@ == spec_property_id(c.claimed@)
    &&& c.challenge_property@ == challenge_property
    &&& c.challenge_input@ == challenge_input
}

/// What the first step of a challenge returns.
pub open spec fn exit_challenge_start_outcome(
    address: Seq<u8>,
    inputs: Seq<Seq<u8>>,
    challenge_inputs: Seq<Seq<u8>>,
    witness: Seq<Seq<u8>>,
    res: Result<ChallengeValidation, ExitError>,
) -> bool {
    if inputs.len() != 1 {
        res == Err::<ChallengeValidation, ExitError>(ExitError::InputsLength)
    } else if !witness_fits(challenge_inputs, witness) {
        res == Err::<ChallengeValidation, ExitError>(ExitError::WitnessLength)
    } else if challenge_inputs.len() != 2 {
        res == Err::<ChallengeValidation, ExitError>(ExitError::ChallengeInputsLength)
    } else {
        match spec_decode_state_update(inputs[0]) {
            None => res == Err::<ChallengeValidation, ExitError>(ExitError::DecodeError),
            Some((su, _)) => match spec_label_kind(challenge_inputs[0]) {
                ChallengeKind::Spent => match spec_spent_challenge(inputs[0], challenge_inputs[1], witness) {
                    Err(e) => res == Err::<ChallengeValidation, ExitError>(e),
                    Ok(q) => {
                        &&& res matches Ok(v)
                        &&& v matches ChallengeValidation::Decide { query, challenge }
                        &&& query@ == q
                        &&& challenge_fits(
                            challenge,
                            address,
                            su,
                            inputs[0],
                            spec_create_property(address, challenge_inputs[0], spec_exit_spent_challenge_label()),
                            challenge_inputs[1],
                        )
                    },
                },
                ChallengeKind::Checkpoint => {
                    &&& res matches Ok(v)
                    &&& v matches ChallengeValidation::ValidateCheckpoint { inputs: a, challenge_inputs: c, witness: w, challenge }
                    &&& byte_list_view(&a) == inputs
                    &&& byte_list_view(&c) == seq![challenge_inputs[1]]
                    &&& byte_list_view(&w) == witness
                    &&& challenge_fits(
                        challenge,
                        address,
                        su,
                        inputs[0],
                        spec_create_property(address, challenge_inputs[1], spec_exit_checkpoint_challenge_label()),
                        challenge_inputs[1],
                    )
                },
                ChallengeKind::Illegal => res == Err::<ChallengeValidation, ExitError>(ExitError::IllegalChallengeType),
            },
        }
    }
}

/// A validated challenge carries the claim, its id and the challenge of the
/// challenge under way.
pub open spec fn ready_fits(r: ChallengeReady, c: ExitChallenge) -> bool {
    &&& r.stage == ChallengeStage::AskStarted
    &&& r.claimed == c.claimed
    &&& r.claim_id == c.claim_id
    &&& r.challenge_property == c.challenge_property
}

// ---------------------------------------------------------------- laws of ranges

/// Every range lies within itself.
pub proof fn lemma_subrange_reflexive(r: Range)
    ensures
        spec_is_subrange(r, r),
{
}

/// A range within a range within a third lies within the third.
pub proof fn lemma_subrange_transitive(a: Range, b: Range, c: Range)
    requires
        spec_is_subrange(a, b),
        spec_is_subrange(b, c),
    ensures
        spec_is_subrange(a, c),
{
}

/// Two ranges share a coin or not, whichever is named first.
pub proof fn lemma_intersection_symmetric(a: Range, b: Range)
    ensures
        spec_has_intersection(a, b) == spec_has_intersection(b, a),
{
}

/// A range that holds a coin shares it with every range it lies within.
pub proof fn lemma_subrange_intersects(a: Range, b: Range)
    requires
        spec_is_subrange(a, b),
        a.start < a.end,
    ensures
        spec_has_intersection(a, b),
{
}

/// An empty range shares no coin with any range.
pub proof fn lemma_empty_range_intersects_nothing(a: Range, b: Range)
    requires
        a.end <= a.start,
    ensures
        !spec_has_intersection(a, b),
{
}

// ---------------------------------------------------------------- laws of the exit game

/// An exit claim asks whether a checkpoint is finalized only when it came
/// with two inputs and no witness, and then only of a checkpoint of the same
/// block whose range holds the exiting range; otherwise it asks for the root
/// of the exiting state update's block, to check the inclusion proof.
pub proof fn lemma_exit_claim_asks_the_right_question(
    address: Seq<u8>,
    plapps_id: AccountId,
    inputs: Seq<Seq<u8>>,
    witness: Seq<Seq<u8>>,
    res: Result<ExitClaim, ExitError>,
)
    requires
        exit_claim_start_outcome(address, plapps_id, inputs, witness, res),
        res is Ok,
    ensures
        inputs.len() >= 1,
        spec_decode_state_update(inputs[0]) is Some,
        (res->Ok_0.request is Finalized) == (witness.len() == 0 && inputs.len() == 2),
        res->Ok_0.request is Finalized ==> {
            &&& spec_decode_state_update(inputs[1]) matches Some((checkpoint, _))
            &&& spec_is_subrange(res->Ok_0.state_update@.range, checkpoint.range)
            &&& res->Ok_0.state_update.block_number == checkpoint.block_number
        },
{
}

/// A challenge goes on to its validation only with one input, two challenge
/// inputs, a decodable state update and the label of a known kind: the
/// predicate is asked for a spent challenge, the validator for a checkpoint
/// challenge.
pub proof fn lemma_exit_challenge_asks_the_right_question(
    address: Seq<u8>,
    inputs: Seq<Seq<u8>>,
    challenge_inputs: Seq<Seq<u8>>,
    witness: Seq<Seq<u8>>,
    res: Result<ChallengeValidation, ExitError>,
)
    requires
        exit_challenge_start_outcome(address, inputs, challenge_inputs, witness, res),
        res is Ok,
    ensures
        inputs.len() == 1,
        challenge_inputs.len() == 2,
        spec_decode_state_update(inputs[0]) is Some,
        (res->Ok_0 is Decide) == (spec_label_kind(challenge_inputs[0]) == ChallengeKind::Spent),
        (res->Ok_0 is ValidateCheckpoint) == (spec_label_kind(challenge_inputs[0]) == ChallengeKind::Checkpoint),
        res->Ok_0 is Decide ==> witness.len() == 1,
{
}

/// Whatever the kind of challenge, the claim a challenge goes against is the
/// property of `inputs[0]` under `EXIT_CLAIM` made by this module, and the
/// dispute manager is asked about the hash of that property's bytes: the id
/// of the claim, not of the state update or of the challenge.
pub proof fn lemma_challenge_asks_about_the_claim(
    address: Seq<u8>,
    inputs: Seq<Seq<u8>>,
    challenge_inputs: Seq<Seq<u8>>,
    witness: Seq<Seq<u8>>,
    res: Result<ChallengeValidation, ExitError>,
)
    requires
        exit_challenge_start_outcome(address, inputs, challenge_inputs, witness, res),
        res is Ok,
    ensures
        validation_challenge(res->Ok_0).claimed@.predicate_address == address,
        validation_challenge(res->Ok_0).claimed@.inputs == seq![spec_exit_claim_label(), inputs[0]],
        validation_challenge(res->Ok_0).claim_id@ == spec_blake2_256(
            spec_encode_property(validation_challenge(res->Ok_0).claimed@),
        ),
        spec_decode_state_update(inputs[0]) matches Some((su, _))
            && validation_challenge(res->Ok_0).state_update@ == su,
        validation_challenge(res->Ok_0).challenge_input@ == challenge_inputs[1],
        validation_challenge(res->Ok_0).challenge_property@.predicate_address == address,
        res->Ok_0 is Decide ==> validation_challenge(res->Ok_0).challenge_property@.inputs == seq![
            spec_exit_spent_challenge_label(),
            challenge_inputs[0],
        ],
        res->Ok_0 is ValidateCheckpoint ==> validation_challenge(res->Ok_0).challenge_property@.inputs == seq![
            spec_exit_checkpoint_challenge_label(),
            challenge_inputs[1],
        ],
{
}

/// A validated challenge asks the dispute manager about the id of the claim
/// of `inputs[0]` under `EXIT_CLAIM`, whichever validation it went through.
pub proof fn lemma_started_is_asked_of_the_claim(
    address: Seq<u8>,
    inputs: Seq<Seq<u8>>,
    challenge_inputs: Seq<Seq<u8>>,
    witness: Seq<Seq<u8>>,
    res: Result<ChallengeValidation, ExitError>,
    ready: ChallengeReady,
)
    requires
        exit_challenge_start_outcome(address, inputs, challenge_inputs, witness, res),
        res is Ok,
        ready_fits(ready, validation_challenge(res->Ok_0)),
    ensures
        ready.claimed@ == (PropertyModel { predicate_address: address, inputs: seq![spec_exit_claim_label(), inputs[0]] }),
        ready.claim_id@ == spec_blake2_256(spec_encode_property(ready.claimed@)),
{
}

/// An exit claim asks its questions of the plasma app it was called for,
/// whatever the module's own address: whether the checkpoint (the hash of
/// the bytes of `inputs[1]`'s state update) is finalized there, or whether
/// its inclusion proof decodes, for the block key of the state update's
/// block number.
pub proof fn lemma_exit_claim_asks_its_plasma_app(
    address: Seq<u8>,
    plapps_id: AccountId,
    inputs: Seq<Seq<u8>>,
    witness: Seq<Seq<u8>>,
    res: Result<ExitClaim, ExitError>,
)
    requires
        exit_claim_start_outcome(address, plapps_id, inputs, witness, res),
        res is Ok,
    ensures
        res->Ok_0.request matches ClaimRequest::Finalized { plapps_id: p, checkpoint_id: h } ==> {
            &&& p == plapps_id
            &&& spec_decode_state_update(inputs[1]) matches Some((cp, _))
            &&& h@ == spec_blake2_256(spec_encode_state_update(cp))
        },
        res->Ok_0.request matches ClaimRequest::DecodeProof { plapps_id: p, block_key: k } ==> {
            &&& p == plapps_id
            &&& k@ == le_bytes(res->Ok_0.state_update.block_number as nat, 4)
        },
        res->Ok_0.request is Finalized || res->Ok_0.request is DecodeProof,
        res->Ok_0.property@ == (PropertyModel { predicate_address: address, inputs: seq![spec_exit_claim_label(), inputs[0]] }),
{
}

/// A claim by a checkpoint goes on to ask whether the checkpoint is
/// finalized whenever both inputs decode, the checkpoint's bounds hold the
/// exiting range (ends that meet included) and the blocks agree.
pub proof fn lemma_exit_claim_by_checkpoint_proceeds(
    address: Seq<u8>,
    plapps_id: AccountId,
    inputs: Seq<Seq<u8>>,
    res: Result<ExitClaim, ExitError>,
)
    requires
        exit_claim_start_outcome(address, plapps_id, inputs, seq![], res),
        inputs.len() == 2,
        spec_decode_state_update(inputs[0]) matches Some((su, _)),
        spec_decode_state_update(inputs[1]) matches Some((cp, _)),
        spec_decode_state_update(inputs[0])->Some_0.0.range.start
            >= spec_decode_state_update(inputs[1])->Some_0.0.range.start,
        spec_decode_state_update(inputs[0])->Some_0.0.range.end
            <= spec_decode_state_update(inputs[1])->Some_0.0.range.end,
        spec_decode_state_update(inputs[0])->Some_0.0.block_number
            == spec_decode_state_update(inputs[1])->Some_0.0.block_number,
    ensures
        res matches Ok(c) && c.request matches ClaimRequest::Finalized { plapps_id: p, .. } && p == plapps_id,
{
}

/// A stored root becomes 32 bytes that keep the stored bytes in place: each
/// of the first 32 stored bytes stands at its own index, and the rest are
/// zeros. A root stored as exactly 32 bytes is used as it is.
pub proof fn lemma_root_keeps_stored_bytes(b: Seq<u8>)
    ensures
        spec_bytes_to_bytes32(b).len() == 32,
        forall|i: int| 0 <= i < 32 && i < b.len() ==> #[trigger] spec_bytes_to_bytes32(b)[i] == b[i],
        forall|i: int| b.len() <= i < 32 ==> #[trigger] spec_bytes_to_bytes32(b)[i] == 0u8,
        b.len() == 32 ==> spec_bytes_to_bytes32(b) == b,
{
    if b.len() == 32 {
        assert(spec_bytes_to_bytes32(b) =~= b);
    }
}

/// The inclusion verifier is handed the stored root byte for byte (padded
/// with zeros to 32), with the proof, token and range of the claim.
pub proof fn lemma_inclusion_query_uses_stored_root(su: StateUpdateModel, proof: Seq<u8>, stored_root: Seq<u8>)
    ensures
        spec_inclusion_query(su, proof, stored_root).root.len() == 32,
        forall|i: int| 0 <= i < 32 && i < stored_root.len()
            ==> #[trigger] spec_inclusion_query(su, proof, stored_root).root[i] == stored_root[i],
        stored_root.len() == 32 ==> spec_inclusion_query(su, proof, stored_root).root == stored_root,
        spec_inclusion_query(su, proof, stored_root).inclusion_proof == proof,
        spec_inclusion_query(su, proof, stored_root).range == su.range,
        spec_inclusion_query(su, proof, stored_root).token == su.deposit_contract_address,
        spec_inclusion_query(su, proof, stored_root).leaf == spec_blake2_256(spec_encode_property(su.state_object)),
{
    lemma_root_keeps_stored_bytes(stored_root);
}

/// The coin `c` lies in the range `r`: from its start, up to and not
/// including its end.
pub open spec fn range_holds(r: Range, c: int) -> bool {
    r.start <= c < r.end
}

/// Two ranges intersect exactly when some coin lies in both.
pub proof fn lemma_intersection_is_a_shared_coin(a: Range, b: Range)
    ensures
        spec_has_intersection(a, b) <==> exists|c: int| #[trigger] range_holds(a, c) && range_holds(b, c),
        a.end <= b.start || b.end <= a.start ==> !spec_has_intersection(a, b),
{
    if spec_has_intersection(a, b) {
        let c: int = if a.start >= b.start { a.start as int } else { b.start as int };
        assert(range_holds(a, c) && range_holds(b, c));
    }
}

/// A spent challenge goes on to the predicate only with a transaction of the
/// same token that spends some coin of the exiting range, valid up to the
/// state update's block.
pub proof fn lemma_spent_challenge_spends_an_exiting_coin(
    inputs0: Seq<u8>,
    challenge0: Seq<u8>,
    witness: Seq<Seq<u8>>,
)
    requires
        spec_spent_challenge(inputs0, challenge0, witness) is Ok,
    ensures
        spec_decode_state_update(inputs0) matches Some((su, _)) && spec_decode_transaction(challenge0) matches Some((
            tx,
            _,
        )) && tx.deposit_contract_address == su.deposit_contract_address && tx.max_block_number >= su.block_number
            && exists|c: int| #[trigger] range_holds(tx.range, c) && range_holds(su.range, c),
{
    let su = spec_decode_state_update(inputs0)->Some_0.0;
    let tx = spec_decode_transaction(challenge0)->Some_0.0;
    lemma_intersection_is_a_shared_coin(tx.range, su.range);
}

/// A range lies within another exactly when its bounds do: it starts no
/// earlier and ends no later, ends that meet included.
pub proof fn lemma_subrange_is_by_bounds(a: Range, b: Range)
    ensures
        spec_is_subrange(a, b) <==> (b.start <= a.start && a.end <= b.end),
{
}

/// A range that holds a coin lies within another exactly when each of its
/// coins lies in the other.
pub proof fn lemma_subrange_holds_every_coin(a: Range, b: Range)
    requires
        a.start < a.end,
    ensures
        spec_is_subrange(a, b) <==> forall|c: int| #[trigger] range_holds(a, c) ==> range_holds(b, c),
{
    if !spec_is_subrange(a, b) {
        if a.start < b.start {
            let c: int = a.start as int;
            assert(range_holds(a, c) && !range_holds(b, c));
        } else {
            let c: int = a.end - 1;
            assert(range_holds(a, c) && !range_holds(b, c));
        }
    }
}

impl Module {
    /// Whether `subrange` lies within `surrounding_range`.
    pub fn is_subrange(subrange: &Range, surrounding_range: &Range) -> (r: bool)
        ensures
            r == spec_is_subrange(*subrange, *surrounding_range),
    {
        subrange.start >= surrounding_range.start && subrange.end <= surrounding_range.end
    }

    /// Whether the two ranges share a coin.
    pub fn has_intersection(a: &Range, b: &Range) -> (r: bool)
        ensures
            r == spec_has_intersection(*a, *b),
    {
        let max_start = if a.start >= b.start { a.start } else { b.start };
        let min_end = if a.end <= b.end { a.end } else { b.end };
        max_start < min_end
    }

    /// The id of a state update: the hash of its SCALE bytes.
    pub fn get_id(su: &StateUpdate) -> (id: H256)
        requires
            state_update_wf(su@),
        ensures
            id@ == spec_get_id(su@),
    {
        let bytes = encode_state_update(su);
        blake2_256(bytes.as_slice())
    }

    /// The id of a property: the hash of its SCALE bytes.
    pub fn get_property_id(p: &Property) -> (id: H256)
        requires
            property_wf(p@),
        ensures
            id@ == spec_property_id(p@),
    {
        let bytes = encode_property(p);
        blake2_256(bytes.as_slice())
    }

    /// The property that this module makes of `bytes` under `label`.
    pub fn create_property(&self, bytes: &[u8], label: &[u8]) -> (p: Property)
        ensures
            p@ == spec_create_property(self.address@, bytes@, label@),
    {
        let a = copy_range(label, 0, label.len());
        let b = copy_range(bytes, 0, bytes.len());
        assert(a@ =~= label@);
        assert(b@ =~= bytes@);
        let mut inputs: Vec<Vec<u8>> = Vec::new();
        inputs.push(a);
        inputs.push(b);
        assert(byte_list_view(&inputs) =~= seq![label@, bytes@]);
        let p = Property { predicate_address: self.address, inputs };
        assert(p@ =~= spec_create_property(self.address@, bytes@, label@));
        p
    }

    /// A stored block root as 32 bytes: the first 32, padded with zeros.
    pub fn bytes_to_bytes32(b: &[u8]) -> (h: H256)
        ensures
            h@ == spec_bytes_to_bytes32(b@),
    {
        let mut h = [0u8; 32];
        let mut i: usize = 0;
        while i < 32 && i < b.len()
            invariant
                i <= 32,
                i <= b@.len(),
                forall|j: int| 0 <= j < i ==> h@[j] == b@[j],
                forall|j: int| i <= j < 32 ==> h@[j] == 0u8,
            decreases 32 - i,
        {
            h[i] = b[i];
            i = i + 1;
        }
        assert(h@ =~= spec_bytes_to_bytes32(b@));
        h
    }

    /// A checkpoint can let a state update exit when the state update's
    /// range lies within the checkpoint's and both are of the same block.
    /// Whether it does then rests on the checkpoint being finalized for the
    /// plasma app: its id is returned for that question; `None` where it
    /// cannot.
    pub fn checkpoint_exitable(state_update: &StateUpdate, checkpoint: &StateUpdate) -> (r: Option<H256>)
        requires
            state_update_wf(checkpoint@),
        ensures
            !(spec_is_subrange(state_update.range, checkpoint.range) && state_update.block_number
                == checkpoint.block_number) ==> r is None,
            spec_is_subrange(state_update.range, checkpoint.range) && state_update.block_number
                == checkpoint.block_number ==> (r matches Some(id) && id@ == spec_get_id(checkpoint@)),
    {
        if !Self::is_subrange(&state_update.range, &checkpoint.range) {
            return None;
        }
        if state_update.block_number != checkpoint.block_number {
            return None;
        }
        Some(Self::get_id(checkpoint))
    }

    /// Starts the exit claim of a state update. `inputs[0]` is the encoded
    /// state update. With two inputs and no witness, `inputs[1]` is a
    /// checkpoint that must let it exit: the claim then asks whether that
    /// checkpoint is finalized. Otherwise `witness[0]` is the proof that the
    /// state update is included in the root committed for its block: the
    /// claim then asks for that root. Nothing is asked on a refusal. The
    /// property to claim is that of `inputs[0]` under `EXIT_CLAIM`.
    pub fn bare_exit_claim(
        &self,
        plapps_id: &AccountId,
        inputs: &Vec<Vec<u8>>,
        witness: &Vec<Vec<u8>>,
    ) -> (res: Result<ExitClaim, ExitError>)
        requires
            !exit_claim_lacks_proof(byte_list_view(inputs), byte_list_view(witness)),
        ensures
            exit_claim_start_outcome(self.address@, *plapps_id, byte_list_view(inputs), byte_list_view(witness), res),
            res matches Ok(c) ==> state_update_wf(c.state_update@),
    {
        let ghost iv = byte_list_view(inputs);
        if inputs.len() < 1 {
            return Err(ExitError::InputsTooShort);
        }
        assert(iv[0] == inputs@[0]@);
        let state_update = match decode_state_update(inputs[0].as_slice()) {
            None => return Err(ExitError::DecodeError),
            Some(su) => su,
        };
        proof {
            crate::types::lemma_state_update_canonical(iv[0]);
        }
        let label = exit_claim_label();
        let property = self.create_property(inputs[0].as_slice(), label.as_slice());
        if witness.len() == 0 && inputs.len() == 2 {
            assert(iv[1] == inputs@[1]@);
            let checkpoint = match decode_state_update(inputs[1].as_slice()) {
                None => return Err(ExitError::DecodeError),
                Some(cp) => cp,
            };
            proof {
                crate::types::lemma_state_update_canonical(iv[1]);
            }
            let checkpoint_id = match Self::checkpoint_exitable(&state_update, &checkpoint) {
                None => return Err(ExitError::CheckpointNotExitable),
                Some(id) => id,
            };
            Ok(ExitClaim {
                request: ClaimRequest::Finalized { plapps_id: *plapps_id, checkpoint_id },
                property,
                state_update,
                inclusion_proof: Vec::new(),
            })
        } else {
            let block_key = encode_u32(state_update.block_number);
            assert(witness@[0]@ == byte_list_view(witness)[0]);
            let proof_bytes = copy_range(witness[0].as_slice(), 0, witness[0].len());
            assert(proof_bytes@ =~= byte_list_view(witness)[0]);
            Ok(ExitClaim {
                request: ClaimRequest::DecodeProof { plapps_id: *plapps_id, block_key },
                property,
                state_update,
                inclusion_proof: proof_bytes,
            })
        }
    }

    /// `bare_exit_claim` where it can proceed; `None` for a claim with
    /// neither a checkpoint nor an inclusion proof to go by.
    pub fn checked_exit_claim(
        &self,
        plapps_id: &AccountId,
        inputs: &Vec<Vec<u8>>,
        witness: &Vec<Vec<u8>>,
    ) -> (res: Option<Result<ExitClaim, ExitError>>)
        ensures
            res is None <==> exit_claim_lacks_proof(byte_list_view(inputs), byte_list_view(witness)),
            res matches Some(r) ==> exit_claim_start_outcome(
                self.address@,
                *plapps_id,
                byte_list_view(inputs),
                byte_list_view(witness),
                r,
            ),
    {
        if inputs.len() >= 1 && witness.len() == 0 && inputs.len() != 2 {
            assert(byte_list_view(inputs)[0] == inputs@[0]@);
            if decode_state_update(inputs[0].as_slice()).is_some() {
                return None;
            }
        }
        Some(self.bare_exit_claim(plapps_id, inputs, witness))
    }

    /// The answer of the storage whether the checkpoint is finalized: the
    /// claim is then to be filed, or refused.
    pub fn exit_claim_after_finalized(claim: ExitClaim, finalized: bool) -> (res: Result<ExitClaim, ExitError>)
        requires
            claim.request is Finalized,
        ensures
            finalized ==> (res matches Ok(c) && claim_moved(claim, c, ClaimRequest::File)),
            !finalized ==> res == Err::<ExitClaim, ExitError>(ExitError::CheckpointNotExitable),
    {
        if finalized {
            Ok(ExitClaim { request: ClaimRequest::File, ..claim })
        } else {
            Err(ExitError::CheckpointNotExitable)
        }
    }

    /// The answer whether the inclusion proof decodes: the root of the
    /// claim's block is then asked, or the claim refused.
    pub fn exit_claim_after_proof(claim: ExitClaim, decodes: bool) -> (res: Result<ExitClaim, ExitError>)
        requires
            claim.request is DecodeProof,
        ensures
            !decodes ==> res == Err::<ExitClaim, ExitError>(ExitError::DecodeError),
            decodes ==> (res matches Ok(c) && claim.request matches ClaimRequest::DecodeProof { plapps_id, block_key }
                && claim_moved(claim, c, ClaimRequest::Root { plapps_id, block_key })),
    {
        if !decodes {
            return Err(ExitError::DecodeError);
        }
        match claim.request {
            ClaimRequest::DecodeProof { plapps_id, block_key } => Ok(ExitClaim {
                request: ClaimRequest::Root { plapps_id, block_key },
                property: claim.property,
                state_update: claim.state_update,
                inclusion_proof: claim.inclusion_proof,
            }),
            _ => {
                assert(false);
                Err(ExitError::DecodeError)
            },
        }
    }

    /// The query to hand the inclusion verifier, given the bytes the storage
    /// holds as the root of the claim's block.
    pub fn exit_claim_inclusion_query(claim: &ExitClaim, stored_root: &[u8]) -> (q: InclusionQuery)
        requires
            claim.request is Root,
            state_update_wf(claim.state_update@),
        ensures
            q@ == spec_inclusion_query(claim.state_update@, claim.inclusion_proof@, stored_root@),
    {
        let root = Self::bytes_to_bytes32(stored_root);
        let leaf = Self::get_property_id(&claim.state_update.state_object);
        let q = InclusionQuery {
            leaf,
            token: claim.state_update.deposit_contract_address,
            range: claim.state_update.range,
            inclusion_proof: copy_range(claim.inclusion_proof.as_slice(), 0, claim.inclusion_proof.len()),
            root,
        };
        assert(q@ =~= spec_inclusion_query(claim.state_update@, claim.inclusion_proof@, stored_root@));
        q
    }

    /// The answer of the inclusion verifier: the claim is then to be filed,
    /// or refused.
    pub fn exit_claim_after_inclusion(claim: ExitClaim, included: bool) -> (res: Result<ExitClaim, ExitError>)
        requires
            claim.request is Root,
        ensures
            included ==> (res matches Ok(c) && claim_moved(claim, c, ClaimRequest::File)),
            !included ==> res == Err::<ExitClaim, ExitError>(ExitError::InclusionVerificationFailed),
    {
        if included {
            Ok(ExitClaim { request: ClaimRequest::File, ..claim })
        } else {
            Err(ExitError::InclusionVerificationFailed)
        }
    }

    /// The answer of the dispute manager to the claim of `claim.property`:
    /// its error is passed on, or the exit is reported as claimed.
    pub fn exit_claim_after_claim(claim: ExitClaim, answer: Result<(), ExitError>) -> (res: Result<ExitEvent, ExitError>)
        requires
            claim.request is File,
        ensures
            answer matches Err(e) ==> res == Err::<ExitEvent, ExitError>(e),
            answer is Ok ==> res == Ok::<ExitEvent, ExitError>(ExitEvent::ExitClaimed(claim.state_update)),
    {
        match answer {
            Err(e) => Err(e),
            Ok(()) => Ok(ExitEvent::ExitClaimed(claim.state_update)),
        }
    }

    /// The kind of a challenge from the hash of its label and the hashes of
    /// the two known labels; the spent label is tried first.
    pub fn challenge_kind(kind: &H256, spent: &H256, checkpoint: &H256) -> (k: ChallengeKind)
        ensures
            k == spec_challenge_kind(kind@, spent@, checkpoint@),
    {
        if hash_eq(kind, spent) {
            ChallengeKind::Spent
        } else if hash_eq(kind, checkpoint) {
            ChallengeKind::Checkpoint
        } else {
            ChallengeKind::Illegal
        }
    }

    /// The kind of the challenge whose label is `label`, by hashes.
    pub fn label_kind(label: &[u8]) -> (k: ChallengeKind)
        requires
            label@.len() < 0x1_0000_0000,
        ensures
            k == spec_label_kind(label@),
    {
        let kind = hash_of_bytes(label);
        let spent_label = exit_spent_challenge_label();
        let checkpoint_label = exit_checkpoint_challenge_label();
        let spent = hash_of_bytes(spent_label.as_slice());
        let checkpoint = hash_of_bytes(checkpoint_label.as_slice());
        Self::challenge_kind(&kind, &spent, &checkpoint)
    }

    /// The spent challenge: the transaction `challenge_inputs[0]` spends the
    /// coins of the state update `inputs[0]` when it is of the same deposit
    /// contract, its range meets the state update's, and it is valid up to a
    /// block no earlier than the state update's; the refusals come in that
    /// order. What remains is the decision of the state object's predicate
    /// on the state object's first input and the transaction, with
    /// `witness`: the query for it is returned, to be asked once.
    pub fn validate_spent_challenge(
        inputs: &Vec<Vec<u8>>,
        challenge_inputs: &Vec<Vec<u8>>,
        witness: &Vec<Vec<u8>>,
    ) -> (r: Result<DecideQuery, ExitError>)
        requires
            inputs@.len() >= 1,
            challenge_inputs@.len() >= 1,
            !spent_challenge_lacks_state_input(inputs@[0]@, challenge_inputs@[0]@),
        ensures
            match spec_spent_challenge(inputs@[0]@, challenge_inputs@[0]@, byte_list_view(witness)) {
                Err(e) => r == Err::<DecideQuery, ExitError>(e),
                Ok(q) => r matches Ok(x) && x@ == q,
            },
    {
        let state_update = match decode_state_update(inputs[0].as_slice()) {
            None => return Err(ExitError::DecodeError),
            Some(su) => su,
        };
        let transaction = match decode_transaction(challenge_inputs[0].as_slice()) {
            None => return Err(ExitError::DecodeError),
            Some(tx) => tx,
        };
        if !hash_eq(&transaction.deposit_contract_address, &state_update.deposit_contract_address) {
            return Err(ExitError::TokenMismatch);
        }
        if !Self::has_intersection(&transaction.range, &state_update.range) {
            return Err(ExitError::NoIntersection);
        }
        if transaction.max_block_number < state_update.block_number {
            return Err(ExitError::InvalidBlockNumber);
        }
        let so = &state_update.state_object;
        assert(so.inputs@.len() > 0);
        let first = copy_range(so.inputs[0].as_slice(), 0, so.inputs[0].len());
        let spender = copy_range(challenge_inputs[0].as_slice(), 0, challenge_inputs[0].len());
        assert(first@ =~= so.inputs@[0]@);
        assert(spender@ =~= challenge_inputs@[0]@);
        let mut decide_inputs: Vec<Vec<u8>> = Vec::new();
        decide_inputs.push(first);
        decide_inputs.push(spender);
        let q = DecideQuery {
            predicate_address: so.predicate_address,
            inputs: decide_inputs,
            witness: copy_byte_list(witness),
        };
        proof {
            assert(byte_list_view(&so.inputs)[0] == so.inputs@[0]@);
            assert(byte_list_view(&q.inputs) =~= seq![byte_list_view(&so.inputs)[0], challenge_inputs@[0]@]);
            assert(q@ =~= (DecideQueryModel {
                predicate_address: state_update@.state_object.predicate_address,
                inputs: seq![state_update@.state_object.inputs[0], challenge_inputs@[0]@],
                witness: byte_list_view(witness),
            }));
        }
        Ok(q)
    }

    /// Starts the challenge of a claimed exit. `inputs[0]` is the encoded
    /// state update whose exit is challenged; `challenge_inputs[0]` names the
    /// kind of challenge, by the hash of its label: `EXIT_SPENT_CHALLENGE`,
    /// with the spending transaction in `challenge_inputs[1]` and the
    /// signature as the one witness, or `EXIT_CHECKPOINT_CHALLENGE`, with an
    /// earlier state update in `challenge_inputs[1]` and no witness (or one).
    /// A spent challenge is checked, then asks the predicate; a checkpoint
    /// challenge asks the validator. Nothing is asked on a refusal.
    pub fn bare_exit_challenge(
        &self,
        inputs: &Vec<Vec<u8>>,
        challenge_inputs: &Vec<Vec<u8>>,
        witness: &Vec<Vec<u8>>,
    ) -> (res: Result<ChallengeValidation, ExitError>)
        requires
            hashed_inputs_fit(byte_list_view(inputs), byte_list_view(challenge_inputs)),
            !exit_challenge_lacks_state_input(
                byte_list_view(inputs),
                byte_list_view(challenge_inputs),
                byte_list_view(witness),
            ),
        ensures
            exit_challenge_start_outcome(
                self.address@,
                byte_list_view(inputs),
                byte_list_view(challenge_inputs),
                byte_list_view(witness),
                res,
            ),
    {
        let ghost iv = byte_list_view(inputs);
        let ghost cv = byte_list_view(challenge_inputs);
        if inputs.len() != 1 {
            return Err(ExitError::InputsLength);
        }
        let checkpoint_labelled = if challenge_inputs.len() == 2 {
            assert(cv[0] == challenge_inputs@[0]@);
            assert(cv[0].len() < 0x1_0000_0000);
            Self::label_kind(challenge_inputs[0].as_slice()) == ChallengeKind::Checkpoint
        } else {
            false
        };
        if checkpoint_labelled {
            if witness.len() > 1 {
                return Err(ExitError::WitnessLength);
            }
        } else if witness.len() != 1 {
            return Err(ExitError::WitnessLength);
        }
        if challenge_inputs.len() != 2 {
            return Err(ExitError::ChallengeInputsLength);
        }
        assert(iv[0] == inputs@[0]@);
        assert(cv[0] == challenge_inputs@[0]@);
        assert(cv[1] == challenge_inputs@[1]@);
        assert(iv[0].len() < 0x1_0000_0000);
        assert(cv[0].len() < 0x1_0000_0000);
        let state_update = match decode_state_update(inputs[0].as_slice()) {
            None => return Err(ExitError::DecodeError),
            Some(su) => su,
        };
        let claim_label = exit_claim_label();
        let claimed = self.create_property(inputs[0].as_slice(), claim_label.as_slice());
        assert(property_wf(claimed@));
        let claim_id = Self::get_property_id(&claimed);
        let challenge_input = copy_range(challenge_inputs[1].as_slice(), 0, challenge_inputs[1].len());
        assert(challenge_input@ =~= cv[1]);
        let kind = Self::label_kind(challenge_inputs[0].as_slice());
        if kind == ChallengeKind::Spent {
            let spender_bytes = copy_range(challenge_inputs[1].as_slice(), 0, challenge_inputs[1].len());
            assert(spender_bytes@ =~= cv[1]);
            let mut spent_inputs: Vec<Vec<u8>> = Vec::new();
            spent_inputs.push(spender_bytes);
            assert(spent_inputs@[0]@ == cv[1]);
            let query = match Self::validate_spent_challenge(inputs, &spent_inputs, witness) {
                Err(e) => return Err(e),
                Ok(q) => q,
            };
            let spent_label = exit_spent_challenge_label();
            let challenge_property = self.create_property(challenge_inputs[0].as_slice(), spent_label.as_slice());
            let challenge = ExitChallenge { state_update, claimed, claim_id, challenge_property, challenge_input };
            Ok(ChallengeValidation::Decide { query, challenge })
        } else if kind == ChallengeKind::Checkpoint {
            let challenger_bytes = copy_range(challenge_inputs[1].as_slice(), 0, challenge_inputs[1].len());
            assert(challenger_bytes@ =~= cv[1]);
            let mut checkpoint_inputs: Vec<Vec<u8>> = Vec::new();
            checkpoint_inputs.push(challenger_bytes);
            assert(byte_list_view(&checkpoint_inputs) =~= seq![cv[1]]);
            let checkpoint_label = exit_checkpoint_challenge_label();
            let challenge_property = self.create_property(challenge_inputs[1].as_slice(), checkpoint_label.as_slice());
            let challenge = ExitChallenge { state_update, claimed, claim_id, challenge_property, challenge_input };
            Ok(ChallengeValidation::ValidateCheckpoint {
                inputs: copy_byte_list(inputs),
                challenge_inputs: checkpoint_inputs,
                witness: copy_byte_list(witness),
                challenge,
            })
        } else {
            Err(ExitError::IllegalChallengeType)
        }
    }

    /// Whether a challenge of these inputs is a spent challenge that would
    /// reach the predicate with a state object that has no input.
    pub fn exit_challenge_lacks_state_input_check(
        inputs: &Vec<Vec<u8>>,
        challenge_inputs: &Vec<Vec<u8>>,
        witness: &Vec<Vec<u8>>,
    ) -> (b: bool)
        requires
            hashed_inputs_fit(byte_list_view(inputs), byte_list_view(challenge_inputs)),
        ensures
            b == exit_challenge_lacks_state_input(
                byte_list_view(inputs),
                byte_list_view(challenge_inputs),
                byte_list_view(witness),
            ),
    {
        let ghost iv = byte_list_view(inputs);
        let ghost cv = byte_list_view(challenge_inputs);
        if inputs.len() != 1 || witness.len() != 1 || challenge_inputs.len() != 2 {
            return false;
        }
        assert(iv[0] == inputs@[0]@);
        assert(cv[0] == challenge_inputs@[0]@);
        assert(cv[1] == challenge_inputs@[1]@);
        assert(cv[0].len() < 0x1_0000_0000);
        let state_update = match decode_state_update(inputs[0].as_slice()) {
            None => return false,
            Some(su) => su,
        };
        if Self::label_kind(challenge_inputs[0].as_slice()) != ChallengeKind::Spent {
            return false;
        }
        let transaction = match decode_transaction(challenge_inputs[1].as_slice()) {
            None => return false,
            Some(tx) => tx,
        };
        hash_eq(&transaction.deposit_contract_address, &state_update.deposit_contract_address)
            && Self::has_intersection(&transaction.range, &state_update.range)
            && transaction.max_block_number >= state_update.block_number
            && state_update.state_object.inputs.len() == 0
    }

    /// `bare_exit_challenge` where it can proceed; `None` for a spent
    /// challenge whose state object has no input to hand the predicate.
    pub fn checked_exit_challenge(
        &self,
        inputs: &Vec<Vec<u8>>,
        challenge_inputs: &Vec<Vec<u8>>,
        witness: &Vec<Vec<u8>>,
    ) -> (res: Option<Result<ChallengeValidation, ExitError>>)
        requires
            hashed_inputs_fit(byte_list_view(inputs), byte_list_view(challenge_inputs)),
        ensures
            res is None <==> exit_challenge_lacks_state_input(
                byte_list_view(inputs),
                byte_list_view(challenge_inputs),
                byte_list_view(witness),
            ),
            res matches Some(r) ==> exit_challenge_start_outcome(
                self.address@,
                byte_list_view(inputs),
                byte_list_view(challenge_inputs),
                byte_list_view(witness),
                r,
            ),
    {
        if Self::exit_challenge_lacks_state_input_check(inputs, challenge_inputs, witness) {
            None
        } else {
            Some(self.bare_exit_challenge(inputs, challenge_inputs, witness))
        }
    }

    /// The predicate's decision on a spent challenge: refused, or validated
    /// with `ExitSpentChallenged` to report now.
    pub fn exit_challenge_decided(v: ChallengeValidation, decided: bool) -> (res: Result<ChallengeReady, ExitError>)
        requires
            v is Decide,
        ensures
            !decided ==> res == Err::<ChallengeReady, ExitError>(ExitError::DecidedFalse),
            decided ==> (res matches Ok(r) && ready_fits(r, validation_challenge(v)) && r.event
                == ExitEvent::ExitSpentChallenged(validation_challenge(v).state_update)),
    {
        match v {
            ChallengeValidation::Decide { query: _, challenge } => {
                if !decided {
                    return Err(ExitError::DecidedFalse);
                }
                Ok(ChallengeReady {
                    stage: ChallengeStage::AskStarted,
                    event: ExitEvent::ExitSpentChallenged(challenge.state_update),
                    claimed: challenge.claimed,
                    claim_id: challenge.claim_id,
                    challenge_property: challenge.challenge_property,
                })
            },
            ChallengeValidation::ValidateCheckpoint { .. } => {
                assert(false);
                Err(ExitError::DecidedFalse)
            },
        }
    }

    /// The validator's answer on a checkpoint challenge: its error is passed
    /// on; otherwise the earlier state update must decode, and the challenge
    /// is validated with `ExitCheckpointChallenged` to report now.
    pub fn exit_challenge_validated(v: ChallengeValidation, answer: Result<(), ExitError>) -> (res: Result<ChallengeReady, ExitError>)
        requires
            v is ValidateCheckpoint,
        ensures
            answer matches Err(e) ==> res == Err::<ChallengeReady, ExitError>(e),
            answer is Ok ==> match spec_decode_state_update(validation_challenge(v).challenge_input@) {
                None => res == Err::<ChallengeReady, ExitError>(ExitError::DecodeError),
                Some((challenger, _)) => {
                    &&& res matches Ok(r)
                    &&& ready_fits(r, validation_challenge(v))
                    &&& r.event matches ExitEvent::ExitCheckpointChallenged(x, y)
                    &&& x == validation_challenge(v).state_update
                    &&& y@ == challenger
                },
            },
    {
        match v {
            ChallengeValidation::ValidateCheckpoint { inputs: _, challenge_inputs: _, witness: _, challenge } => {
                match answer {
                    Err(e) => Err(e),
                    Ok(()) => match decode_state_update(challenge.challenge_input.as_slice()) {
                        None => Err(ExitError::DecodeError),
                        Some(challenger) => Ok(ChallengeReady {
                            stage: ChallengeStage::AskStarted,
                            event: ExitEvent::ExitCheckpointChallenged(challenge.state_update, challenger),
                            claimed: challenge.claimed,
                            claim_id: challenge.claim_id,
                            challenge_property: challenge.challenge_property,
                        }),
                    },
                }
            },
            ChallengeValidation::Decide { .. } => {
                assert(false);
                Err(ExitError::DecodeError)
            },
        }
    }

    /// The dispute manager's answer whether the claim `ready.claim_id` has
    /// started: refused, or the challenge is to be filed.
    pub fn exit_challenge_after_started(ready: ChallengeReady, started: bool) -> (res: Result<ChallengeReady, ExitError>)
        requires
            ready.stage == ChallengeStage::AskStarted,
        ensures
            !started ==> res == Err::<ChallengeReady, ExitError>(ExitError::ClaimNotFound),
            started ==> res == Ok::<ChallengeReady, ExitError>(ChallengeReady { stage: ChallengeStage::File, ..ready }),
    {
        if started {
            Ok(ChallengeReady { stage: ChallengeStage::File, ..ready })
        } else {
            Err(ExitError::ClaimNotFound)
        }
    }

    /// Removing a challenge of an exit asks nothing and always succeeds.
    pub fn bare_exit_remove_challenge(
        inputs: Vec<Vec<u8>>,
        challenge_inputs: Vec<Vec<u8>>,
        witness: Vec<Vec<u8>>,
    ) -> (res: Result<(), ExitError>)
        ensures
            res is Ok,
    {
        Ok(())
    }

    /// Starts the settlement of a claimed exit: with one input, the property
    /// of `inputs[0]` under `EXIT_CLAIM` is to be handed to the dispute
    /// manager's `settle_game`. Nothing is asked on a refusal.
    pub fn bare_exit_settle(&self, inputs: &Vec<Vec<u8>>) -> (res: Result<Property, ExitError>)
        ensures
            inputs@.len() != 1 ==> res == Err::<Property, ExitError>(ExitError::InputsLength),
            inputs@.len() == 1 ==> (res matches Ok(p) && p@ == spec_create_property(
                self.address@,
                byte_list_view(inputs)[0],
                spec_exit_claim_label(),
            )),
    {
        if inputs.len() != 1 {
            return Err(ExitError::InputsLength);
        }
        assert(byte_list_view(inputs)[0] == inputs@[0]@);
        let label = exit_claim_label();
        Ok(self.create_property(inputs[0].as_slice(), label.as_slice()))
    }

    /// The answer of `settle_game`: its error is passed on; otherwise the
    /// state update of `inputs[0]` is reported as settled, or refused where
    /// it does not decode.
    pub fn exit_settle_after_settle(inputs: &Vec<Vec<u8>>, answer: Result<Decision, ExitError>) -> (res: Result<ExitEvent, ExitError>)
        requires
            inputs@.len() == 1,
        ensures
            answer matches Err(e) ==> res == Err::<ExitEvent, ExitError>(e),
            answer is Ok ==> match spec_decode_state_update(byte_list_view(inputs)[0]) {
                None => res == Err::<ExitEvent, ExitError>(ExitError::DecodeError),
                Some((su, _)) => res matches Ok(ExitEvent::ExitSettled(x, true)) && x@ == su,
            },
    {
        assert(byte_list_view(inputs)[0] == inputs@[0]@);
        match answer {
            Err(e) => Err(e),
            Ok(_) => match decode_state_update(inputs[0].as_slice()) {
                None => Err(ExitError::DecodeError),
                Some(su) => Ok(ExitEvent::ExitSettled(su, true)),
            },
        }
    }

    /// The property of the exit claim of `su` under this module.
    pub fn exit_claim_property(&self, su: &StateUpdate) -> (p: Property)
        requires
            state_update_wf(su@),
        ensures
            p@ == spec_create_property(self.address@, spec_encode_state_update(su@), spec_exit_claim_label()),
    {
        let bytes = encode_state_update(su);
        let label = exit_claim_label();
        self.create_property(bytes.as_slice(), label.as_slice())
    }

    /// The decision of the game of the exit claim of `su`, as `get_game`
    /// answers it for the id of the claim's property.
    pub fn get_claim_decision<G: Fn(&H256) -> Option<Decision>>(
        &self,
        su: &StateUpdate,
        get_game: G,
    ) -> (d: Option<Decision>)
        requires
            state_update_wf(su@),
            spec_encode_state_update(su@).len() < 0x1_0000_0000,
            forall|h: &H256| get_game.requires((h,)),
        ensures
            exists|h: H256|
                h@ == spec_property_id(
                    spec_create_property(self.address@, spec_encode_state_update(su@), spec_exit_claim_label()),
                ) && #[trigger] get_game.ensures((&h,), d),
    {
        let p = self.exit_claim_property(su);
        assert(byte_list_view(&p.inputs) =~= p@.inputs);
        let id = Self::get_property_id(&p);
        get_game(&id)
    }

    /// Whether the exit of `su` can be completed: whether the game of its
    /// claim can be decided, as `is_decidable` answers it for the id of the
    /// claim's property.
    pub fn is_completable<G: Fn(&H256) -> bool>(&self, su: &StateUpdate, is_decidable: G) -> (b: bool)
        requires
            state_update_wf(su@),
            spec_encode_state_update(su@).len() < 0x1_0000_0000,
            forall|h: &H256| is_decidable.requires((h,)),
        ensures
            exists|h: H256|
                h@ == spec_property_id(
                    spec_create_property(self.address@, spec_encode_state_update(su@), spec_exit_claim_label()),
                ) && #[trigger] is_decidable.ensures((&h,), b),
    {
        let p = self.exit_claim_property(su);
        let id = Self::get_property_id(&p);
        is_decidable(&id)
    }
}

} // verus!
