//! The plasma data types that travel as SCALE bytes: ranges of coins,
//! properties, state updates and transactions, with their wire format.

use vstd::prelude::*;
use crate::scale::{
    byte_list_view, byte_list_wf, le_bytes, le_value, lemma_decode_byte_list_canonical,
    lemma_decode_byte_list_roundtrip, lemma_le_bytes_len, lemma_le_bytes_of_value,
    lemma_le_value_bound, lemma_le_value_of_bytes, lemma_pow256_values, read_byte_list, read_le,
    spec_decode_byte_list, spec_encode_byte_list, encode_byte_list, encode_u128, encode_u32,
};

verus! {

/// An account: 32 bytes.
pub type AccountId = [u8; 32];

/// A 256-bit hash.
pub type H256 = [u8; 32];

/// Number of a plasma block.
pub type BlockNumber = u32;

/// Amount of coins.
pub type Balance = u128;

/// A range of coins `[start, end)` of one deposit contract.
#[derive(Clone, Copy, Debug, PartialEq, Eq, Structural)]
pub struct Range {
    pub start: Balance,
    pub end: Balance,
}

/// A claim that a predicate decides on its inputs.
#[derive(Clone, Debug, PartialEq, Eq)]
pub struct Property {
    pub predicate_address: AccountId,
    pub inputs: Vec<Vec<u8>>,
}

/// What a [`Property`] holds.
#[verifier::ext_equal]
pub struct PropertyModel {
    pub predicate_address: Seq<u8>,
    pub inputs: Seq<Seq<u8>>,
}

impl View for Property {
    type V = PropertyModel;

    open spec fn view(&self) -> PropertyModel {
        PropertyModel { predicate_address: self.predicate_address@, inputs: byte_list_view(&self.inputs) }
    }
}

/// The state of a range of coins as of a plasma block.
#[derive(Clone, Debug, PartialEq, Eq)]
pub struct StateUpdate {
    pub deposit_contract_address: AccountId,
    pub range: Range,
    pub block_number: BlockNumber,
    pub state_object: Property,
}

/// What a [`StateUpdate`] holds.
#[verifier::ext_equal]
pub struct StateUpdateModel {
    pub deposit_contract_address: Seq<u8>,
    pub range: Range,
    pub block_number: BlockNumber,
    pub state_object: PropertyModel,
}

impl View for StateUpdate {
    type V = StateUpdateModel;

    open spec fn view(&self) -> StateUpdateModel {
        StateUpdateModel {
            deposit_contract_address: self.deposit_contract_address@,
            range: self.range,
            block_number: self.block_number,
            state_object: self.state_object@,
        }
    }
}

/// A transfer of a range of coins to a new state object, valid up to a block.
#[derive(Clone, Debug, PartialEq, Eq)]
pub struct Transaction {
    pub deposit_contract_address: AccountId,
    pub range: Range,
    pub max_block_number: BlockNumber,
    pub next_state_object: Property,
}

/// What a [`Transaction`] holds.
#[verifier::ext_equal]
pub struct TransactionModel {
    pub deposit_contract_address: Seq<u8>,
    pub range: Range,
    pub max_block_number: BlockNumber,
    pub next_state_object: PropertyModel,
}

impl View for Transaction {
    type V = TransactionModel;

    open spec fn view(&self) -> TransactionModel {
        TransactionModel {
            deposit_contract_address: self.deposit_contract_address@,
            range: self.range,
            max_block_number: self.max_block_number,
            next_state_object: self.next_state_object@,
        }
    }
}

// ---------------------------------------------------------------- wire format

pub open spec fn spec_encode_range(r: Range) -> Seq<u8> {
    le_bytes(r.start as nat, 16) + le_bytes(r.end as nat, 16)
}

/// The range held by the first 32 bytes of `s`.
pub open spec fn spec_range_of(s: Seq<u8>) -> Range {
    Range { start: le_value(s.take(16)) as u128, end: le_value(s.subrange(16, 32)) as u128 }
}

pub open spec fn spec_encode_property(p: PropertyModel) -> Seq<u8> {
    p.predicate_address + spec_encode_byte_list(p.inputs)
}

pub open spec fn spec_encode_state_update(su: StateUpdateModel) -> Seq<u8> {
    su.deposit_contract_address + spec_encode_range(su.range) + le_bytes(su.block_number as nat, 4)
        + spec_encode_property(su.state_object)
}

pub open spec fn spec_encode_transaction(tx: TransactionModel) -> Seq<u8> {
    tx.deposit_contract_address + spec_encode_range(tx.range) + le_bytes(
        tx.max_block_number as nat,
        4,
    ) + spec_encode_property(tx.next_state_object)
}

/// Reads a property at the start of `s`: 32 address bytes, then the inputs.
pub open spec fn spec_decode_property(s: Seq<u8>) -> Option<(PropertyModel, nat)> {
    if s.len() < 32 {
        None
    } else {
        match spec_decode_byte_list(s.skip(32)) {
            None => None,
            Some((inputs, n)) => Some(
                (PropertyModel { predicate_address: s.take(32), inputs }, 32 + n),
            ),
        }
    }
}

/// Reads a state update at the start of `s`: 32 address bytes, 32 bytes of
/// range, 4 bytes of block number, then the state object.
pub open spec fn spec_decode_state_update(s: Seq<u8>) -> Option<(StateUpdateModel, nat)> {
    if s.len() < 68 {
        None
    } else {
        match spec_decode_property(s.skip(68)) {
            None => None,
            Some((p, n)) => Some(
                (
                    StateUpdateModel {
                        deposit_contract_address: s.take(32),
                        range: spec_range_of(s.subrange(32, 64)),
                        block_number: le_value(s.subrange(64, 68)) as u32,
                        state_object: p,
                    },
                    68 + n,
                ),
            ),
        }
    }
}

/// Reads a transaction at the start of `s`, laid out as a state update is.
pub open spec fn spec_decode_transaction(s: Seq<u8>) -> Option<(TransactionModel, nat)> {
    match spec_decode_state_update(s) {
        None => None,
        Some((su, n)) => Some(
            (
                TransactionModel {
                    deposit_contract_address: su.deposit_contract_address,
                    range: su.range,
                    max_block_number: su.block_number,
                    next_state_object: su.state_object,
                },
                n,
            ),
        ),
    }
}

pub open spec fn property_wf(p: PropertyModel) -> bool {
    p.predicate_address.len() == 32 && byte_list_wf(p.inputs)
}

pub open spec fn state_update_wf(su: StateUpdateModel) -> bool {
    su.deposit_contract_address.len() == 32 && property_wf(su.state_object)
}

pub open spec fn transaction_wf(tx: TransactionModel) -> bool {
    tx.deposit_contract_address.len() == 32 && property_wf(tx.next_state_object)
}

// ---------------------------------------------------------------- laws

proof fn lemma_range_roundtrip(r: Range, rest: Seq<u8>)
    ensures
        spec_encode_range(r).len() == 32,
        spec_range_of(spec_encode_range(r) + rest) == r,
{
    lemma_pow256_values();
    lemma_le_bytes_len(r.start as nat, 16);
    lemma_le_bytes_len(r.end as nat, 16);
    lemma_le_value_of_bytes(r.start as nat, 16);
    lemma_le_value_of_bytes(r.end as nat, 16);
    let s = spec_encode_range(r) + rest;
    assert(s.take(16) =~= le_bytes(r.start as nat, 16));
    assert(s.subrange(16, 32) =~= le_bytes(r.end as nat, 16));
}

proof fn lemma_range_canonical(s: Seq<u8>)
    requires
        s.len() >= 32,
    ensures
        spec_encode_range(spec_range_of(s)) == s.take(32),
{
    lemma_pow256_values();
    lemma_le_value_bound(s.take(16));
    lemma_le_value_bound(s.subrange(16, 32));
    lemma_le_bytes_of_value(s.take(16));
    lemma_le_bytes_of_value(s.subrange(16, 32));
    assert(s.take(32) =~= s.take(16) + s.subrange(16, 32));
}

/// Reading back an encoded property, whatever follows it, gives the property.
pub proof fn lemma_property_roundtrip(p: PropertyModel, rest: Seq<u8>)
    requires
        property_wf(p),
    ensures
        spec_decode_property(spec_encode_property(p) + rest) == Some((p, spec_encode_property(p).len())),
{
    let s = spec_encode_property(p) + rest;
    let l = spec_encode_byte_list(p.inputs);
    assert(s.skip(32) =~= l + rest);
    assert(s.take(32) =~= p.predicate_address);
    lemma_decode_byte_list_roundtrip(p.inputs, rest);
}

/// What the property reader accepts is exactly the encoding of what it returns.
pub proof fn lemma_property_canonical(s: Seq<u8>)
    requires
        spec_decode_property(s) is Some,
    ensures
        property_wf(spec_decode_property(s).unwrap().0),
        spec_decode_property(s).unwrap().1 <= s.len(),
        s.take(spec_decode_property(s).unwrap().1 as int) == spec_encode_property(spec_decode_property(s).unwrap().0),
{
    let t = s.skip(32);
    lemma_decode_byte_list_canonical(t);
    let (l, n) = spec_decode_byte_list(t).unwrap();
    assert(s.take((32 + n) as int) =~= s.take(32) + t.take(n as int));
}

/// Reading back an encoded state update, whatever follows it, gives the
/// state update and the length of its encoding.
pub proof fn lemma_state_update_roundtrip(su: StateUpdateModel, rest: Seq<u8>)
    requires
        state_update_wf(su),
    ensures
        spec_decode_state_update(spec_encode_state_update(su) + rest) == Some(
            (su, spec_encode_state_update(su).len()),
        ),
{
    lemma_pow256_values();
    let r = spec_encode_range(su.range);
    let b = le_bytes(su.block_number as nat, 4);
    let p = spec_encode_property(su.state_object);
    lemma_le_bytes_len(su.block_number as nat, 4);
    lemma_le_value_of_bytes(su.block_number as nat, 4);
    lemma_range_roundtrip(su.range, Seq::empty());
    assert(r + Seq::<u8>::empty() =~= r);
    let s = spec_encode_state_update(su) + rest;
    assert(s.take(32) =~= su.deposit_contract_address);
    assert(s.subrange(32, 64) =~= r);
    assert(s.subrange(64, 68) =~= b);
    assert(s.skip(68) =~= p + rest);
    lemma_property_roundtrip(su.state_object, rest);
    let (d, n) = spec_decode_state_update(s).unwrap();
    assert(d =~= su);
}

/// What the state update reader accepts is exactly the encoding of what it
/// returns.
pub proof fn lemma_state_update_canonical(s: Seq<u8>)
    requires
        spec_decode_state_update(s) is Some,
    ensures
        state_update_wf(spec_decode_state_update(s).unwrap().0),
        spec_decode_state_update(s).unwrap().1 <= s.len(),
        s.take(spec_decode_state_update(s).unwrap().1 as int) == spec_encode_state_update(
            spec_decode_state_update(s).unwrap().0,
        ),
{
    lemma_pow256_values();
    let t = s.skip(68);
    lemma_property_canonical(t);
    let (p, n) = spec_decode_property(t).unwrap();
    lemma_range_canonical(s.subrange(32, 64));
    lemma_le_value_bound(s.subrange(64, 68));
    lemma_le_bytes_of_value(s.subrange(64, 68));
    assert(s.subrange(32, 64).take(32) =~= s.subrange(32, 64));
    assert(s.take((68 + n) as int) =~= s.take(32) + s.subrange(32, 64) + s.subrange(64, 68) + t.take(n as int));
}

/// Reading back an encoded transaction gives the transaction.
pub proof fn lemma_transaction_roundtrip(tx: TransactionModel, rest: Seq<u8>)
    requires
        transaction_wf(tx),
    ensures
        spec_decode_transaction(spec_encode_transaction(tx) + rest) == Some(
            (tx, spec_encode_transaction(tx).len()),
        ),
{
    let su = StateUpdateModel {
        deposit_contract_address: tx.deposit_contract_address,
        range: tx.range,
        block_number: tx.max_block_number,
        state_object: tx.next_state_object,
    };
    lemma_state_update_roundtrip(su, rest);
    assert(spec_encode_state_update(su) == spec_encode_transaction(tx));
}

/// What the transaction reader accepts is exactly the encoding of what it
/// returns.
pub proof fn lemma_transaction_canonical(s: Seq<u8>)
    requires
        spec_decode_transaction(s) is Some,
    ensures
        transaction_wf(spec_decode_transaction(s).unwrap().0),
        spec_decode_transaction(s).unwrap().1 <= s.len(),
        s.take(spec_decode_transaction(s).unwrap().1 as int) == spec_encode_transaction(
            spec_decode_transaction(s).unwrap().0,
        ),
{
    lemma_state_update_canonical(s);
}

// ---------------------------------------------------------------- writers and readers

/// Reads the 32 bytes of `s` at `pos` as an account or a hash.
pub fn read_bytes32(s: &[u8], pos: usize) -> (a: [u8; 32])
    requires
        pos + 32 <= s@.len(),
    ensures
        a@ == s@.subrange(pos as int, pos + 32),
{
    let mut a = [0u8; 32];
    let mut i: usize = 0;
    while i < 32
        invariant
            i <= 32,
            pos + 32 <= s@.len(),
            s@.len() == s.len(),
            forall|j: int| 0 <= j < i ==> a@[j] == s@[pos + j],
        decreases 32 - i,
    {
        a[i] = s[pos + i];
        i = i + 1;
    }
    assert(a@ =~= s@.subrange(pos as int, pos + 32));
    a
}

/// Appends the 32 bytes of `a` to `out`.
pub fn write_bytes32(out: &mut Vec<u8>, a: &[u8; 32])
    ensures
        final(out)@ == old(out)@ + a@,
{
    let mut i: usize = 0;
    while i < 32
        invariant
            i <= 32,
            out@ == old(out)@ + a@.take(i as int),
        decreases 32 - i,
    {
        out.push(a[i]);
        assert(a@.take(i + 1) =~= a@.take(i as int).push(a@[i as int]));
        i = i + 1;
    }
    assert(a@.take(32) =~= a@);
}

fn write_range(out: &mut Vec<u8>, r: Range)
    ensures
        final(out)@ == old(out)@ + spec_encode_range(r),
{
    let mut a = encode_u128(r.start);
    let mut b = encode_u128(r.end);
    out.append(&mut a);
    out.append(&mut b);
    assert(out@ =~= old(out)@ + spec_encode_range(r));
}

fn write_property(out: &mut Vec<u8>, p: &Property)
    requires
        property_wf(p@),
    ensures
        final(out)@ == old(out)@ + spec_encode_property(p@),
{
    write_bytes32(out, &p.predicate_address);
    let mut l = encode_byte_list(&p.inputs);
    out.append(&mut l);
    assert(out@ =~= old(out)@ + spec_encode_property(p@));
}

fn write_state_update(out: &mut Vec<u8>, su: &StateUpdate)
    requires
        state_update_wf(su@),
    ensures
        final(out)@ == old(out)@ + spec_encode_state_update(su@),
{
    write_bytes32(out, &su.deposit_contract_address);
    write_range(out, su.range);
    let mut n = encode_u32(su.block_number);
    out.append(&mut n);
    write_property(out, &su.state_object);
    assert(out@ =~= old(out)@ + spec_encode_state_update(su@));
}

/// The SCALE bytes of a property.
pub fn encode_property(p: &Property) -> (r: Vec<u8>)
    requires
        property_wf(p@),
    ensures
        r@ == spec_encode_property(p@),
{
    let mut out: Vec<u8> = Vec::new();
    write_property(&mut out, p);
    assert(out@ =~= spec_encode_property(p@));
    out
}

/// The SCALE bytes of a state update.
pub fn encode_state_update(su: &StateUpdate) -> (r: Vec<u8>)
    requires
        state_update_wf(su@),
    ensures
        r@ == spec_encode_state_update(su@),
{
    let mut out: Vec<u8> = Vec::new();
    write_state_update(&mut out, su);
    assert(out@ =~= spec_encode_state_update(su@));
    out
}

/// The SCALE bytes of a transaction.
pub fn encode_transaction(tx: &Transaction) -> (r: Vec<u8>)
    requires
        transaction_wf(tx@),
    ensures
        r@ == spec_encode_transaction(tx@),
{
    let mut out: Vec<u8> = Vec::new();
    write_bytes32(&mut out, &tx.deposit_contract_address);
    write_range(&mut out, tx.range);
    let mut n = encode_u32(tx.max_block_number);
    out.append(&mut n);
    write_property(&mut out, &tx.next_state_object);
    assert(out@ =~= spec_encode_transaction(tx@));
    out
}

fn read_property(s: &[u8], pos: usize) -> (r: Option<(Property, usize)>)
    requires
        pos <= s@.len(),
    ensures
        match spec_decode_property(s@.skip(pos as int)) {
            None => r is None,
            Some((p, n)) => r matches Some((v, q)) && v@ == p && q == pos + n,
        },
{
    let ghost t = s@.skip(pos as int);
    if s.len() - pos < 32 {
        return None;
    }
    let predicate_address = read_bytes32(s, pos);
    assert(s@.skip(pos + 32) =~= t.skip(32));
    match read_byte_list(s, pos + 32) {
        None => None,
        Some((inputs, q)) => {
            let p = Property { predicate_address, inputs };
            assert(p@ =~= spec_decode_property(t).unwrap().0);
            Some((p, q))
        },
    }
}

fn read_state_update(s: &[u8], pos: usize) -> (r: Option<(StateUpdate, usize)>)
    requires
        pos <= s@.len(),
    ensures
        match spec_decode_state_update(s@.skip(pos as int)) {
            None => r is None,
            Some((su, n)) => r matches Some((v, q)) && v@ == su && q == pos + n,
        },
{
    let ghost t = s@.skip(pos as int);
    if s.len() - pos < 68 {
        return None;
    }
    let deposit_contract_address = read_bytes32(s, pos);
    let start = read_le(s, pos + 32, 16);
    let end = read_le(s, pos + 48, 16);
    let block_number = read_le(s, pos + 64, 4);
    proof {
        lemma_pow256_values();
        lemma_le_value_bound(t.subrange(64, 68));
        assert(s@.subrange(pos + 64, pos + 68) =~= t.subrange(64, 68));
        assert(s@.subrange(pos + 32, pos + 48) =~= t.subrange(32, 64).take(16));
        assert(s@.subrange(pos + 48, pos + 64) =~= t.subrange(32, 64).subrange(16, 32));
        assert(s@.skip(pos + 68) =~= t.skip(68));
        assert(s@.subrange(pos as int, pos + 32) =~= t.take(32));
    }
    match read_property(s, pos + 68) {
        None => None,
        Some((state_object, q)) => {
            let su = StateUpdate {
                deposit_contract_address,
                range: Range { start, end },
                block_number: block_number as u32,
                state_object,
            };
            assert(su@ =~= spec_decode_state_update(t).unwrap().0);
            Some((su, q))
        },
    }
}

/// Decodes a property from the start of `bytes`; bytes after it are ignored.
pub fn decode_property(bytes: &[u8]) -> (r: Option<Property>)
    ensures
        match spec_decode_property(bytes@) {
            None => r is None,
            Some((p, _)) => r matches Some(v) && v@ == p,
        },
{
    assert(bytes@.skip(0) =~= bytes@);
    match read_property(bytes, 0) {
        None => None,
        Some((p, _)) => Some(p),
    }
}

/// Decodes a state update from the start of `bytes`; bytes after it are
/// ignored.
pub fn decode_state_update(bytes: &[u8]) -> (r: Option<StateUpdate>)
    ensures
        match spec_decode_state_update(bytes@) {
            None => r is None,
            Some((su, _)) => r matches Some(v) && v@ == su,
        },
{
    assert(bytes@.skip(0) =~= bytes@);
    match read_state_update(bytes, 0) {
        None => None,
        Some((su, _)) => Some(su),
    }
}

/// Decodes a transaction from the start of `bytes`; bytes after it are
/// ignored.
pub fn decode_transaction(bytes: &[u8]) -> (r: Option<Transaction>)
    ensures
        match spec_decode_transaction(bytes@) {
            None => r is None,
            Some((tx, _)) => r matches Some(v) && v@ == tx,
        },
{
    assert(bytes@.skip(0) =~= bytes@);
    match read_state_update(bytes, 0) {
        None => None,
        Some((su, _)) => {
            let tx = Transaction {
                deposit_contract_address: su.deposit_contract_address,
                range: su.range,
                max_block_number: su.block_number,
                next_state_object: su.state_object,
            };
            assert(tx@ =~= spec_decode_transaction(bytes@).unwrap().0);
            Some(tx)
        },
    }
}

} // verus!
