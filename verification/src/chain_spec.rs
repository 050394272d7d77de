//! The chain specification of the local testnet of the parachain node that
//! runs the plasma module: its extensions, its genesis, and the development
//! accounts derived from seeds.

use vstd::prelude::*;
use crate::scale::copy_range;
use crate::types::{AccountId, Balance, H256};

verus! {

/// Parameters of the parachain that the chain specification carries.
#[derive(Default, Clone, Debug, PartialEq, Eq)]
pub struct Extensions {
    /// The relay chain of the parachain.
    pub relay_chain: String,
    /// The id of the parachain.
    pub para_id: u32,
}

/// One thousandth of a PLM.
pub const MILLIPLM: Balance = 1_000_000_000_000;

/// The unit of account: `10^15` of the smallest unit.
pub const PLM: Balance = 1_000 * MILLIPLM;

/// What each endowed account of the testnet is given.
pub const ENDOWMENT: Balance = 1_000_000_000 * PLM;

/// What the genesis account of the EVM holds: `10^21`.
pub const EVM_GENESIS_BALANCE: u128 = 1_000_000_000_000_000_000_000;

/// The SURI of a development key: `//` followed by the seed.
pub open spec fn dev_suri(seed: Seq<char>) -> Seq<char> {
    seq!['/', '/'] + seed
}

/// What the sr25519 key pair derived from the secret URI `suri` has as its
/// public key, or `None` where the URI is refused.
pub uninterp spec fn spec_sr25519_public_from_suri(suri: Seq<char>) -> Option<Seq<u8>>;

/// Calls `sp_core::sr25519::Pair::from_string(suri, None)` and takes the
/// public key of the pair. The contract claims only that the result is what
/// `spec_sr25519_public_from_suri` names for the URI: `None` when
/// `from_string` refuses it, the 32 bytes of the public key otherwise.
#[verifier::external_body]
fn sr25519_public_from_suri(suri: &str) -> (r: Option<[u8; 32]>)
    ensures
        match spec_sr25519_public_from_suri(suri@) {
            None => r is None,
            Some(pk) => r matches Some(x) && x@ == pk,
        },
{
    match <sp_core::sr25519::Pair as sp_core::Pair>::from_string(suri, None) {
        Ok(pair) => Some(<sp_core::sr25519::Pair as sp_core::Pair>::public(&pair).0),
        Err(_) => None,
    }
}

/// Calls `sp_core::crypto::AccountId32::from` on an sr25519 public key:
/// the account of an sr25519 signer. The contract claims what its source
/// shows, that the account is the 32 bytes of the public key.
#[verifier::external_body]
fn sr25519_account_id(public: [u8; 32]) -> (r: AccountId)
    ensures
        r@ == public@,
{
    let account: sp_core::crypto::AccountId32 = sp_core::sr25519::Public::from_raw(public).into();
    account.into()
}

/// Whether the development key of `seed` can be derived.
pub open spec fn dev_key_derivable(seed: Seq<char>) -> bool {
    spec_sr25519_public_from_suri(dev_suri(seed)) is Some
}

/// The public key of the development key of `seed`.
pub open spec fn spec_dev_public(seed: Seq<char>) -> Seq<u8> {
    spec_sr25519_public_from_suri(dev_suri(seed)).unwrap()
}

fn dev_suri_of(seed: &str) -> (r: String)
    ensures
        r@ == dev_suri(seed@),
{
    let r = String::from_str("//").concat(seed);
    proof {
        reveal_strlit("//");
        assert(r@ =~= dev_suri(seed@));
    }
    r
}

/// The public key of the sr25519 development key of `seed`, derived from
/// `//seed`.
pub fn get_from_seed(seed: &str) -> (pk: [u8; 32])
    requires
        dev_key_derivable(seed@),
    ensures
        pk@ == spec_dev_public(seed@),
{
    let suri = dev_suri_of(seed);
    match sr25519_public_from_suri(suri.as_str()) {
        Some(pk) => pk,
        None => {
            assert(false);
            [0u8; 32]
        },
    }
}

/// The public key of the development key of `seed`, or `None` where it
/// cannot be derived.
pub fn try_get_from_seed(seed: &str) -> (pk: Option<[u8; 32]>)
    ensures
        dev_key_derivable(seed@) ==> (pk matches Some(x) && x@ == spec_dev_public(seed@)),
        !dev_key_derivable(seed@) ==> pk is None,
{
    let suri = dev_suri_of(seed);
    match sr25519_public_from_suri(suri.as_str()) {
        Some(_) => Some(get_from_seed(seed)),
        None => None,
    }
}

/// The account of the sr25519 development key of `seed`.
pub fn get_account_id_from_seed(seed: &str) -> (a: AccountId)
    requires
        dev_key_derivable(seed@),
    ensures
        a@ == spec_dev_public(seed@),
{
    sr25519_account_id(get_from_seed(seed))
}

/// The account of the development key of `seed`, or `None` where it cannot
/// be derived.
pub fn try_get_account_id_from_seed(seed: &str) -> (a: Option<AccountId>)
    ensures
        dev_key_derivable(seed@) ==> (a matches Some(x) && x@ == spec_dev_public(seed@)),
        !dev_key_derivable(seed@) ==> a is None,
{
    match try_get_from_seed(seed) {
        Some(_) => Some(get_account_id_from_seed(seed)),
        None => None,
    }
}

// ---------------------------------------------------------------- genesis

/// An account of the EVM at genesis.
#[derive(Clone, Debug, PartialEq, Eq)]
pub struct EvmGenesisAccount {
    pub address: [u8; 20],
    pub balance: u128,
    pub nonce: u128,
    pub code: Vec<u8>,
    pub storage: Vec<(H256, H256)>,
}

/// The configuration of changes tries: how often digests are built and how
/// many levels they have.
#[derive(Clone, Copy, Debug, PartialEq, Eq, Structural)]
pub struct ChangesTrieConfiguration {
    pub digest_interval: u32,
    pub digest_levels: u32,
}

/// The genesis of the Ethereum module: it takes no parameters.
#[derive(Clone, Copy, Debug, PartialEq, Eq, Structural)]
pub struct EthereumGenesis {}

/// The genesis of the runtime, module by module.
#[derive(Clone, Debug, PartialEq, Eq)]
pub struct GenesisSpec {
    /// System: the runtime's code.
    pub code: Vec<u8>,
    /// System: the changes trie configuration (none by default).
    pub changes_trie_config: Option<ChangesTrieConfiguration>,
    /// Balances: the endowed accounts and what each holds.
    pub balances: Vec<(AccountId, Balance)>,
    /// Indices: the accounts with an index.
    pub indices: Vec<(u32, AccountId)>,
    /// Contracts: whether contracts may print (development chains only).
    pub enable_println: bool,
    /// EVM: the accounts at genesis.
    pub evm_accounts: Vec<EvmGenesisAccount>,
    /// Sudo: the root key.
    pub sudo_key: AccountId,
    /// Ethereum: its (empty) configuration.
    pub ethereum: EthereumGenesis,
    /// Parachain info: the id of the parachain.
    pub parachain_id: u32,
}

/// The address of the genesis account of the EVM, `0x7EF99B0E5bEb8ae42DbF126B40b87410a440a32a`.
pub open spec fn spec_evm_genesis_address() -> Seq<u8> {
    seq![
        0x7eu8, 0xf9, 0x9b, 0x0e, 0x5b, 0xeb, 0x8a, 0xe4, 0x2d, 0xbf, 0x12, 0x6b, 0x40, 0xb8,
        0x74, 0x10, 0xa4, 0x40, 0xa3, 0x2a,
    ]
}

/// The EVM's genesis account: a balance of `10^21` at its address, with
/// nonce zero, no code and no storage.
pub open spec fn is_evm_genesis_account(a: EvmGenesisAccount) -> bool {
    &&& a.address@ == spec_evm_genesis_address()
    &&& a.balance == EVM_GENESIS_BALANCE
    &&& a.nonce == 0
    &&& a.code@.len() == 0
    &&& a.storage@.len() == 0
}

/// The genesis of the runtime from its balances, its root key, its
/// parachain id, whether contracts may print, and the runtime's code.
pub fn make_genesis(
    balances: Vec<(AccountId, Balance)>,
    root_key: AccountId,
    parachain_id: u32,
    enable_println: bool,
    wasm_binary: &[u8],
) -> (g: GenesisSpec)
    ensures
        g.code@ == wasm_binary@,
        g.changes_trie_config is None,
        g.balances@ == balances@,
        g.indices@.len() == 0,
        g.enable_println == enable_println,
        g.evm_accounts@.len() == 1,
        is_evm_genesis_account(g.evm_accounts@[0]),
        g.sudo_key == root_key,
        g.parachain_id == parachain_id,
{
    let address: [u8; 20] = [
        0x7e, 0xf9, 0x9b, 0x0e, 0x5b, 0xeb, 0x8a, 0xe4, 0x2d, 0xbf, 0x12, 0x6b, 0x40, 0xb8, 0x74,
        0x10, 0xa4, 0x40, 0xa3, 0x2a,
    ];
    assert(address@ =~= spec_evm_genesis_address());
    let account = EvmGenesisAccount {
        address,
        balance: EVM_GENESIS_BALANCE,
        nonce: 0,
        code: Vec::new(),
        storage: Vec::new(),
    };
    let mut evm_accounts: Vec<EvmGenesisAccount> = Vec::new();
    evm_accounts.push(account);
    GenesisSpec {
        code: copy_range(wasm_binary, 0, wasm_binary.len()),
        changes_trie_config: None,
        ethereum: EthereumGenesis {},
        balances,
        indices: Vec::new(),
        enable_println,
        evm_accounts,
        sudo_key: root_key,
        parachain_id,
    }
}

/// The seeds of the development accounts endowed by default.
pub open spec fn spec_dev_seeds() -> Seq<Seq<char>> {
    seq!["Alice"@, "Bob"@, "Charlie"@, "Dave"@, "Eve"@, "Ferdie"@]
}

/// Every development key can be derived.
pub open spec fn dev_keys_derivable() -> bool {
    forall|i: int| 0 <= i < spec_dev_seeds().len() ==> #[trigger] dev_key_derivable(spec_dev_seeds()[i])
}

/// The accounts of Alice, Bob, Charlie, Dave, Eve and Ferdie.
pub fn dev_accounts() -> (r: Vec<AccountId>)
    requires
        dev_keys_derivable(),
    ensures
        r@.len() == 6,
        forall|i: int| 0 <= i < 6 ==> #[trigger] r@[i]@ == spec_dev_public(spec_dev_seeds()[i]),
{
    assert(dev_key_derivable(spec_dev_seeds()[0]));
    assert(dev_key_derivable(spec_dev_seeds()[1]));
    assert(dev_key_derivable(spec_dev_seeds()[2]));
    assert(dev_key_derivable(spec_dev_seeds()[3]));
    assert(dev_key_derivable(spec_dev_seeds()[4]));
    assert(dev_key_derivable(spec_dev_seeds()[5]));
    let mut r: Vec<AccountId> = Vec::new();
    r.push(get_account_id_from_seed("Alice"));
    r.push(get_account_id_from_seed("Bob"));
    r.push(get_account_id_from_seed("Charlie"));
    r.push(get_account_id_from_seed("Dave"));
    r.push(get_account_id_from_seed("Eve"));
    r.push(get_account_id_from_seed("Ferdie"));
    r
}

/// The genesis of the testnet: each endowed account (the development
/// accounts where none are given) holds `ENDOWMENT`, `sudo_key` is the
/// root key, and contracts may print.
pub fn testnet_genesis(
    sudo_key: AccountId,
    endowed_accounts: Option<Vec<AccountId>>,
    para_id: u32,
    wasm_binary: &[u8],
) -> (g: GenesisSpec)
    requires
        endowed_accounts is None ==> dev_keys_derivable(),
    ensures
        g.code@ == wasm_binary@,
        g.changes_trie_config is None,
        endowed_accounts matches Some(e) ==> g.balances@ == e@.map_values(|a: AccountId| (a, ENDOWMENT)),
        endowed_accounts is None ==> g.balances@.len() == 6 && forall|i: int|
            0 <= i < 6 ==> (#[trigger] g.balances@[i]).0@ == spec_dev_public(spec_dev_seeds()[i])
                && g.balances@[i].1 == ENDOWMENT,
        g.indices@.len() == 0,
        g.enable_println,
        g.evm_accounts@.len() == 1,
        is_evm_genesis_account(g.evm_accounts@[0]),
        g.sudo_key == sudo_key,
        g.parachain_id == para_id,
{
    let accounts = match endowed_accounts {
        Some(e) => e,
        None => dev_accounts(),
    };
    let mut balances: Vec<(AccountId, Balance)> = Vec::new();
    let mut i: usize = 0;
    while i < accounts.len()
        invariant
            i <= accounts@.len(),
            balances@ == accounts@.take(i as int).map_values(|a: AccountId| (a, ENDOWMENT)),
        decreases accounts@.len() - i,
    {
        balances.push((accounts[i], ENDOWMENT));
        assert(accounts@.take(i + 1) =~= accounts@.take(i as int).push(accounts@[i as int]));
        assert(balances@ =~= accounts@.take(i + 1).map_values(|a: AccountId| (a, ENDOWMENT)));
        i = i + 1;
    }
    assert(accounts@.take(i as int) =~= accounts@);
    make_genesis(balances, sudo_key, para_id, true, wasm_binary)
}

// ---------------------------------------------------------------- chain specification

/// The kind of a chain.
#[derive(Clone, Copy, Debug, PartialEq, Eq, Structural)]
pub enum ChainType {
    Development,
    Local,
    Live,
}

/// A chain specification: names, network parameters, extensions and genesis.
#[derive(Clone, Debug, PartialEq, Eq)]
pub struct ChainSpec {
    pub name: String,
    pub id: String,
    pub chain_type: ChainType,
    pub boot_nodes: Vec<String>,
    pub telemetry_endpoints: Option<Vec<String>>,
    pub protocol_id: Option<String>,
    pub properties: Option<String>,
    pub extensions: Extensions,
    pub genesis: GenesisSpec,
}

/// What holds of the local testnet specification of the parachain `id`
/// whose runtime code is `code`.
pub open spec fn is_local_testnet_spec(c: ChainSpec, id: u32, code: Seq<u8>) -> bool {
    &&& c.genesis.code@ == code
    &&& c.genesis.changes_trie_config is None
    &&& c.name@ == "Local Testnet"@
    &&& c.id@ == "local_testnet"@
    &&& c.chain_type == ChainType::Local
    &&& c.boot_nodes@.len() == 0
    &&& c.telemetry_endpoints is None
    &&& c.protocol_id is None
    &&& c.properties is None
    &&& c.extensions.relay_chain@ == "westend-dev"@
    &&& c.extensions.para_id == id
    &&& c.genesis.sudo_key@ == spec_dev_public("Alice"@)
    &&& c.genesis.parachain_id == id
    &&& c.genesis.enable_println
    &&& c.genesis.indices@.len() == 0
    &&& c.genesis.evm_accounts@.len() == 1
    &&& is_evm_genesis_account(c.genesis.evm_accounts@[0])
    &&& c.genesis.balances@.len() == 6
    &&& forall|i: int|
        0 <= i < 6 ==> (#[trigger] c.genesis.balances@[i]).0@ == spec_dev_public(spec_dev_seeds()[i])
            && c.genesis.balances@[i].1 == ENDOWMENT
}

/// The specification of the local testnet of the parachain `id`, whose
/// runtime code is `wasm_binary`: Alice is the root key, the development
/// accounts are endowed, and the relay chain is `westend-dev`.
pub fn get_chain_spec(id: u32, wasm_binary: &[u8]) -> (c: ChainSpec)
    requires
        dev_keys_derivable(),
    ensures
        is_local_testnet_spec(c, id, wasm_binary@),
{
    assert(dev_key_derivable(spec_dev_seeds()[0]));
    let sudo = get_account_id_from_seed("Alice");
    let genesis = testnet_genesis(sudo, None, id, wasm_binary);
    ChainSpec {
        name: String::from_str("Local Testnet"),
        id: String::from_str("local_testnet"),
        chain_type: ChainType::Local,
        boot_nodes: Vec::new(),
        telemetry_endpoints: None,
        protocol_id: None,
        properties: None,
        extensions: Extensions { relay_chain: String::from_str("westend-dev"), para_id: id },
        genesis,
    }
}

/// Whether every development key can be derived, asked of the key
/// derivation itself.
pub fn dev_keys_check() -> (b: bool)
    ensures
        b == dev_keys_derivable(),
{
    let ok = try_get_from_seed("Alice").is_some() && try_get_from_seed("Bob").is_some()
        && try_get_from_seed("Charlie").is_some() && try_get_from_seed("Dave").is_some()
        && try_get_from_seed("Eve").is_some() && try_get_from_seed("Ferdie").is_some();
    proof {
        if ok {
            assert forall|i: int| 0 <= i < spec_dev_seeds().len() implies #[trigger] dev_key_derivable(
                spec_dev_seeds()[i],
            ) by {
                if i == 0 {
                } else if i == 1 {
                } else if i == 2 {
                } else if i == 3 {
                } else if i == 4 {
                } else {
                }
            }
        } else {
            assert(!dev_key_derivable(spec_dev_seeds()[0]) || !dev_key_derivable(spec_dev_seeds()[1])
                || !dev_key_derivable(spec_dev_seeds()[2]) || !dev_key_derivable(spec_dev_seeds()[3])
                || !dev_key_derivable(spec_dev_seeds()[4]) || !dev_key_derivable(spec_dev_seeds()[5]));
        }
    }
    ok
}

/// The local testnet specification of the parachain `id`, or `None` where
/// the development keys cannot be derived.
pub fn try_get_chain_spec(id: u32, wasm_binary: &[u8]) -> (c: Option<ChainSpec>)
    ensures
        dev_keys_derivable() ==> (c matches Some(x) && is_local_testnet_spec(x, id, wasm_binary@)),
        !dev_keys_derivable() ==> c is None,
{
    if dev_keys_check() {
        Some(get_chain_spec(id, wasm_binary))
    } else {
        None
    }
}

/// What `Extensions::try_get` gets back of the local testnet specification
/// is what `get_chain_spec` put in: the relay chain `westend-dev` and the
/// parachain's id.
pub proof fn lemma_local_testnet_extensions(c: ChainSpec, id: u32, code: Seq<u8>)
    requires
        is_local_testnet_spec(c, id, code),
    ensures
        c.extensions.relay_chain@ == "westend-dev"@,
        c.extensions.para_id == id,
{
}

impl Extensions {
    /// The extensions that the chain specification carries.
    pub fn try_get(chain_spec: &ChainSpec) -> (r: Option<&Extensions>)
        ensures
            r == Some(&chain_spec.extensions),
    {
        Some(&chain_spec.extensions)
    }
}

} // verus!
