//! The partitioned stable store: one memory split into independent ordered maps.

use ic_stable_structures::memory_manager::{MemoryId, MemoryManager, VirtualMemory};
use ic_stable_structures::{DefaultMemoryImpl, StableBTreeMap};
use vstd::prelude::*;

verus! {

/// The stable memory of the service, split into numbered partitions.
#[verifier::external_body]
pub struct StableMemory {
    manager: MemoryManager<DefaultMemoryImpl>,
}

/// The memory of one partition.
#[verifier::external_body]
pub struct PartitionMemory {
    memory: VirtualMemory<DefaultMemoryImpl>,
}

/// One partition of the stable memory, with the number it was opened under.
pub struct Partition {
    memory: PartitionMemory,
    id: Ghost<u8>,
}

impl Partition {
    /// The number this partition was opened under.
    pub closed spec fn id(&self) -> u8 {
        self.id@
    }
}

/// Partition of account records: principal bytes to encoded record.
#[verifier::external_body]
pub struct AccountMap {
    map: StableBTreeMap<Vec<u8>, Vec<u8>, VirtualMemory<DefaultMemoryImpl>>,
}

/// Partition of token balances: composite ledger key to amount.
#[verifier::external_body]
pub struct LedgerMap {
    map: StableBTreeMap<String, u64, VirtualMemory<DefaultMemoryImpl>>,
}

/// Off the Internet Computer `DefaultMemoryImpl` is a shared vector behind a
/// `RefCell`; declaring `RefCell` lets that memory type stand in signatures.
#[verifier::external_type_specification]
#[verifier::external_body]
#[verifier::reject_recursive_types(T)]
pub struct ExRefCell<T: ?Sized>(std::cell::RefCell<T>);

/// What the account partition holds.
pub uninterp spec fn account_entries(m: AccountMap) -> Map<Seq<u8>, Seq<u8>>;

/// What the token ledger partition holds.
pub uninterp spec fn ledger_entries(m: LedgerMap) -> Map<Seq<char>, u64>;

/// Relies on `MemoryManager::init`: loads the partition table of `memory`, or
/// lays out an empty one. A corrupt table makes it panic: stored data that
/// cannot be read aborts the call.
#[verifier::external_body]
pub(crate) fn memory_init(memory: DefaultMemoryImpl) -> StableMemory {
    StableMemory { manager: MemoryManager::init(memory) }
}

/// Relies on `MemoryId::new` and `MemoryManager::get`: the memory of the
/// partition numbered `id`; `MemoryId::new` refuses 255.
#[verifier::external_body]
fn partition_memory(memory: &StableMemory, id: u8) -> PartitionMemory
    requires
        id != 255,
{
    PartitionMemory { memory: memory.manager.get(MemoryId::new(id)) }
}

/// Opens the partition numbered `id`.
fn partition(memory: &StableMemory, id: u8) -> (r: Partition)
    requires
        id != 255,
    ensures
        r.id() == id,
{
    Partition { memory: partition_memory(memory, id), id: Ghost(id) }
}

/// Relies on `BTreeMap::init`: the account map kept in `memory`, loaded when the
/// memory already holds one and empty otherwise.
#[verifier::external_body]
fn accounts_init(memory: PartitionMemory) -> AccountMap {
    AccountMap { map: StableBTreeMap::init(memory.memory) }
}

/// Relies on `BTreeMap::get`: the value stored under `key`, if any.
#[verifier::external_body]
pub(crate) fn accounts_get(m: &AccountMap, key: &Vec<u8>) -> (r: Option<Vec<u8>>)
    ensures
        r is Some <==> account_entries(*m).contains_key(key@),
        r matches Some(v) ==> v@ == account_entries(*m)[key@],
{
    m.map.get(key)
}

/// Relies on `BTreeMap::insert`: stores `value` under `key`, replacing any value there.
#[verifier::external_body]
pub(crate) fn accounts_insert(m: &mut AccountMap, key: Vec<u8>, value: Vec<u8>)
    ensures
        account_entries(*final(m)) == account_entries(*old(m)).insert(key@, value@),
{
    m.map.insert(key, value);
}

/// Relies on `BTreeMap::len`: the number of entries.
#[verifier::external_body]
pub(crate) fn accounts_len(m: &AccountMap) -> (r: u64)
    ensures
        r as nat == account_entries(*m).dom().len(),
{
    m.map.len()
}

/// Relies on `BTreeMap::iter`: every entry, each key once.
#[verifier::external_body]
pub(crate) fn accounts_all(m: &AccountMap) -> (r: Vec<(Vec<u8>, Vec<u8>)>)
    ensures
        forall|i: int|
            0 <= i < r@.len() ==> #[trigger] account_entries(*m).contains_key(r@[i].0@)
                && account_entries(*m)[r@[i].0@] == r@[i].1@,
        forall|k: Seq<u8>|
            #[trigger] account_entries(*m).contains_key(k) ==> exists|i: int|
                0 <= i < r@.len() && r@[i].0@ == k,
{
    m.map.iter().collect()
}

/// Relies on `BTreeMap::init`: the ledger map kept in `memory`, loaded when the
/// memory already holds one and empty otherwise.
#[verifier::external_body]
fn ledger_init(memory: PartitionMemory) -> LedgerMap {
    LedgerMap { map: StableBTreeMap::init(memory.memory) }
}

/// Relies on `BTreeMap::get`: the value stored under `key`, if any.
#[verifier::external_body]
pub(crate) fn ledger_get(m: &LedgerMap, key: &String) -> (r: Option<u64>)
    ensures
        r is Some <==> ledger_entries(*m).contains_key(key@),
        r matches Some(v) ==> v == ledger_entries(*m)[key@],
{
    m.map.get(key)
}

/// Relies on `BTreeMap::insert`: stores `value` under `key`, replacing any value there.
#[verifier::external_body]
pub(crate) fn ledger_insert(m: &mut LedgerMap, key: String, value: u64)
    ensures
        ledger_entries(*final(m)) == ledger_entries(*old(m)).insert(key@, value),
{
    m.map.insert(key, value);
}

/// Relies on `BTreeMap::remove`: drops the entry under `key`, if any.
#[verifier::external_body]
pub(crate) fn ledger_remove(m: &mut LedgerMap, key: &String)
    ensures
        ledger_entries(*final(m)) == ledger_entries(*old(m)).remove(key@),
{
    m.map.remove(key);
}

/// Relies on `BTreeMap::iter`: every entry, each key once.
#[verifier::external_body]
pub(crate) fn ledger_all(m: &LedgerMap) -> (r: Vec<(String, u64)>)
    ensures
        forall|i: int|
            0 <= i < r@.len() ==> #[trigger] ledger_entries(*m).contains_key(r@[i].0@)
                && ledger_entries(*m)[r@[i].0@] == r@[i].1,
        forall|k: Seq<char>|
            #[trigger] ledger_entries(*m).contains_key(k) ==> exists|i: int|
                0 <= i < r@.len() && r@[i].0@ == k,
        forall|i: int, j: int|
            0 <= i < j < r@.len() ==> #[trigger] r@[i].0@ != #[trigger] r@[j].0@,
{
    m.map.iter().collect()
}

/// The two partitions of the service, with the numbers they were opened under.
pub(crate) struct Partitions {
    pub(crate) accounts: AccountMap,
    pub(crate) ledger: LedgerMap,
    pub(crate) accounts_id: Ghost<u8>,
    pub(crate) ledger_id: Ghost<u8>,
}

/// Opens the account partition (number 0) and the ledger partition (number 1)
/// of `memory`, keeping what they already hold.
pub(crate) fn open_partitions(memory: &StableMemory) -> (r: Partitions)
    ensures
        r.accounts_id@ == 0,
        r.ledger_id@ == 1,
{
    let accounts_part = partition(memory, 0);
    let ledger_part = partition(memory, 1);
    let ghost accounts_id = accounts_part.id();
    let ghost ledger_id = ledger_part.id();
    let accounts = accounts_init(accounts_part.memory);
    let ledger = ledger_init(ledger_part.memory);
    Partitions {
        accounts,
        ledger,
        accounts_id: Ghost(accounts_id),
        ledger_id: Ghost(ledger_id),
    }
}

} // verus!
