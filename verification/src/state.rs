//! The ledger: the configuration and the stores that the operations keep.

use crate::keymap::{Keymap, KeymapModel};
use crate::metadata::{alpha_name, carries, has_trait};
use crate::msg::{
    ContractInfo, ContractInfoModel, HistoryToken, HistoryTokenModel, Level, PackMain,
    PackMainModel, PackMember, PackMemberModel, PaymentContractInfo, PaymentContractInfoModel,
};
use crate::seqs::all_distinct;
use vstd::prelude::*;

verus! {

/// What the host tells of the block and of this contract.
#[derive(Debug, PartialEq, Eq)]
pub struct Env {
    /// The block time, in seconds.
    pub block_time: u64,
    /// This contract's address.
    pub contract_address: String,
    /// This contract's code hash.
    pub contract_code_hash: String,
}

/// The configuration.
#[derive(Debug, PartialEq, Eq)]
pub struct State {
    /// The account that set the contract up.
    pub owner: String,
    /// The token registry.
    pub nft_contract: ContractInfo,
    /// Whether a merge has to be paid for.
    pub is_payment_needed: bool,
    /// The payment contracts accepted.
    pub valid_payments: Option<Vec<PaymentContractInfo>>,
    /// The key with which the contract reads the registry.
    pub viewing_key: Option<String>,
    /// The account that payments are passed on to.
    pub receiving_address: String,
    /// The number of tokens retired so far.
    pub total_burned: u16,
    /// The largest pack allowed.
    pub pack_max: u16,
    /// The number of tokens in the collection.
    pub collection_size: u16,
    /// The level at which levelling stops.
    pub level_cap: u16,
}

/// What a [`State`] holds.
#[verifier::ext_equal]
pub struct StateModel {
    pub owner: Seq<char>,
    pub nft_contract: ContractInfoModel,
    pub is_payment_needed: bool,
    pub valid_payments: Option<Seq<PaymentContractInfoModel>>,
    pub viewing_key: Option<Seq<char>>,
    pub receiving_address: Seq<char>,
    pub total_burned: u16,
    pub pack_max: u16,
    pub collection_size: u16,
    pub level_cap: u16,
}

impl View for State {
    type V = StateModel;

    open spec fn view(&self) -> StateModel {
        StateModel {
            owner: self.owner@,
            nft_contract: self.nft_contract@,
            is_payment_needed: self.is_payment_needed,
            valid_payments: self.valid_payments.deep_view(),
            viewing_key: self.viewing_key.deep_view(),
            receiving_address: self.receiving_address@,
            total_burned: self.total_burned,
            pack_max: self.pack_max,
            collection_size: self.collection_size,
            level_cap: self.level_cap,
        }
    }
}

impl DeepView for State {
    type V = StateModel;

    open spec fn deep_view(&self) -> StateModel {
        self@
    }
}

/// The score that a token of rank `rank` adds to a pack.
pub open spec fn contribution(collection_size: u16, rank: u16) -> nat {
    (collection_size - rank) as nat
}

/// What holds of every member on record: its rank lies in the collection,
/// and it is no alpha.
pub open spec fn member_ok(member: PackMemberModel, collection_size: u16) -> bool {
    &&& 1 <= member.rank <= collection_size
    &&& !has_trait(member.attributes, alpha_name())
}

/// The ledger: the configuration, the progression table, the accounts with
/// a pending payment, and the four stores.
#[derive(Debug, PartialEq, Eq)]
pub struct Ledger {
    /// The configuration.
    pub config: State,
    /// The progression table.
    pub levels: Vec<Level>,
    /// The accounts that have paid for a merge and not used it yet.
    pub paid_addresses: Vec<String>,
    /// The rank of each token.
    pub ranks: Keymap<u16>,
    /// The members of each leader, in the order in which they joined.
    pub pack_members: Keymap<Vec<PackMember>>,
    /// The leaderboard, in the order in which the leaders first appeared.
    pub pack_mains: Keymap<PackMain>,
    /// The history of each account.
    pub history: Keymap<Vec<HistoryToken>>,
    /// The permit names that each account has revoked.
    pub revoked_permits: Keymap<Vec<String>>,
}

/// What a [`Ledger`] holds.
#[verifier::ext_equal]
pub struct LedgerModel {
    pub config: StateModel,
    pub levels: Seq<Level>,
    pub paid_addresses: Seq<Seq<char>>,
    pub ranks: KeymapModel<u16>,
    pub pack_members: KeymapModel<Seq<PackMemberModel>>,
    pub pack_mains: KeymapModel<PackMainModel>,
    pub history: KeymapModel<Seq<HistoryTokenModel>>,
    pub revoked_permits: KeymapModel<Seq<Seq<char>>>,
}

impl LedgerModel {
    /// The invariant of the ledger: each store has one entry per key, no
    /// account has two pending payments, every rank lies in the collection,
    /// each leaderboard row stands under its own leader, and no member on
    /// record is an alpha.
    pub open spec fn wf(self) -> bool {
        &&& self.ranks.wf()
        &&& self.pack_members.wf()
        &&& self.pack_mains.wf()
        &&& self.history.wf()
        &&& self.revoked_permits.wf()
        &&& self.paid_addresses.no_duplicates()
        &&& forall|i: int|
            0 <= i < self.ranks.values.len() ==> 1 <= #[trigger] self.ranks.values[i]
                <= self.config.collection_size
        &&& rows_ok(self.pack_mains)
        &&& members_ok(self.pack_members, self.config.collection_size)
    }
}

/// What holds of every list of a membership store: each record in it is
/// in order.
pub open spec fn members_ok(store: KeymapModel<Seq<PackMemberModel>>, collection_size: u16) -> bool {
    forall|i: int, j: int|
        0 <= i < store.values.len() && 0 <= j < store.values[i].len() ==> member_ok(
            #[trigger] store.values[i][j],
            collection_size,
        )
}

/// The records of a membership store are in order where those of every
/// key's list are.
pub proof fn lemma_members_ok_by_key(store: KeymapModel<Seq<PackMemberModel>>, collection_size: u16)
    requires
        store.wf(),
        forall|key: Seq<char>, j: int|
            store.contains(key) && 0 <= j < store.get(key).unwrap().len() ==> member_ok(
                #[trigger] store.get(key).unwrap()[j],
                collection_size,
            ),
    ensures
        members_ok(store, collection_size),
{
    assert forall|i: int, j: int|
        0 <= i < store.values.len() && 0 <= j < store.values[i].len() implies member_ok(
        #[trigger] store.values[i][j],
        collection_size,
    ) by {
        store.lemma_index_of_key(i);
        let key = store.keys[i];
        assert(store.contains(key));
        assert(member_ok(store.get(key).unwrap()[j], collection_size));
    }
}

/// Where the records of a membership store are in order, those of every
/// key's list are.
pub proof fn lemma_members_ok_of_key(
    store: KeymapModel<Seq<PackMemberModel>>,
    collection_size: u16,
    key: Seq<char>,
)
    requires
        store.wf(),
        members_ok(store, collection_size),
        store.contains(key),
    ensures
        forall|j: int|
            0 <= j < store.get(key).unwrap().len() ==> member_ok(
                #[trigger] store.get(key).unwrap()[j],
                collection_size,
            ),
{
    store.lemma_contains(key);
    let i = store.index_of(key);
    assert forall|j: int| 0 <= j < store.get(key).unwrap().len() implies member_ok(
        #[trigger] store.get(key).unwrap()[j],
        collection_size,
    ) by {
        assert(member_ok(store.values[i][j], collection_size));
    }
}

/// What holds of every row of the leaderboard: it stands under its own
/// leader.
pub open spec fn rows_ok(store: KeymapModel<PackMainModel>) -> bool {
    forall|i: int|
        0 <= i < store.values.len() ==> (#[trigger] store.values[i]).token_id == store.keys[i]
}

/// Writing a row under its own leader keeps the leaderboard in order.
pub proof fn lemma_rows_ok_insert(store: KeymapModel<PackMainModel>, row: PackMainModel)
    requires
        store.wf(),
        rows_ok(store),
    ensures
        rows_ok(store.insert(row.token_id, row)),
        store.insert(row.token_id, row).wf(),
{
    let after = store.insert(row.token_id, row);
    store.lemma_insert(row.token_id, row);
    store.lemma_contains(row.token_id);
    assert forall|i: int| 0 <= i < after.values.len() implies (#[trigger] after.values[i]).token_id
        == after.keys[i] by {
        if store.contains(row.token_id) {
            if i != store.index_of(row.token_id) {
                assert(after.values[i] == store.values[i]);
            }
        } else {
            if i < store.values.len() {
                assert(after.values[i] == store.values[i]);
            }
        }
    }
}

impl View for Ledger {
    type V = LedgerModel;

    open spec fn view(&self) -> LedgerModel {
        LedgerModel {
            config: self.config@,
            levels: self.levels@,
            paid_addresses: self.paid_addresses.deep_view(),
            ranks: self.ranks@,
            pack_members: self.pack_members@,
            pack_mains: self.pack_mains@,
            history: self.history@,
            revoked_permits: self.revoked_permits@,
        }
    }
}

impl DeepView for Ledger {
    type V = LedgerModel;

    open spec fn deep_view(&self) -> LedgerModel {
        self@
    }
}

/// Whether every record of `list` is in order.
fn list_in_order(list: &Vec<PackMember>, collection_size: u16) -> (b: bool)
    ensures
        b == forall|j: int|
            0 <= j < list.len() ==> member_ok(#[trigger] list.deep_view()[j], collection_size),
{
    let mut j: usize = 0;
    while j < list.len()
        invariant
            j <= list.len(),
            forall|k: int| 0 <= k < j ==> member_ok(#[trigger] list.deep_view()[k], collection_size),
        decreases list.len() - j,
    {
        assert(list.deep_view()[j as int] == list[j as int]@);
        let member = &list[j];
        if member.rank < 1 || member.rank > collection_size || carries(&member.attributes, "Alpha") {
            return false;
        }
        j = j + 1;
    }
    true
}

impl Ledger {
    /// The invariant of the ledger.
    pub open spec fn wf(&self) -> bool {
        self@.wf()
    }

    /// Whether the ledger is in order. A ledger that was set up by this
    /// crate and changed by its operations only is; one that was put
    /// together from stored parts is to be checked before it is used.
    pub fn is_well_formed(&self) -> (b: bool)
        ensures
            b == self.wf(),
    {
        if !(self.ranks.is_well_formed() && self.pack_members.is_well_formed()
            && self.pack_mains.is_well_formed() && self.history.is_well_formed()
            && self.revoked_permits.is_well_formed() && all_distinct(&self.paid_addresses)) {
            return false;
        }
        let size = self.config.collection_size;
        let mut i: usize = 0;
        while i < self.ranks.values.len()
            invariant
                i <= self.ranks.values.len(),
                size == self.config.collection_size,
                forall|k: int| 0 <= k < i ==> 1 <= #[trigger] self@.ranks.values[k] <= size,
            decreases self.ranks.values.len() - i,
        {
            assert(self@.ranks.values[i as int] == self.ranks.values[i as int]);
            if self.ranks.values[i] < 1 || self.ranks.values[i] > size {
                return false;
            }
            i = i + 1;
        }
        let mut i: usize = 0;
        while i < self.pack_mains.values.len()
            invariant
                i <= self.pack_mains.values.len(),
                self.pack_mains.wf(),
                forall|k: int|
                    0 <= k < i ==> (#[trigger] self@.pack_mains.values[k]).token_id
                        == self@.pack_mains.keys[k],
            decreases self.pack_mains.values.len() - i,
        {
            assert(self@.pack_mains.values[i as int] == self.pack_mains.values[i as int]@);
            assert(self@.pack_mains.keys[i as int] == self.pack_mains.keys[i as int]@);
            if !(self.pack_mains.values[i].token_id == self.pack_mains.keys[i]) {
                return false;
            }
            i = i + 1;
        }
        let mut i: usize = 0;
        while i < self.pack_members.values.len()
            invariant
                i <= self.pack_members.values.len(),
                size == self.config.collection_size,
                forall|k: int, j: int|
                    0 <= k < i && 0 <= j < self@.pack_members.values[k].len() ==> member_ok(
                        #[trigger] self@.pack_members.values[k][j],
                        size,
                    ),
            decreases self.pack_members.values.len() - i,
        {
            assert(self@.pack_members.values[i as int] == self.pack_members.values[i as int].deep_view());
            if !list_in_order(&self.pack_members.values[i], size) {
                return false;
            }
            i = i + 1;
        }
        true
    }
}

} // verus!
