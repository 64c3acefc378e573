//! The messages that the contract takes and the records that it keeps and
//! answers with.

use crate::metadata::{Trait, TraitModel};
use vstd::prelude::*;

verus! {

/// One step of the progression table: the experience at which `level` is
/// reached.
#[derive(Clone, Copy, Debug, PartialEq, Eq, Structural)]
pub struct Level {
    pub level: u16,
    pub xp_needed: u32,
}

/// The rank of one token, as given at setup.
#[derive(Debug, PartialEq, Eq)]
pub struct Rank {
    pub token_id: String,
    pub rank: u16,
}

/// What a [`Rank`] holds.
#[verifier::ext_equal]
pub struct RankModel {
    pub token_id: Seq<char>,
    pub rank: u16,
}

impl View for Rank {
    type V = RankModel;

    open spec fn view(&self) -> RankModel {
        RankModel { token_id: self.token_id@, rank: self.rank }
    }
}

impl DeepView for Rank {
    type V = RankModel;

    open spec fn deep_view(&self) -> RankModel {
        self@
    }
}

/// Where a contract lives.
#[derive(Debug, PartialEq, Eq)]
pub struct ContractInfo {
    /// The contract's code hash.
    pub code_hash: String,
    /// The contract's address.
    pub address: String,
}

/// What a [`ContractInfo`] holds.
#[verifier::ext_equal]
pub struct ContractInfoModel {
    pub code_hash: Seq<char>,
    pub address: Seq<char>,
}

impl View for ContractInfo {
    type V = ContractInfoModel;

    open spec fn view(&self) -> ContractInfoModel {
        ContractInfoModel { code_hash: self.code_hash@, address: self.address@ }
    }
}

impl DeepView for ContractInfo {
    type V = ContractInfoModel;

    open spec fn deep_view(&self) -> ContractInfoModel {
        self@
    }
}

impl Clone for ContractInfo {
    fn clone(&self) -> (r: Self)
        ensures
            r == *self,
    {
        ContractInfo { code_hash: self.code_hash.clone(), address: self.address.clone() }
    }
}

/// A payment contract that the pack builder accepts, and what it asks for.
#[derive(Debug, PartialEq, Eq)]
pub struct PaymentContractInfo {
    /// The contract's code hash.
    pub code_hash: String,
    /// The contract's address.
    pub address: String,
    /// The amount that one merge costs.
    pub payment_needed: u128,
    /// The name of the payment token.
    pub name: String,
}

/// What a [`PaymentContractInfo`] holds.
#[verifier::ext_equal]
pub struct PaymentContractInfoModel {
    pub code_hash: Seq<char>,
    pub address: Seq<char>,
    pub payment_needed: u128,
    pub name: Seq<char>,
}

impl View for PaymentContractInfo {
    type V = PaymentContractInfoModel;

    open spec fn view(&self) -> PaymentContractInfoModel {
        PaymentContractInfoModel {
            code_hash: self.code_hash@,
            address: self.address@,
            payment_needed: self.payment_needed,
            name: self.name@,
        }
    }
}

impl DeepView for PaymentContractInfo {
    type V = PaymentContractInfoModel;

    open spec fn deep_view(&self) -> PaymentContractInfoModel {
        self@
    }
}

impl Clone for PaymentContractInfo {
    fn clone(&self) -> (r: Self)
        ensures
            r == *self,
    {
        PaymentContractInfo {
            code_hash: self.code_hash.clone(),
            address: self.address.clone(),
            payment_needed: self.payment_needed,
            name: self.name.clone(),
        }
    }
}

/// One event in an account's history: the tokens that joined a leader, and
/// when.
#[derive(Debug, PartialEq, Eq)]
pub struct HistoryToken {
    /// The leader.
    pub wolf_main_token_id: String,
    /// The tokens that joined it.
    pub pack_member_token_ids: Vec<String>,
    /// The block time of the event, in seconds.
    pub pack_build_date: Option<u64>,
}

/// What a [`HistoryToken`] holds.
#[verifier::ext_equal]
pub struct HistoryTokenModel {
    pub wolf_main_token_id: Seq<char>,
    pub pack_member_token_ids: Seq<Seq<char>>,
    pub pack_build_date: Option<u64>,
}

impl View for HistoryToken {
    type V = HistoryTokenModel;

    open spec fn view(&self) -> HistoryTokenModel {
        HistoryTokenModel {
            wolf_main_token_id: self.wolf_main_token_id@,
            pack_member_token_ids: self.pack_member_token_ids.deep_view(),
            pack_build_date: self.pack_build_date,
        }
    }
}

impl DeepView for HistoryToken {
    type V = HistoryTokenModel;

    open spec fn deep_view(&self) -> HistoryTokenModel {
        self@
    }
}

impl Clone for HistoryToken {
    fn clone(&self) -> (r: Self)
        ensures
            r@ == self@,
    {
        let ids = self.pack_member_token_ids.clone();
        assert(ids.deep_view() =~= self.pack_member_token_ids.deep_view());
        HistoryToken {
            wolf_main_token_id: self.wolf_main_token_id.clone(),
            pack_member_token_ids: ids,
            pack_build_date: self.pack_build_date,
        }
    }
}

/// The payload of a payment notification.
#[derive(Clone, Copy, Debug, PartialEq, Eq, Structural)]
pub struct ReceiveMsg {
    pub quantity: u16,
}

/// The request to merge the tokens sent along into a leader.
#[derive(Debug, PartialEq, Eq)]
pub struct PackBuildMsg {
    /// The leader.
    pub main_token_id: String,
    /// The display name that the leader gets.
    pub name: String,
}

/// The request to move one member from a leader to another.
#[derive(Debug, PartialEq, Eq)]
pub struct PackTransferMsg {
    /// The leader that the member leaves.
    pub main_token_id: String,
    /// The leader that the member joins.
    pub transfer_to_token_id: String,
    /// The member.
    pub token_id: String,
    /// The member's place in the source pack, which is also the index of
    /// its media file in the source leader's public and private media.
    pub member_index: u8,
}

/// A token that was merged into a leader.
#[derive(Debug, PartialEq, Eq)]
pub struct PackMember {
    /// The token.
    pub token_id: String,
    /// Its rank.
    pub rank: u16,
    /// Its public attributes at the time of the merge.
    pub attributes: Vec<Trait>,
}

/// What a [`PackMember`] holds.
#[verifier::ext_equal]
pub struct PackMemberModel {
    pub token_id: Seq<char>,
    pub rank: u16,
    pub attributes: Seq<TraitModel>,
}

impl View for PackMember {
    type V = PackMemberModel;

    open spec fn view(&self) -> PackMemberModel {
        PackMemberModel {
            token_id: self.token_id@,
            rank: self.rank,
            attributes: self.attributes.deep_view(),
        }
    }
}

impl DeepView for PackMember {
    type V = PackMemberModel;

    open spec fn deep_view(&self) -> PackMemberModel {
        self@
    }
}

impl Clone for PackMember {
    fn clone(&self) -> (r: Self)
        ensures
            r@ == self@,
    {
        let attributes = self.attributes.clone();
        assert(attributes.deep_view() =~= self.attributes.deep_view());
        PackMember { token_id: self.token_id.clone(), rank: self.rank, attributes }
    }
}

/// A leader's row on the leaderboard.
#[derive(Debug, PartialEq, Eq)]
pub struct PackMain {
    /// The leader.
    pub token_id: String,
    /// The score of its pack.
    pub pack_rank: u32,
    /// The number of its members.
    pub pack_count: u16,
    /// Its display name.
    pub name: String,
}

/// What a [`PackMain`] holds.
#[verifier::ext_equal]
pub struct PackMainModel {
    pub token_id: Seq<char>,
    pub pack_rank: u32,
    pub pack_count: u16,
    pub name: Seq<char>,
}

impl View for PackMain {
    type V = PackMainModel;

    open spec fn view(&self) -> PackMainModel {
        PackMainModel {
            token_id: self.token_id@,
            pack_rank: self.pack_rank,
            pack_count: self.pack_count,
            name: self.name@,
        }
    }
}

impl DeepView for PackMain {
    type V = PackMainModel;

    open spec fn deep_view(&self) -> PackMainModel {
        self@
    }
}

impl Clone for PackMain {
    fn clone(&self) -> (r: Self)
        ensures
            r == *self,
    {
        PackMain {
            token_id: self.token_id.clone(),
            pack_rank: self.pack_rank,
            pack_count: self.pack_count,
            name: self.name.clone(),
        }
    }
}

/// The answer to the build-info query.
#[derive(Debug, PartialEq, Eq)]
pub struct BuildInfoResponse {
    /// The largest pack allowed.
    pub pack_max: u16,
    /// The number of tokens retired so far.
    pub total_burned: u16,
    /// The payment contracts accepted.
    pub valid_payments: Option<Vec<PaymentContractInfo>>,
}

/// What a [`BuildInfoResponse`] holds.
#[verifier::ext_equal]
pub struct BuildInfoResponseModel {
    pub pack_max: u16,
    pub total_burned: u16,
    pub valid_payments: Option<Seq<PaymentContractInfoModel>>,
}

impl View for BuildInfoResponse {
    type V = BuildInfoResponseModel;

    open spec fn view(&self) -> BuildInfoResponseModel {
        BuildInfoResponseModel {
            pack_max: self.pack_max,
            total_burned: self.total_burned,
            valid_payments: self.valid_payments.deep_view(),
        }
    }
}

/// The payment contracts accepted.
#[derive(Debug, PartialEq, Eq)]
pub struct PaymentContractsResponse {
    pub contract_infos: Vec<PaymentContractInfo>,
}

/// What a batch of tokens sent to the contract asks for.
#[derive(Debug, PartialEq, Eq)]
pub enum HandleReceiveMsg {
    /// Merge the tokens into a leader.
    ReceivePackBuild { pack_build: PackBuildMsg },
    /// Move a member from one leader to another.
    ReceiveTransferBuild { transfer_build: PackTransferMsg },
}

/// What a permit allows its bearer to see.
#[derive(Clone, Copy, Debug, PartialEq, Eq, Structural)]
pub enum TokenPermissions {
    Allowance,
    Balance,
    History,
    Owner,
}

/// A query permit, after the host has checked it.
#[derive(Debug, PartialEq, Eq)]
pub struct Permit {
    /// The name that the signer gave the permit.
    pub permit_name: String,
    /// What the permit allows.
    pub permissions: Vec<TokenPermissions>,
    /// The account that signed the permit; absent where the permit does
    /// not name this contract, was revoked, or bears no valid signature.
    pub signer: Option<String>,
}

/// The messages that change the ledger.
#[derive(Debug, PartialEq, Eq)]
#[allow(inconsistent_fields)]
pub enum ExecuteMsg {
    /// Revoke the sender's permit of that name.
    RevokePermit { permit_name: String },
    /// A payment contract reports a payment.
    Receive { sender: String, from: String, amount: u128, msg: Option<Vec<u8>> },
    /// The registry hands over tokens, with what to do with them.
    BatchReceiveNft { from: String, token_ids: Vec<String>, msg: Option<HandleReceiveMsg> },
    /// The owner sends a token that the contract holds to an account.
    SendNftBack { token_id: String, owner: String },
}

/// The queries.
#[derive(Debug, PartialEq, Eq)]
pub enum QueryMsg {
    GetPackBuildInfo {  },
    GetNumUserHistory { permit: Permit },
    GetUserHistory { permit: Permit, start_page: u32, page_size: u32 },
    GetNumPacks {  },
    GetPacks { start_page: u32, page_size: u32 },
    GetPackMembers { main_token_id: String },
    GetPackMembersTraits { main_token_id: String },
}

/// What the contract is set up with.
#[derive(Debug, PartialEq, Eq)]
pub struct InstantiateMsg {
    /// Entropy for the viewing key.
    pub entropy: String,
    /// The token registry.
    pub nft_contract: ContractInfo,
    /// Whether a merge has to be paid for.
    pub is_payment_needed: bool,
    /// The payment contracts accepted.
    pub valid_payments: Option<Vec<PaymentContractInfo>>,
    /// The account that payments are passed on to.
    pub receiving_address: String,
    /// The largest pack allowed.
    pub pack_max: u16,
    /// The number of tokens in the collection.
    pub collection_size: u16,
    /// The level at which levelling stops.
    pub level_cap: u16,
    /// The progression table.
    pub levels: Vec<Level>,
    /// The rank of each token.
    pub ranks: Vec<Rank>,
}

} // verus!
