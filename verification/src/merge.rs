//! The merge: tokens are absorbed into a leader.
//!
//! A merge is checked in full before anything is changed. The checks come
//! in a fixed order, and the first that fails names the error.

use crate::decimal::{decimal_text, format_decimal};
use crate::error::ContractError;
use crate::keymap::{Keymap, KeymapModel};
use crate::metadata::{
    alpha_name, carries, ensure_zero_default, has_trait, lvl_name, pack_name, pack_rank_name,
    read_number, trait_number, with_number, with_zero_default, write_number, xp_name, MediaFile,
    MediaFileModel, Metadata, MetadataModel, NftDossier, NftDossierModel, TraitModel,
};
use crate::msg::{
    HistoryToken, HistoryTokenModel, Level, PackBuildMsg, PackMain, PackMainModel, PackMember,
    PackMemberModel,
};
use crate::progression::{next_level, recompute_level};
use crate::response::{
    is_result, Attribute, AttributeModel, Command, CommandModel, Response, ResponseModel,
};
use crate::seqs::{
    first_index, is_text, lemma_first_index, lemma_first_index_is, lemma_sum_step, position_of,
    sum_of, text_index,
};
use crate::state::{contribution, member_ok, Env, Ledger, LedgerModel, StateModel};
use vstd::prelude::*;
use vstd::string::*;

verus! {

/// The experience that a token must have to be merged.
pub const MIN_MEMBER_XP: u32 = 464;

/// The key of the attribute that reports a raised level.
pub open spec fn lvl_increase_key() -> Seq<char> {
    "lvl_increase"@
}

/// The public side of a token's metadata, where the registry shows it.
pub open spec fn public_of(registry: KeymapModel<NftDossierModel>, id: Seq<char>) -> Option<
    MetadataModel,
> {
    match registry.get(id) {
        Some(dossier) => dossier.public_metadata,
        None => None,
    }
}

/// The private side of a token's metadata, where the registry shows it.
pub open spec fn private_of(registry: KeymapModel<NftDossierModel>, id: Seq<char>) -> Option<
    MetadataModel,
> {
    match registry.get(id) {
        Some(dossier) => dossier.private_metadata,
        None => None,
    }
}

/// The test whether `check` refuses a token.
pub open spec fn refuses(check: spec_fn(Seq<char>) -> Option<ContractError>) -> spec_fn(
    Seq<char>,
) -> bool {
    |id: Seq<char>| check(id) is Some
}

/// The error of the first token that `check` refuses, if it refuses any.
pub open spec fn first_failure(
    ids: Seq<Seq<char>>,
    check: spec_fn(Seq<char>) -> Option<ContractError>,
) -> Option<ContractError> {
    let i = first_index(ids, refuses(check));
    if i < ids.len() {
        check(ids[i])
    } else {
        None
    }
}

/// A member must have a rank on record.
pub open spec fn rank_check(ledger: LedgerModel) -> spec_fn(Seq<char>) -> Option<ContractError> {
    |id: Seq<char>|
        if ledger.ranks.contains(id) {
            None
        } else {
            Some(ContractError::UnknownRank)
        }
}

/// A member must show its public metadata and must not be an alpha.
pub open spec fn alpha_check(registry: KeymapModel<NftDossierModel>) -> spec_fn(Seq<char>) -> Option<
    ContractError,
> {
    |id: Seq<char>|
        match public_of(registry, id) {
            None => Some(ContractError::MetadataMissing),
            Some(public) => if has_trait(public.attributes, alpha_name()) {
                Some(ContractError::AlphaAsMember)
            } else {
                None
            },
        }
}

/// A member's experience must be a number, and at least the minimum.
pub open spec fn xp_check(registry: KeymapModel<NftDossierModel>) -> spec_fn(Seq<char>) -> Option<
    ContractError,
> {
    |id: Seq<char>|
        match public_of(registry, id) {
            None => Some(ContractError::MetadataMissing),
            Some(public) => match trait_number(public.attributes, xp_name(), u32::MAX as nat) {
                None => Some(ContractError::MalformedMetadata),
                Some(xp) => if xp < MIN_MEMBER_XP {
                    Some(ContractError::ExperienceTooLow)
                } else {
                    None
                },
            },
        }
}

/// A member must have a media file on each side.
pub open spec fn media_check(registry: KeymapModel<NftDossierModel>) -> spec_fn(Seq<char>) -> Option<
    ContractError,
> {
    |id: Seq<char>|
        match public_of(registry, id) {
            None => Some(ContractError::MetadataMissing),
            Some(public) => if public.media.len() == 0 {
                Some(ContractError::MalformedMetadata)
            } else {
                match private_of(registry, id) {
                    None => Some(ContractError::MetadataMissing),
                    Some(private) => if private.media.len() == 0 {
                        Some(ContractError::MalformedMetadata)
                    } else {
                        None
                    },
                }
            },
        }
}

/// The experience that a member brings.
pub open spec fn member_xp(registry: KeymapModel<NftDossierModel>) -> spec_fn(Seq<char>) -> nat {
    |id: Seq<char>|
        match public_of(registry, id) {
            Some(public) => match trait_number(public.attributes, xp_name(), u32::MAX as nat) {
                Some(xp) => xp,
                None => 0,
            },
            None => 0,
        }
}

/// The score that a member brings: the size of the collection less its
/// rank.
pub open spec fn member_score(ledger: LedgerModel) -> spec_fn(Seq<char>) -> nat {
    |id: Seq<char>|
        match ledger.ranks.get(id) {
            Some(rank) => contribution(ledger.config.collection_size, rank),
            None => 0,
        }
}

/// The record that the membership list gets of a member.
pub open spec fn member_record(
    ledger: LedgerModel,
    registry: KeymapModel<NftDossierModel>,
) -> spec_fn(Seq<char>) -> PackMemberModel {
    |id: Seq<char>|
        PackMemberModel {
            token_id: id,
            rank: ledger.ranks.get(id).unwrap(),
            attributes: public_of(registry, id).unwrap().attributes,
        }
}

/// The first public media file of a member.
pub open spec fn member_public_media(registry: KeymapModel<NftDossierModel>) -> spec_fn(
    Seq<char>,
) -> MediaFileModel {
    |id: Seq<char>| public_of(registry, id).unwrap().media[0]
}

/// The first private media file of a member.
pub open spec fn member_private_media(registry: KeymapModel<NftDossierModel>) -> spec_fn(
    Seq<char>,
) -> MediaFileModel {
    |id: Seq<char>| private_of(registry, id).unwrap().media[0]
}

/// A call of the merge: who calls, for which account, with which tokens,
/// and what the leader and its new name are.
pub struct MergeCall {
    /// The block time, in seconds.
    pub time: u64,
    /// The caller.
    pub sender: Seq<char>,
    /// The account that sent the tokens.
    pub from: Seq<char>,
    /// The tokens sent, the leader among them.
    pub token_ids: Seq<Seq<char>>,
    /// The leader.
    pub main_token_id: Seq<char>,
    /// The display name for the leader.
    pub name: Seq<char>,
}

impl MergeCall {
    /// The tokens to absorb: those sent, less the first occurrence of the
    /// leader.
    pub open spec fn members(self) -> Seq<Seq<char>> {
        self.token_ids.remove(text_index(self.token_ids, self.main_token_id))
    }

    /// The experience that the members bring together.
    pub open spec fn xp_total(self, registry: KeymapModel<NftDossierModel>) -> nat {
        sum_of(self.members(), member_xp(registry))
    }

    /// The score that the members bring together.
    pub open spec fn score_total(self, ledger: LedgerModel) -> nat {
        sum_of(self.members(), member_score(ledger))
    }
}

/// What a merge makes of the leader's numbers.
pub struct LeaderGain {
    /// The leader's experience after the merge.
    pub xp: nat,
    /// The size of its pack after the merge.
    pub pack_count: nat,
    /// The score of its pack after the merge.
    pub pack_rank: nat,
    /// The leader's level before the merge.
    pub old_level: u16,
    /// Its level after the merge, where the rule gives one.
    pub new_level: Option<u16>,
}

/// The number that the attribute `name` holds, a missing attribute
/// counting as zero.
pub open spec fn number_or_zero(attributes: Seq<TraitModel>, name: Seq<char>, max: nat) -> nat {
    match trait_number(attributes, name, max) {
        Some(v) => v,
        None => 0,
    }
}

/// The leader's numbers after it has absorbed `n` members with the
/// experience `xp_total` and the score `score_total`.
pub open spec fn leader_gain(
    attributes: Seq<TraitModel>,
    levels: Seq<Level>,
    cap: u16,
    n: nat,
    xp_total: nat,
    score_total: nat,
) -> LeaderGain {
    let xp = number_or_zero(attributes, xp_name(), u32::MAX as nat) + xp_total;
    let old_level = number_or_zero(attributes, lvl_name(), u16::MAX as nat) as u16;
    LeaderGain {
        xp: xp,
        pack_count: number_or_zero(attributes, pack_name(), u16::MAX as nat) + n,
        pack_rank: number_or_zero(attributes, pack_rank_name(), u32::MAX as nat) + score_total,
        old_level: old_level,
        new_level: next_level(levels, cap, old_level, xp),
    }
}

/// Whether the leader's numbers can be read and raised: the first failure,
/// in this order. The experience, the level and the pack size must be
/// numbers; the pack score must be a number where the leader has one; no
/// sum may leave the range of its type; and the rule must give a level.
pub open spec fn leader_numbers_failure(
    attributes: Seq<TraitModel>,
    levels: Seq<Level>,
    cap: u16,
    total_burned: u16,
    n: nat,
    xp_total: nat,
    score_total: nat,
) -> Option<ContractError> {
    let gain = leader_gain(attributes, levels, cap, n, xp_total, score_total);
    if trait_number(attributes, xp_name(), u32::MAX as nat) is None {
        Some(ContractError::MalformedMetadata)
    } else if trait_number(attributes, lvl_name(), u16::MAX as nat) is None {
        Some(ContractError::MalformedMetadata)
    } else if trait_number(attributes, pack_name(), u16::MAX as nat) is None {
        Some(ContractError::MalformedMetadata)
    } else if has_trait(attributes, pack_rank_name()) && trait_number(
        attributes,
        pack_rank_name(),
        u32::MAX as nat,
    ) is None {
        Some(ContractError::MalformedMetadata)
    } else if gain.xp > u32::MAX || gain.pack_count > u16::MAX || gain.pack_rank > u32::MAX
        || total_burned + n > u16::MAX {
        Some(ContractError::ArithmeticOverflow)
    } else if gain.new_level is None {
        Some(ContractError::LevelNotFound)
    } else {
        None
    }
}

/// The leader's attributes after the merge: a pack score of zero is added
/// where the leader has none, then experience, pack size, pack score and
/// level are set to their new numbers. Every other attribute, and the
/// order of all, stays.
pub open spec fn merged_attributes(attributes: Seq<TraitModel>, gain: LeaderGain) -> Seq<TraitModel> {
    let a1 = with_zero_default(attributes, pack_rank_name());
    let a2 = with_number(a1, xp_name(), gain.xp);
    let a3 = with_number(a2, pack_name(), gain.pack_count);
    let a4 = with_number(a3, pack_rank_name(), gain.pack_rank);
    with_number(a4, lvl_name(), gain.new_level.unwrap() as nat)
}

/// The first check that a merge fails, if it fails any. The checks, in
/// order:
///
/// 1. where payment is required, the account has a pending payment;
/// 2. the leader is among the tokens sent;
/// 3. the caller is the registry;
/// 4. every member has a rank;
/// 5. every member shows its public metadata and is no alpha;
/// 6. the leader shows its public metadata and is an alpha;
/// 7. every member's experience is a number and reaches the minimum;
/// 8. every member has a media file on each side;
/// 9. the leader shows its private metadata;
/// 10. the leader's numbers can be read and raised.
pub open spec fn merge_failure(
    ledger: LedgerModel,
    registry: KeymapModel<NftDossierModel>,
    call: MergeCall,
) -> Option<ContractError> {
    let members = call.members();
    if ledger.config.is_payment_needed && text_index(ledger.paid_addresses, call.from)
        >= ledger.paid_addresses.len() {
        Some(ContractError::PaymentNotReceived)
    } else if text_index(call.token_ids, call.main_token_id) >= call.token_ids.len() {
        Some(ContractError::MainTokenNotInList)
    } else if call.sender != ledger.config.nft_contract.address {
        Some(ContractError::NotRegistryCaller)
    } else if first_failure(members, rank_check(ledger)) is Some {
        first_failure(members, rank_check(ledger))
    } else if first_failure(members, alpha_check(registry)) is Some {
        first_failure(members, alpha_check(registry))
    } else if public_of(registry, call.main_token_id) is None {
        Some(ContractError::MetadataMissing)
    } else if !has_trait(public_of(registry, call.main_token_id).unwrap().attributes, alpha_name()) {
        Some(ContractError::LeaderNotAlpha)
    } else if first_failure(members, xp_check(registry)) is Some {
        first_failure(members, xp_check(registry))
    } else if first_failure(members, media_check(registry)) is Some {
        first_failure(members, media_check(registry))
    } else if private_of(registry, call.main_token_id) is None {
        Some(ContractError::MetadataMissing)
    } else {
        leader_numbers_failure(
            public_of(registry, call.main_token_id).unwrap().attributes,
            ledger.levels,
            ledger.config.level_cap,
            ledger.config.total_burned,
            members.len(),
            call.xp_total(registry),
            call.score_total(ledger),
        )
    }
}

/// The leader's numbers after the merge `call`.
pub open spec fn merge_gain(
    ledger: LedgerModel,
    registry: KeymapModel<NftDossierModel>,
    call: MergeCall,
) -> LeaderGain {
    leader_gain(
        public_of(registry, call.main_token_id).unwrap().attributes,
        ledger.levels,
        ledger.config.level_cap,
        call.members().len(),
        call.xp_total(registry),
        call.score_total(ledger),
    )
}

/// The public side of the leader after the merge: the new name, the media
/// followed by the first public media file of each member, and the
/// attributes with the new numbers.
pub open spec fn merged_public(
    ledger: LedgerModel,
    registry: KeymapModel<NftDossierModel>,
    call: MergeCall,
) -> MetadataModel {
    let public = public_of(registry, call.main_token_id).unwrap();
    MetadataModel {
        name: Some(call.name),
        attributes: merged_attributes(public.attributes, merge_gain(ledger, registry, call)),
        media: public.media + call.members().map_values(member_public_media(registry)),
    }
}

/// The private side of the leader after the merge: as before, the media
/// followed by the first private media file of each member.
pub open spec fn merged_private(
    registry: KeymapModel<NftDossierModel>,
    call: MergeCall,
) -> MetadataModel {
    let private = private_of(registry, call.main_token_id).unwrap();
    MetadataModel {
        name: private.name,
        attributes: private.attributes,
        media: private.media + call.members().map_values(member_private_media(registry)),
    }
}

/// The list that `key` has in `store`, the empty list where it has none.
pub open spec fn list_of<T>(store: KeymapModel<Seq<T>>, key: Seq<char>) -> Seq<T> {
    match store.get(key) {
        Some(list) => list,
        None => Seq::empty(),
    }
}

/// The pending payments after `account` has used its own, if it had one.
pub open spec fn without_payment(paid: Seq<Seq<char>>, account: Seq<char>) -> Seq<Seq<char>> {
    if text_index(paid, account) < paid.len() {
        paid.remove(text_index(paid, account))
    } else {
        paid
    }
}

/// The ledger after a merge that passed every check.
pub open spec fn merged_ledger(
    ledger: LedgerModel,
    registry: KeymapModel<NftDossierModel>,
    call: MergeCall,
) -> LedgerModel {
    let members = call.members();
    let gain = merge_gain(ledger, registry, call);
    LedgerModel {
        config: StateModel {
            total_burned: (ledger.config.total_burned + members.len()) as u16,
            ..ledger.config
        },
        paid_addresses: without_payment(ledger.paid_addresses, call.from),
        pack_members: if members.len() > 0 {
            ledger.pack_members.insert(
                call.main_token_id,
                list_of(ledger.pack_members, call.main_token_id) + members.map_values(
                    member_record(ledger, registry),
                ),
            )
        } else {
            ledger.pack_members
        },
        pack_mains: ledger.pack_mains.insert(
            call.main_token_id,
            PackMainModel {
                token_id: call.main_token_id,
                pack_rank: gain.pack_rank as u32,
                pack_count: gain.pack_count as u16,
                name: call.name,
            },
        ),
        history: ledger.history.insert(
            call.from,
            list_of(ledger.history, call.from).push(
                HistoryTokenModel {
                    wolf_main_token_id: call.main_token_id,
                    pack_member_token_ids: members,
                    pack_build_date: Some(call.time),
                },
            ),
        ),
        ..ledger
    }
}

/// What a merge that passed every check asks of the host: retire the
/// members, write the leader's metadata, send the leader back, in this
/// order; and reports a raised level.
pub open spec fn merged_response(
    ledger: LedgerModel,
    registry: KeymapModel<NftDossierModel>,
    call: MergeCall,
) -> ResponseModel {
    let gain = merge_gain(ledger, registry, call);
    let contract = ledger.config.nft_contract;
    ResponseModel {
        messages: seq![
            CommandModel::BatchBurnNft { token_ids: call.members(), contract: contract },
            CommandModel::SetMetadata {
                token_id: call.main_token_id,
                public_metadata: merged_public(ledger, registry, call),
                private_metadata: merged_private(registry, call),
                contract: contract,
            },
            CommandModel::TransferNft {
                recipient: call.from,
                token_id: call.main_token_id,
                contract: contract,
            },
        ],
        attributes: if gain.new_level.unwrap() > gain.old_level {
            seq![
                AttributeModel {
                    key: lvl_increase_key(),
                    value: decimal_text(gain.new_level.unwrap() as nat),
                },
            ]
        } else {
            Seq::empty()
        },
    }
}

/// A token that `check` refuses, with none refused before it, decides the
/// first failure.
pub proof fn lemma_first_failure_at(
    ids: Seq<Seq<char>>,
    check: spec_fn(Seq<char>) -> Option<ContractError>,
    i: int,
)
    requires
        0 <= i < ids.len(),
        forall|j: int| 0 <= j < i ==> check(#[trigger] ids[j]) is None,
        check(ids[i]) is Some,
    ensures
        first_failure(ids, check) == check(ids[i]),
{
    assert forall|j: int| 0 <= j < i implies !refuses(check)(#[trigger] ids[j]) by {
        assert(check(ids[j]) is None);
    }
    lemma_first_index_is(ids, refuses(check), i);
}

/// There is no first failure exactly when `check` refuses no token.
pub proof fn lemma_no_failure(ids: Seq<Seq<char>>, check: spec_fn(Seq<char>) -> Option<ContractError>)
    ensures
        first_failure(ids, check) is None <==> forall|j: int|
            0 <= j < ids.len() ==> check(#[trigger] ids[j]) is None,
{
    lemma_first_index(ids, refuses(check));
    let k = first_index(ids, refuses(check));
    if k < ids.len() {
        assert(refuses(check)(ids[k]));
        assert(check(ids[k]) is Some);
    } else {
        assert forall|j: int| 0 <= j < ids.len() implies check(#[trigger] ids[j]) is None by {
            assert(!refuses(check)(ids[j]));
        }
    }
}

/// The public side of a token's metadata, where the registry shows it.
pub fn public_side<'a>(registry: &'a Keymap<NftDossier>, id: &String) -> (r: Option<&'a Metadata>)
    requires
        registry.wf(),
    ensures
        r.deep_view() == public_of(registry@, id@),
{
    match registry.get(id) {
        Some(dossier) => match &dossier.public_metadata {
            Some(public) => Some(public),
            None => None,
        },
        None => None,
    }
}

/// The private side of a token's metadata, where the registry shows it.
pub fn private_side<'a>(registry: &'a Keymap<NftDossier>, id: &String) -> (r: Option<&'a Metadata>)
    requires
        registry.wf(),
    ensures
        r.deep_view() == private_of(registry@, id@),
{
    match registry.get(id) {
        Some(dossier) => match &dossier.private_metadata {
            Some(private) => Some(private),
            None => None,
        },
        None => None,
    }
}

/// Takes the first occurrence of the leader out of the tokens sent.
///
/// Returns the members, or `None` where the leader is not among the tokens.
pub fn take_members(token_ids: Vec<String>, main_token_id: &String) -> (r: Option<Vec<String>>)
    ensures
        match r {
            Some(members) => {
                &&& text_index(token_ids.deep_view(), main_token_id@) < token_ids.len()
                &&& members.deep_view() == token_ids.deep_view().remove(
                    text_index(token_ids.deep_view(), main_token_id@),
                )
            },
            None => text_index(token_ids.deep_view(), main_token_id@) >= token_ids.len(),
        },
{
    let mut ids = token_ids;
    match position_of(&ids, main_token_id) {
        Some(i) => {
            ids.remove(i);
            assert(ids.deep_view() =~= token_ids.deep_view().remove(i as int));
            Some(ids)
        },
        None => None,
    }
}

/// Looks up the rank of every member and adds up the scores.
///
/// Fails with the error of the first member without a rank.
pub fn check_ranks(ledger: &Ledger, members: &Vec<String>) -> (r: Result<
    (Vec<u16>, u128),
    ContractError,
>)
    requires
        ledger.wf(),
    ensures
        match r {
            Err(e) => first_failure(members.deep_view(), rank_check(ledger@)) == Some(e),
            Ok((ranks, score)) => {
                &&& first_failure(members.deep_view(), rank_check(ledger@)) is None
                &&& ranks@.len() == members.len()
                &&& forall|i: int|
                    0 <= i < members.len() ==> ledger@.ranks.get(
                        #[trigger] members.deep_view()[i],
                    ) == Some(ranks@[i])
                &&& forall|i: int|
                    0 <= i < ranks@.len() ==> 1 <= #[trigger] ranks@[i]
                        <= ledger.config.collection_size
                &&& score == sum_of(members.deep_view(), member_score(ledger@))
                &&& score <= 0xFFFF * members.len()
            },
        },
{
    let ghost ids = members.deep_view();
    let ghost check = rank_check(ledger@);
    let size = ledger.config.collection_size;
    let mut ranks: Vec<u16> = Vec::new();
    let mut score: u128 = 0;
    let mut i: usize = 0;
    while i < members.len()
        invariant
            i <= members.len(),
            ledger.wf(),
            ids == members.deep_view(),
            check == rank_check(ledger@),
            size == ledger.config.collection_size,
            forall|j: int| 0 <= j < i ==> check(#[trigger] ids[j]) is None,
            ranks@.len() == i,
            forall|j: int| 0 <= j < i ==> ledger@.ranks.get(#[trigger] ids[j]) == Some(ranks@[j]),
            forall|j: int| 0 <= j < i ==> 1 <= #[trigger] ranks@[j] <= size,
            score == sum_of(ids.take(i as int), member_score(ledger@)),
            score <= 0xFFFF * i,
        decreases members.len() - i,
    {
        assert(ids[i as int] == members[i as int]@);
        match ledger.ranks.get(&members[i]) {
            Some(rank) => {
                let rank: u16 = *rank;
                proof {
                    ledger@.ranks.lemma_contains(ids[i as int]);
                    let k = ledger@.ranks.index_of(ids[i as int]);
                    assert(ledger@.ranks.values[k] == rank);
                    lemma_sum_step(ids, member_score(ledger@), i as int);
                }
                score = score + (size - rank) as u128;
                ranks.push(rank);
            },
            None => {
                proof {
                    lemma_first_failure_at(ids, check, i as int);
                }
                return Err(ContractError::UnknownRank);
            },
        }
        i = i + 1;
    }
    proof {
        lemma_no_failure(ids, check);
        assert(ids.take(i as int) =~= ids);
    }
    Ok((ranks, score))
}

/// Checks that every member shows its public metadata and is no alpha.
///
/// Returns the error of the first member that fails.
pub fn check_no_alpha(registry: &Keymap<NftDossier>, members: &Vec<String>) -> (r: Option<
    ContractError,
>)
    requires
        registry.wf(),
    ensures
        r == first_failure(members.deep_view(), alpha_check(registry@)),
{
    let ghost ids = members.deep_view();
    let ghost check = alpha_check(registry@);
    let mut i: usize = 0;
    while i < members.len()
        invariant
            i <= members.len(),
            registry.wf(),
            ids == members.deep_view(),
            check == alpha_check(registry@),
            forall|j: int| 0 <= j < i ==> check(#[trigger] ids[j]) is None,
        decreases members.len() - i,
    {
        assert(ids[i as int] == members[i as int]@);
        let failure = match public_side(registry, &members[i]) {
            None => Some(ContractError::MetadataMissing),
            Some(public) => if carries(&public.attributes, "Alpha") {
                Some(ContractError::AlphaAsMember)
            } else {
                None
            },
        };
        assert(failure == check(ids[i as int]));
        if failure.is_some() {
            proof {
                lemma_first_failure_at(ids, check, i as int);
            }
            return failure;
        }
        i = i + 1;
    }
    proof {
        lemma_no_failure(ids, check);
    }
    None
}

/// Reads the experience of every member and adds it up.
///
/// Fails with the error of the first member whose experience is no number
/// or lies below the minimum.
pub fn check_experience(registry: &Keymap<NftDossier>, members: &Vec<String>) -> (r: Result<
    u128,
    ContractError,
>)
    requires
        registry.wf(),
    ensures
        match r {
            Err(e) => first_failure(members.deep_view(), xp_check(registry@)) == Some(e),
            Ok(total) => {
                &&& first_failure(members.deep_view(), xp_check(registry@)) is None
                &&& total == sum_of(members.deep_view(), member_xp(registry@))
                &&& total <= 0xFFFF_FFFF * members.len()
            },
        },
{
    let ghost ids = members.deep_view();
    let ghost check = xp_check(registry@);
    let mut total: u128 = 0;
    let mut i: usize = 0;
    while i < members.len()
        invariant
            i <= members.len(),
            registry.wf(),
            ids == members.deep_view(),
            check == xp_check(registry@),
            forall|j: int| 0 <= j < i ==> check(#[trigger] ids[j]) is None,
            total == sum_of(ids.take(i as int), member_xp(registry@)),
            total <= 0xFFFF_FFFF * i,
        decreases members.len() - i,
    {
        assert(ids[i as int] == members[i as int]@);
        let reading: Result<u64, ContractError> = match public_side(registry, &members[i]) {
            None => Err(ContractError::MetadataMissing),
            Some(public) => match read_number(&public.attributes, "XP", 0xFFFF_FFFF) {
                None => Err(ContractError::MalformedMetadata),
                Some(xp) => if xp < MIN_MEMBER_XP as u64 {
                    Err(ContractError::ExperienceTooLow)
                } else {
                    Ok(xp)
                },
            },
        };
        match reading {
            Err(e) => {
                proof {
                    assert(check(ids[i as int]) == Some(e));
                    lemma_first_failure_at(ids, check, i as int);
                }
                return Err(e);
            },
            Ok(xp) => {
                proof {
                    assert(check(ids[i as int]) is None);
                    assert(member_xp(registry@)(ids[i as int]) == xp);
                    lemma_sum_step(ids, member_xp(registry@), i as int);
                }
                total = total + xp as u128;
            },
        }
        i = i + 1;
    }
    proof {
        lemma_no_failure(ids, check);
        assert(ids.take(i as int) =~= ids);
    }
    Ok(total)
}

/// What the members of a merge leave behind: their records, and the first
/// media file of each on either side.
struct Absorbed {
    records: Vec<PackMember>,
    public_media: Vec<MediaFile>,
    private_media: Vec<MediaFile>,
}

/// Makes the record of every member and collects the first media file of
/// each on either side.
///
/// Fails with the error of the first member that lacks a side or a media
/// file.
fn collect_members(
    registry: &Keymap<NftDossier>,
    members: &Vec<String>,
    ranks: &Vec<u16>,
) -> (r: Result<Absorbed, ContractError>)
    requires
        registry.wf(),
        ranks.len() == members.len(),
    ensures
        match r {
            Err(e) => first_failure(members.deep_view(), media_check(registry@)) == Some(e),
            Ok(absorbed) => {
                &&& first_failure(members.deep_view(), media_check(registry@)) is None
                &&& absorbed.records.len() == members.len()
                &&& forall|i: int|
                    0 <= i < members.len() ==> (#[trigger] absorbed.records.deep_view()[i])
                        == (PackMemberModel {
                        token_id: members.deep_view()[i],
                        rank: ranks@[i],
                        attributes: public_of(registry@, members.deep_view()[i]).unwrap().attributes,
                    })
                &&& absorbed.public_media.deep_view() == members.deep_view().map_values(
                    member_public_media(registry@),
                )
                &&& absorbed.private_media.deep_view() == members.deep_view().map_values(
                    member_private_media(registry@),
                )
            },
        },
{
    let ghost ids = members.deep_view();
    let ghost check = media_check(registry@);
    let mut records: Vec<PackMember> = Vec::new();
    let mut public_media: Vec<MediaFile> = Vec::new();
    let mut private_media: Vec<MediaFile> = Vec::new();
    let mut i: usize = 0;
    while i < members.len()
        invariant
            i <= members.len(),
            registry.wf(),
            ranks.len() == members.len(),
            ids == members.deep_view(),
            check == media_check(registry@),
            forall|j: int| 0 <= j < i ==> check(#[trigger] ids[j]) is None,
            records.len() == i,
            public_media.len() == i,
            private_media.len() == i,
            forall|j: int|
                0 <= j < i ==> (#[trigger] records.deep_view()[j]) == (PackMemberModel {
                    token_id: ids[j],
                    rank: ranks@[j],
                    attributes: public_of(registry@, ids[j]).unwrap().attributes,
                }),
            forall|j: int|
                0 <= j < i ==> (#[trigger] public_media.deep_view()[j]) == member_public_media(
                    registry@,
                )(ids[j]),
            forall|j: int|
                0 <= j < i ==> (#[trigger] private_media.deep_view()[j]) == member_private_media(
                    registry@,
                )(ids[j]),
        decreases members.len() - i,
    {
        assert(ids[i as int] == members[i as int]@);
        let public = match public_side(registry, &members[i]) {
            Some(public) => public,
            None => {
                proof {
                    lemma_first_failure_at(ids, check, i as int);
                }
                return Err(ContractError::MetadataMissing);
            },
        };
        if public.media.len() == 0 {
            proof {
                lemma_first_failure_at(ids, check, i as int);
            }
            return Err(ContractError::MalformedMetadata);
        }
        let private = match private_side(registry, &members[i]) {
            Some(private) => private,
            None => {
                proof {
                    lemma_first_failure_at(ids, check, i as int);
                }
                return Err(ContractError::MetadataMissing);
            },
        };
        if private.media.len() == 0 {
            proof {
                lemma_first_failure_at(ids, check, i as int);
            }
            return Err(ContractError::MalformedMetadata);
        }
        assert(check(ids[i as int]) is None);
        let attributes = public.attributes.clone();
        assert(attributes.deep_view() =~= public.attributes.deep_view());
        let record = PackMember { token_id: members[i].clone(), rank: ranks[i], attributes };
        let first_public = public.media[0].clone();
        let first_private = private.media[0].clone();
        proof {
            assert(public.media.deep_view()[0] == public.media[0]@);
            assert(private.media.deep_view()[0] == private.media[0]@);
        }
        let ghost old_records = records.deep_view();
        let ghost old_public = public_media.deep_view();
        let ghost old_private = private_media.deep_view();
        records.push(record);
        public_media.push(first_public);
        private_media.push(first_private);
        proof {
            assert(records.deep_view() =~= old_records.push(record@));
            assert(public_media.deep_view() =~= old_public.push(first_public@));
            assert(private_media.deep_view() =~= old_private.push(first_private@));
        }
        i = i + 1;
    }
    proof {
        lemma_no_failure(ids, check);
        assert(public_media.deep_view() =~= ids.map_values(member_public_media(registry@)));
        assert(private_media.deep_view() =~= ids.map_values(member_private_media(registry@)));
    }
    Ok(Absorbed { records, public_media, private_media })
}

/// What a merge makes of its leader.
pub struct LeaderPlan {
    /// The public side after the merge.
    pub public_metadata: Metadata,
    /// The private side after the merge.
    pub private_metadata: Metadata,
    /// The score of the pack after the merge.
    pub pack_rank: u32,
    /// The size of the pack after the merge.
    pub pack_count: u16,
    /// The leader's level before the merge.
    pub old_level: u16,
    /// Its level after the merge.
    pub new_level: u16,
}

/// Reads the leader's numbers, raises them by what `n` members bring, and
/// writes both sides of the leader's metadata anew.
///
/// Fails where the numbers cannot be read or raised.
pub fn plan_leader(
    levels: &Vec<Level>,
    cap: u16,
    total_burned: u16,
    public: &Metadata,
    private: &Metadata,
    name: &String,
    n: usize,
    xp_total: u128,
    score_total: u128,
    public_media: Vec<MediaFile>,
    private_media: Vec<MediaFile>,
) -> (r: Result<LeaderPlan, ContractError>)
    ensures
        match r {
            Err(e) => leader_numbers_failure(
                public@.attributes,
                levels@,
                cap,
                total_burned,
                n as nat,
                xp_total as nat,
                score_total as nat,
            ) == Some(e),
            Ok(plan) => {
                let gain = leader_gain(
                    public@.attributes,
                    levels@,
                    cap,
                    n as nat,
                    xp_total as nat,
                    score_total as nat,
                );
                &&& leader_numbers_failure(
                    public@.attributes,
                    levels@,
                    cap,
                    total_burned,
                    n as nat,
                    xp_total as nat,
                    score_total as nat,
                ) is None
                &&& plan.public_metadata@ == (MetadataModel {
                    name: Some(name@),
                    attributes: merged_attributes(public@.attributes, gain),
                    media: public@.media + public_media.deep_view(),
                })
                &&& plan.private_metadata@ == (MetadataModel {
                    name: private@.name,
                    attributes: private@.attributes,
                    media: private@.media + private_media.deep_view(),
                })
                &&& plan.pack_rank == gain.pack_rank
                &&& plan.pack_count == gain.pack_count
                &&& plan.old_level == gain.old_level
                &&& Some(plan.new_level) == gain.new_level
            },
        },
{
    let attributes = &public.attributes;
    let xp = match read_number(attributes, "XP", 0xFFFF_FFFF) {
        Some(v) => v,
        None => {
            return Err(ContractError::MalformedMetadata);
        },
    };
    let level = match read_number(attributes, "LVL", 0xFFFF) {
        Some(v) => v as u16,
        None => {
            return Err(ContractError::MalformedMetadata);
        },
    };
    let pack = match read_number(attributes, "Pack", 0xFFFF) {
        Some(v) => v,
        None => {
            return Err(ContractError::MalformedMetadata);
        },
    };
    let has_pack_rank = carries(attributes, "Pack Rank");
    let pack_rank = match read_number(attributes, "Pack Rank", 0xFFFF_FFFF) {
        Some(v) => v,
        None => {
            if has_pack_rank {
                return Err(ContractError::MalformedMetadata);
            }
            0
        },
    };
    let new_xp: u128 = match (xp as u128).checked_add(xp_total) {
        Some(sum) => sum,
        None => {
            return Err(ContractError::ArithmeticOverflow);
        },
    };
    let new_count: u128 = pack as u128 + n as u128;
    let new_rank: u128 = match (pack_rank as u128).checked_add(score_total) {
        Some(sum) => sum,
        None => {
            return Err(ContractError::ArithmeticOverflow);
        },
    };
    if new_xp > 0xFFFF_FFFF || new_count > 0xFFFF || new_rank > 0xFFFF_FFFF || total_burned as u128
        + n as u128 > 0xFFFF {
        return Err(ContractError::ArithmeticOverflow);
    }
    let new_level = match recompute_level(levels, cap, level, new_xp as u32) {
        Some(l) => l,
        None => {
            return Err(ContractError::LevelNotFound);
        },
    };
    let mut new_attributes = attributes.clone();
    assert(new_attributes.deep_view() =~= attributes.deep_view());
    ensure_zero_default(&mut new_attributes, "Pack Rank");
    write_number(&mut new_attributes, "XP", new_xp as u64);
    write_number(&mut new_attributes, "Pack", new_count as u64);
    write_number(&mut new_attributes, "Pack Rank", new_rank as u64);
    write_number(&mut new_attributes, "LVL", new_level as u64);
    let mut media = public.media.clone();
    assert(media.deep_view() =~= public.media.deep_view());
    let mut added = public_media;
    media.append(&mut added);
    assert(media.deep_view() =~= public@.media + public_media.deep_view());
    let mut secret_media = private.media.clone();
    assert(secret_media.deep_view() =~= private.media.deep_view());
    let mut secret_added = private_media;
    secret_media.append(&mut secret_added);
    assert(secret_media.deep_view() =~= private@.media + private_media.deep_view());
    let secret_attributes = private.attributes.clone();
    assert(secret_attributes.deep_view() =~= private.attributes.deep_view());
    Ok(
        LeaderPlan {
            public_metadata: Metadata {
                name: Some(name.clone()),
                attributes: new_attributes,
                media: media,
            },
            private_metadata: Metadata {
                name: private.name.clone(),
                attributes: secret_attributes,
                media: secret_media,
            },
            pack_rank: new_rank as u32,
            pack_count: new_count as u16,
            old_level: level,
            new_level: new_level,
        },
    )
}

/// The call that `join_pack` gets.
pub open spec fn merge_call(
    env: &Env,
    sender: &String,
    from: &String,
    token_ids: &Vec<String>,
    pmsg: &PackBuildMsg,
) -> MergeCall {
    MergeCall {
        time: env.block_time,
        sender: sender@,
        from: from@,
        token_ids: token_ids.deep_view(),
        main_token_id: pmsg.main_token_id@,
        name: pmsg.name@,
    }
}

/// What a merge comes to: the ledger after it, and its result. A merge
/// that fails a check leaves the ledger as it was.
pub open spec fn merge_outcome(
    ledger: LedgerModel,
    registry: KeymapModel<NftDossierModel>,
    call: MergeCall,
) -> (LedgerModel, Result<ResponseModel, ContractError>) {
    match merge_failure(ledger, registry, call) {
        Some(e) => (ledger, Err(e)),
        None => (merged_ledger(ledger, registry, call), Ok(merged_response(ledger, registry, call))),
    }
}

/// Taking one element out of a sequence without duplicates leaves none.
pub proof fn lemma_remove_keeps_distinct<A>(s: Seq<A>, i: int)
    requires
        s.no_duplicates(),
        0 <= i < s.len(),
    ensures
        s.remove(i).no_duplicates(),
        !s.remove(i).contains(s[i]),
{
    let t = s.remove(i);
    assert forall|a: int, b: int| 0 <= a < t.len() && 0 <= b < t.len() && a != b implies t[a]
        != t[b] by {
        let a0 = if a < i {
            a
        } else {
            a + 1
        };
        let b0 = if b < i {
            b
        } else {
            b + 1
        };
        assert(t[a] == s[a0] && t[b] == s[b0]);
    }
    assert forall|a: int| 0 <= a < t.len() implies t[a] != s[i] by {
        let a0 = if a < i {
            a
        } else {
            a + 1
        };
        assert(t[a] == s[a0]);
    }
}

/// A merge that passes every check leaves the ledger's invariant in place.
/// In particular no alpha enters a membership list.
pub proof fn lemma_merge_keeps_wf(
    ledger: LedgerModel,
    registry: KeymapModel<NftDossierModel>,
    call: MergeCall,
)
    requires
        ledger.wf(),
        merge_failure(ledger, registry, call) is None,
    ensures
        merged_ledger(ledger, registry, call).wf(),
{
    let after = merged_ledger(ledger, registry, call);
    let members = call.members();
    let size = ledger.config.collection_size;
    let main = call.main_token_id;
    // pending payments
    lemma_first_index(ledger.paid_addresses, is_text(call.from));
    if text_index(ledger.paid_addresses, call.from) < ledger.paid_addresses.len() {
        lemma_remove_keeps_distinct(ledger.paid_addresses, text_index(ledger.paid_addresses, call.from));
    }
    // leaderboard
    let row = PackMainModel {
        token_id: main,
        pack_rank: merge_gain(ledger, registry, call).pack_rank as u32,
        pack_count: merge_gain(ledger, registry, call).pack_count as u16,
        name: call.name,
    };
    ledger.pack_mains.lemma_insert(main, row);
    ledger.pack_mains.lemma_contains(main);
    assert forall|i: int| 0 <= i < after.pack_mains.values.len() implies (
    #[trigger] after.pack_mains.values[i]).token_id == after.pack_mains.keys[i] by {
        if ledger.pack_mains.contains(main) {
            if i != ledger.pack_mains.index_of(main) {
                assert(after.pack_mains.values[i] == ledger.pack_mains.values[i]);
            }
        } else {
            if i < ledger.pack_mains.values.len() {
                assert(after.pack_mains.values[i] == ledger.pack_mains.values[i]);
            }
        }
    }
    // history
    let entry = HistoryTokenModel {
        wolf_main_token_id: main,
        pack_member_token_ids: members,
        pack_build_date: Some(call.time),
    };
    ledger.history.lemma_insert(call.from, list_of(ledger.history, call.from).push(entry));
    // membership
    if members.len() > 0 {
        let old_list = list_of(ledger.pack_members, main);
        let added = members.map_values(member_record(ledger, registry));
        let new_list = old_list + added;
        ledger.pack_members.lemma_insert(main, new_list);
        ledger.pack_members.lemma_contains(main);
        lemma_no_failure(members, rank_check(ledger));
        lemma_no_failure(members, alpha_check(registry));
        assert forall|j: int| 0 <= j < new_list.len() implies member_ok(
            #[trigger] new_list[j],
            size,
        ) by {
            if j < old_list.len() {
                let k = ledger.pack_members.index_of(main);
                assert(ledger.pack_members.values[k] == old_list);
                assert(member_ok(ledger.pack_members.values[k][j], size));
            } else {
                let m = j - old_list.len();
                let id = members[m];
                assert(new_list[j] == member_record(ledger, registry)(id));
                assert(rank_check(ledger)(id) is None);
                assert(alpha_check(registry)(id) is None);
                ledger.ranks.lemma_contains(id);
                let r = ledger.ranks.index_of(id);
                assert(1 <= ledger.ranks.values[r] <= size);
            }
        }
        assert forall|i: int, j: int|
            0 <= i < after.pack_members.values.len() && 0 <= j
                < after.pack_members.values[i].len() implies member_ok(
            #[trigger] after.pack_members.values[i][j],
            size,
        ) by {
            if ledger.pack_members.contains(main) {
                if i != ledger.pack_members.index_of(main) {
                    assert(after.pack_members.values[i] == ledger.pack_members.values[i]);
                    assert(member_ok(ledger.pack_members.values[i][j], size));
                } else {
                    assert(after.pack_members.values[i] == new_list);
                }
            } else {
                if i < ledger.pack_members.values.len() {
                    assert(after.pack_members.values[i] == ledger.pack_members.values[i]);
                    assert(member_ok(ledger.pack_members.values[i][j], size));
                } else {
                    assert(after.pack_members.values[i] == new_list);
                }
            }
        }
    }
}

/// Merges the tokens sent along into the leader that `pmsg` names.
///
/// The merge is checked in full first; where a check fails the error of the
/// first failing check comes back and the ledger is as it was. Otherwise
/// the account's payment is used up, the members are recorded under the
/// leader, the leaderboard row and the account's history are written, the
/// retired count is raised, and the requests to the registry come back.
pub fn join_pack(
    env: &Env,
    ledger: &mut Ledger,
    registry: &Keymap<NftDossier>,
    sender: &String,
    from: &String,
    token_ids: Vec<String>,
    pmsg: PackBuildMsg,
) -> (r: Result<Response, ContractError>)
    requires
        old(ledger).wf(),
        registry.wf(),
    ensures
        final(ledger).wf(),
        final(ledger)@ == merge_outcome(
            old(ledger)@,
            registry@,
            merge_call(env, sender, from, &token_ids, &pmsg),
        ).0,
        is_result(
            r,
            merge_outcome(
                old(ledger)@,
                registry@,
                merge_call(env, sender, from, &token_ids, &pmsg),
            ).1,
        ),
{
    let ghost call = merge_call(env, sender, from, &token_ids, &pmsg);
    let ghost before = ledger@;
    let paid = position_of(&ledger.paid_addresses, from);
    if ledger.config.is_payment_needed && paid.is_none() {
        return Err(ContractError::PaymentNotReceived);
    }
    let members = match take_members(token_ids, &pmsg.main_token_id) {
        Some(members) => members,
        None => {
            return Err(ContractError::MainTokenNotInList);
        },
    };
    assert(members.deep_view() == call.members());
    if !(*sender == ledger.config.nft_contract.address) {
        return Err(ContractError::NotRegistryCaller);
    }
    let (ranks, score_total) = match check_ranks(ledger, &members) {
        Ok(found) => found,
        Err(e) => {
            return Err(e);
        },
    };
    match check_no_alpha(registry, &members) {
        Some(e) => {
            return Err(e);
        },
        None => {},
    }
    let public = match public_side(registry, &pmsg.main_token_id) {
        Some(public) => public,
        None => {
            return Err(ContractError::MetadataMissing);
        },
    };
    if !carries(&public.attributes, "Alpha") {
        return Err(ContractError::LeaderNotAlpha);
    }
    let xp_total = match check_experience(registry, &members) {
        Ok(total) => total,
        Err(e) => {
            return Err(e);
        },
    };
    let absorbed = match collect_members(registry, &members, &ranks) {
        Ok(absorbed) => absorbed,
        Err(e) => {
            return Err(e);
        },
    };
    let private = match private_side(registry, &pmsg.main_token_id) {
        Some(private) => private,
        None => {
            return Err(ContractError::MetadataMissing);
        },
    };
    let n = members.len();
    let Absorbed { records, public_media, private_media } = absorbed;
    let plan = match plan_leader(
        &ledger.levels,
        ledger.config.level_cap,
        ledger.config.total_burned,
        public,
        private,
        &pmsg.name,
        n,
        xp_total,
        score_total,
        public_media,
        private_media,
    ) {
        Ok(plan) => plan,
        Err(e) => {
            return Err(e);
        },
    };
    proof {
        assert(merge_failure(before, registry@, call) is None);
        assert(records.deep_view() =~= call.members().map_values(
            member_record(before, registry@),
        ));
        lemma_merge_keeps_wf(before, registry@, call);
    }
    let ghost gain = merge_gain(before, registry@, call);
    // Every check has passed: from here on the ledger changes.
    match paid {
        Some(p) => {
            ledger.paid_addresses.remove(p);
            assert(ledger.paid_addresses.deep_view() =~= without_payment(
                before.paid_addresses,
                call.from,
            ));
        },
        None => {},
    }
    if n > 0 {
        let mut list: Vec<PackMember> = match ledger.pack_members.get(&pmsg.main_token_id) {
            Some(list) => {
                let copy = list.clone();
                assert(copy.deep_view() =~= list.deep_view());
                copy
            },
            None => Vec::new(),
        };
        assert(list.deep_view() =~= list_of(before.pack_members, call.main_token_id));
        let mut added = records;
        list.append(&mut added);
        assert(list.deep_view() =~= list_of(before.pack_members, call.main_token_id)
            + call.members().map_values(member_record(before, registry@)));
        ledger.pack_members.insert(pmsg.main_token_id.clone(), list);
    }
    ledger.pack_mains.insert(
        pmsg.main_token_id.clone(),
        PackMain {
            token_id: pmsg.main_token_id.clone(),
            pack_rank: plan.pack_rank,
            pack_count: plan.pack_count,
            name: pmsg.name.clone(),
        },
    );
    let mut entries: Vec<HistoryToken> = match ledger.history.get(from) {
        Some(entries) => {
            let copy = entries.clone();
            assert(copy.deep_view() =~= entries.deep_view());
            copy
        },
        None => Vec::new(),
    };
    assert(entries.deep_view() =~= list_of(before.history, call.from));
    let burned = members.clone();
    assert(burned.deep_view() =~= members.deep_view());
    let entry = HistoryToken {
        wolf_main_token_id: pmsg.main_token_id.clone(),
        pack_member_token_ids: members,
        pack_build_date: Some(env.block_time),
    };
    let ghost old_entries = entries.deep_view();
    entries.push(entry);
    assert(entries.deep_view() =~= old_entries.push(entry@));
    ledger.history.insert(from.clone(), entries);
    ledger.config.total_burned = ledger.config.total_burned + n as u16;
    assert(ledger@ =~= merged_ledger(before, registry@, call));

    let mut messages: Vec<Command> = Vec::new();
    messages.push(
        Command::BatchBurnNft { token_ids: burned, contract: ledger.config.nft_contract.clone() },
    );
    messages.push(
        Command::SetMetadata {
            token_id: pmsg.main_token_id.clone(),
            public_metadata: plan.public_metadata,
            private_metadata: plan.private_metadata,
            contract: ledger.config.nft_contract.clone(),
        },
    );
    messages.push(
        Command::TransferNft {
            recipient: from.clone(),
            token_id: pmsg.main_token_id.clone(),
            contract: ledger.config.nft_contract.clone(),
        },
    );
    let mut attributes: Vec<Attribute> = Vec::new();
    if plan.new_level > plan.old_level {
        attributes.push(
            Attribute {
                key: String::from_str("lvl_increase"),
                value: format_decimal(plan.new_level as u64),
            },
        );
    }
    let response = Response { messages, attributes };
    assert(response@ =~~= merged_response(before, registry@, call));
    Ok(response)
}

} // verus!
