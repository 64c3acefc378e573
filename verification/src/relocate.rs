//! The relocation: a member moves from one leader to another.
//!
//! Both leaders are checked before either is changed. The checks come in a
//! fixed order, and the first that fails names the error.

use crate::error::ContractError;
use crate::keymap::{Keymap, KeymapModel};
use crate::merge::{list_of, number_or_zero, private_of, private_side, public_of, public_side};
use crate::metadata::{
    alpha_name, carries, ensure_zero_default, has_trait, pack_name, pack_rank_name, read_number,
    trait_number, with_number, with_zero_default, write_number, MediaFile, Metadata,
    MetadataModel, NftDossier, NftDossierModel, Trait, TraitModel,
};
use crate::msg::{
    HistoryToken, HistoryTokenModel, PackMain, PackMainModel, PackMember, PackMemberModel,
    PackTransferMsg,
};
use crate::response::{is_result, Command, CommandModel, Response, ResponseModel};
use crate::seqs::{first_index, lemma_first_index, lemma_first_index_is, position_of, text_index};
use crate::state::{
    contribution, lemma_members_ok_by_key, lemma_members_ok_of_key, lemma_rows_ok_insert, member_ok,
    Env, Ledger, LedgerModel,
};
use vstd::prelude::*;

verus! {

/// The test whether a record is that of the token `id`.
pub open spec fn is_member(id: Seq<char>) -> spec_fn(PackMemberModel) -> bool {
    |m: PackMemberModel| m.token_id == id
}

/// Where the record of the token `id` stands in `list`, or the length of
/// `list` where it has none.
pub open spec fn member_index(list: Seq<PackMemberModel>, id: Seq<char>) -> int {
    first_index(list, is_member(id))
}

/// Whether the attribute `name` cannot be moved by `delta`: it holds no
/// number, or the number would leave the range from zero to `max`. An
/// attribute that is not there fails nothing.
pub open spec fn shift_failure(
    attributes: Seq<TraitModel>,
    name: Seq<char>,
    max: nat,
    delta: int,
) -> Option<ContractError> {
    if !has_trait(attributes, name) {
        None
    } else {
        match trait_number(attributes, name, max) {
            None => Some(ContractError::MalformedMetadata),
            Some(v) => if v + delta < 0 || v + delta > max {
                Some(ContractError::ArithmeticOverflow)
            } else {
                None
            },
        }
    }
}

/// The attributes after the number of the attribute `name` has moved by
/// `delta`; unchanged where the attribute is not there.
pub open spec fn shifted(attributes: Seq<TraitModel>, name: Seq<char>, max: nat, delta: int) -> Seq<
    TraitModel,
> {
    with_number(attributes, name, (number_or_zero(attributes, name, max) + delta) as nat)
}

/// A call of the relocation.
pub struct TransferCall {
    /// The block time, in seconds.
    pub time: u64,
    /// The caller.
    pub sender: Seq<char>,
    /// The account that sent the tokens.
    pub from: Seq<char>,
    /// The tokens sent, both leaders among them.
    pub token_ids: Seq<Seq<char>>,
    /// The leader that the member leaves.
    pub source: Seq<char>,
    /// The leader that the member joins.
    pub target: Seq<char>,
    /// The member.
    pub token_id: Seq<char>,
    /// The index of the member's media file in the source leader's public
    /// and private media, as the caller gives it.
    pub media_index: u8,
}

impl TransferCall {
    /// The members of the source leader.
    pub open spec fn source_list(self, ledger: LedgerModel) -> Seq<PackMemberModel> {
        list_of(ledger.pack_members, self.source)
    }

    /// Where the member stands among them.
    pub open spec fn position(self, ledger: LedgerModel) -> int {
        member_index(self.source_list(ledger), self.token_id)
    }

    /// The member's record.
    pub open spec fn member(self, ledger: LedgerModel) -> PackMemberModel {
        self.source_list(ledger)[self.position(ledger)]
    }

    /// The score that the member carries from one pack to the other.
    pub open spec fn score(self, ledger: LedgerModel) -> nat {
        contribution(ledger.config.collection_size, self.member(ledger).rank)
    }

    /// The row that the target leader has on the leaderboard, or the row
    /// of a leader without members where it has none.
    pub open spec fn target_row(self, ledger: LedgerModel) -> PackMainModel {
        match ledger.pack_mains.get(self.target) {
            Some(row) => row,
            None => PackMainModel {
                token_id: self.target,
                pack_rank: 0,
                pack_count: 0,
                name: Seq::empty(),
            },
        }
    }
}

/// The source leader's public attributes with the pack size lowered by one.
pub open spec fn source_step(attributes: Seq<TraitModel>) -> Seq<TraitModel> {
    shifted(attributes, pack_name(), u16::MAX as nat, -1)
}

/// The source leader's public attributes after the member has left: the
/// pack size is lowered by one and the pack score by the member's score.
pub open spec fn source_attributes(attributes: Seq<TraitModel>, score: nat) -> Seq<TraitModel> {
    shifted(source_step(attributes), pack_rank_name(), u32::MAX as nat, -(score as int))
}

/// The target leader's public attributes with a pack score of zero added
/// where there is none, and the pack size raised by one.
pub open spec fn target_step(attributes: Seq<TraitModel>) -> Seq<TraitModel> {
    shifted(with_zero_default(attributes, pack_rank_name()), pack_name(), u16::MAX as nat, 1)
}

/// The target leader's public attributes after the member has joined: a
/// pack score of zero is added where there is none, the pack size is
/// raised by one and the pack score by the member's score.
pub open spec fn target_attributes(attributes: Seq<TraitModel>, score: nat) -> Seq<TraitModel> {
    shifted(target_step(attributes), pack_rank_name(), u32::MAX as nat, score as int)
}

/// Whether the numbers of both leaders can be moved: the first failure, in
/// this order: the source's pack size, the source's pack score, the
/// target's pack size, the target's pack score.
pub open spec fn attributes_failure(
    source: Seq<TraitModel>,
    target: Seq<TraitModel>,
    score: nat,
) -> Option<ContractError> {
    if shift_failure(source, pack_name(), u16::MAX as nat, -1) is Some {
        shift_failure(source, pack_name(), u16::MAX as nat, -1)
    } else if shift_failure(source_step(source), pack_rank_name(), u32::MAX as nat, -(score as int))
        is Some {
        shift_failure(source_step(source), pack_rank_name(), u32::MAX as nat, -(score as int))
    } else if shift_failure(
        with_zero_default(target, pack_rank_name()),
        pack_name(),
        u16::MAX as nat,
        1,
    ) is Some {
        shift_failure(with_zero_default(target, pack_rank_name()), pack_name(), u16::MAX as nat, 1)
    } else {
        shift_failure(target_step(target), pack_rank_name(), u32::MAX as nat, score as int)
    }
}

/// Whether the leaderboard rows of both leaders can be moved: the source
/// must have a row, and neither row may leave the range of its numbers.
pub open spec fn rows_failure(ledger: LedgerModel, call: TransferCall) -> Option<ContractError> {
    match ledger.pack_mains.get(call.source) {
        None => Some(ContractError::UnknownPackMain),
        Some(row) => if row.pack_rank < call.score(ledger) || row.pack_count < 1
            || call.target_row(ledger).pack_rank + call.score(ledger) > u32::MAX
            || call.target_row(ledger).pack_count + 1 > u16::MAX {
            Some(ContractError::ArithmeticOverflow)
        } else {
            None
        },
    }
}

/// The first check that a relocation fails, if it fails any. The checks,
/// in order:
///
/// 1. the source leader is among the tokens sent;
/// 2. the target leader is among the tokens sent;
/// 3. the source leader has a membership list;
/// 4. the token is a member of it;
/// 5. the caller is the registry;
/// 6. the source leader shows its public metadata and is an alpha;
/// 7. the target leader shows its public metadata and is an alpha;
/// 8. source and target are two leaders;
/// 9. the media index is the member's place in the source pack;
/// 10. the source leader has a media file at the media index on each side,
///     and both leaders show their private metadata;
/// 11. the numbers of both leaders can be moved;
/// 12. the leaderboard rows of both leaders can be moved.
pub open spec fn transfer_failure(
    ledger: LedgerModel,
    registry: KeymapModel<NftDossierModel>,
    call: TransferCall,
) -> Option<ContractError> {
    if text_index(call.token_ids, call.source) >= call.token_ids.len() {
        Some(ContractError::MainTokenNotInList)
    } else if text_index(call.token_ids, call.target) >= call.token_ids.len() {
        Some(ContractError::TransferTargetNotInList)
    } else if !ledger.pack_members.contains(call.source) {
        Some(ContractError::UnknownPack)
    } else if call.position(ledger) >= call.source_list(ledger).len() {
        Some(ContractError::NotPackMember)
    } else if call.sender != ledger.config.nft_contract.address {
        Some(ContractError::NotRegistryCaller)
    } else if public_of(registry, call.source) is None {
        Some(ContractError::MetadataMissing)
    } else if !has_trait(public_of(registry, call.source).unwrap().attributes, alpha_name()) {
        Some(ContractError::NotAlpha)
    } else if public_of(registry, call.target) is None {
        Some(ContractError::MetadataMissing)
    } else if !has_trait(public_of(registry, call.target).unwrap().attributes, alpha_name()) {
        Some(ContractError::NotAlpha)
    } else if call.source == call.target {
        Some(ContractError::SameLeader)
    } else if call.media_index != call.position(ledger) {
        Some(ContractError::MediaIndexMismatch)
    } else if call.media_index >= public_of(registry, call.source).unwrap().media.len() {
        Some(ContractError::MalformedMetadata)
    } else if private_of(registry, call.source) is None {
        Some(ContractError::MetadataMissing)
    } else if call.media_index >= private_of(registry, call.source).unwrap().media.len() {
        Some(ContractError::MalformedMetadata)
    } else if private_of(registry, call.target) is None {
        Some(ContractError::MetadataMissing)
    } else if attributes_failure(
        public_of(registry, call.source).unwrap().attributes,
        public_of(registry, call.target).unwrap().attributes,
        call.score(ledger),
    ) is Some {
        attributes_failure(
            public_of(registry, call.source).unwrap().attributes,
            public_of(registry, call.target).unwrap().attributes,
            call.score(ledger),
        )
    } else {
        rows_failure(ledger, call)
    }
}

/// The public side of the source leader after the relocation: the media
/// file at the media index is taken out, and the numbers are lowered.
pub open spec fn source_public(
    ledger: LedgerModel,
    registry: KeymapModel<NftDossierModel>,
    call: TransferCall,
) -> MetadataModel {
    let public = public_of(registry, call.source).unwrap();
    MetadataModel {
        name: public.name,
        attributes: source_attributes(public.attributes, call.score(ledger)),
        media: public.media.remove(call.media_index as int),
    }
}

/// The private side of the source leader after the relocation: the media
/// file at the media index is taken out.
pub open spec fn source_private(
    registry: KeymapModel<NftDossierModel>,
    call: TransferCall,
) -> MetadataModel {
    let private = private_of(registry, call.source).unwrap();
    MetadataModel {
        name: private.name,
        attributes: private.attributes,
        media: private.media.remove(call.media_index as int),
    }
}

/// The public side of the target leader after the relocation: the media
/// file that left the source's public side is added at the end, and the
/// numbers are raised.
pub open spec fn target_public(
    ledger: LedgerModel,
    registry: KeymapModel<NftDossierModel>,
    call: TransferCall,
) -> MetadataModel {
    let public = public_of(registry, call.target).unwrap();
    MetadataModel {
        name: public.name,
        attributes: target_attributes(public.attributes, call.score(ledger)),
        media: public.media.push(
            public_of(registry, call.source).unwrap().media[call.media_index as int],
        ),
    }
}

/// The private side of the target leader after the relocation: the media
/// file that left the source's private side is added at the end.
pub open spec fn target_private(
    registry: KeymapModel<NftDossierModel>,
    call: TransferCall,
) -> MetadataModel {
    let private = private_of(registry, call.target).unwrap();
    MetadataModel {
        name: private.name,
        attributes: private.attributes,
        media: private.media.push(
            private_of(registry, call.source).unwrap().media[call.media_index as int],
        ),
    }
}

/// The source leader's row after the relocation.
pub open spec fn source_row_after(ledger: LedgerModel, call: TransferCall) -> PackMainModel {
    let row = ledger.pack_mains.get(call.source).unwrap();
    PackMainModel {
        token_id: row.token_id,
        pack_rank: (row.pack_rank - call.score(ledger)) as u32,
        pack_count: (row.pack_count - 1) as u16,
        name: row.name,
    }
}

/// The target leader's row after the relocation.
pub open spec fn target_row_after(ledger: LedgerModel, call: TransferCall) -> PackMainModel {
    let row = call.target_row(ledger);
    PackMainModel {
        token_id: call.target,
        pack_rank: (row.pack_rank + call.score(ledger)) as u32,
        pack_count: (row.pack_count + 1) as u16,
        name: row.name,
    }
}

/// The ledger after a relocation that passed every check: the member's
/// record has moved from the source's list to the end of the target's,
/// the rows of both leaders have moved by the member's score and by one
/// member, and the account's history has one more entry.
pub open spec fn transferred_ledger(ledger: LedgerModel, call: TransferCall) -> LedgerModel {
    LedgerModel {
        pack_members: ledger.pack_members.insert(
            call.source,
            call.source_list(ledger).remove(call.position(ledger)),
        ).insert(
            call.target,
            list_of(ledger.pack_members, call.target).push(call.member(ledger)),
        ),
        pack_mains: ledger.pack_mains.insert(call.source, source_row_after(ledger, call)).insert(
            call.target,
            target_row_after(ledger, call),
        ),
        history: ledger.history.insert(
            call.from,
            list_of(ledger.history, call.from).push(
                HistoryTokenModel {
                    wolf_main_token_id: call.target,
                    pack_member_token_ids: seq![call.token_id],
                    pack_build_date: Some(call.time),
                },
            ),
        ),
        ..ledger
    }
}

/// What a relocation that passed every check asks of the host: write the
/// source leader's metadata, write the target leader's, and send the
/// tokens back to the account, in this order.
pub open spec fn transferred_response(
    ledger: LedgerModel,
    registry: KeymapModel<NftDossierModel>,
    call: TransferCall,
) -> ResponseModel {
    let contract = ledger.config.nft_contract;
    ResponseModel {
        messages: seq![
            CommandModel::SetMetadata {
                token_id: call.source,
                public_metadata: source_public(ledger, registry, call),
                private_metadata: source_private(registry, call),
                contract: contract,
            },
            CommandModel::SetMetadata {
                token_id: call.target,
                public_metadata: target_public(ledger, registry, call),
                private_metadata: target_private(registry, call),
                contract: contract,
            },
            CommandModel::BatchTransferNft {
                recipient: call.from,
                token_ids: call.token_ids,
                contract: contract,
            },
        ],
        attributes: Seq::empty(),
    }
}

/// What a relocation comes to: the ledger after it, and its result. A
/// relocation that fails a check leaves the ledger as it was.
pub open spec fn transfer_outcome(
    ledger: LedgerModel,
    registry: KeymapModel<NftDossierModel>,
    call: TransferCall,
) -> (LedgerModel, Result<ResponseModel, ContractError>) {
    match transfer_failure(ledger, registry, call) {
        Some(e) => (ledger, Err(e)),
        None => (transferred_ledger(ledger, call), Ok(transferred_response(ledger, registry, call))),
    }
}

/// The call that `transfer_pack` gets.
pub open spec fn transfer_call(
    env: &Env,
    sender: &String,
    from: &String,
    token_ids: &Vec<String>,
    pmsg: &PackTransferMsg,
) -> TransferCall {
    TransferCall {
        time: env.block_time,
        sender: sender@,
        from: from@,
        token_ids: token_ids.deep_view(),
        source: pmsg.main_token_id@,
        target: pmsg.transfer_to_token_id@,
        token_id: pmsg.token_id@,
        media_index: pmsg.member_index,
    }
}

/// Where the record of the token `id` stands in `list`, if it has one.
pub fn find_member(list: &Vec<PackMember>, id: &String) -> (r: Option<usize>)
    ensures
        match r {
            Some(i) => i < list.len() && i == member_index(list.deep_view(), id@),
            None => member_index(list.deep_view(), id@) >= list.len(),
        },
{
    let ghost p = is_member(id@);
    let mut i: usize = 0;
    while i < list.len()
        invariant
            i <= list.len(),
            p == is_member(id@),
            forall|j: int| 0 <= j < i ==> !p(#[trigger] list.deep_view()[j]),
        decreases list.len() - i,
    {
        assert(list.deep_view()[i as int] == list[i as int]@);
        if list[i].token_id == *id {
            proof {
                lemma_first_index_is(list.deep_view(), p, i as int);
            }
            return Some(i);
        }
        i = i + 1;
    }
    proof {
        lemma_first_index_is(list.deep_view(), p, list.len() as int);
    }
    None
}

/// Moves the number of the attribute `name` by `delta`, where the
/// attribute is there.
///
/// Returns the failure, and then leaves the attributes as they were.
pub fn shift_number(attributes: &mut Vec<Trait>, name: &str, max: u64, delta: i64) -> (r: Option<
    ContractError,
>)
    ensures
        r == shift_failure(old(attributes).deep_view(), name@, max as nat, delta as int),
        r is None ==> final(attributes).deep_view() == shifted(
            old(attributes).deep_view(),
            name@,
            max as nat,
            delta as int,
        ),
        r is Some ==> final(attributes).deep_view() == old(attributes).deep_view(),
{
    if !carries(attributes, name) {
        return None;
    }
    match read_number(attributes, name, max) {
        None => Some(ContractError::MalformedMetadata),
        Some(v) => {
            let moved: i128 = v as i128 + delta as i128;
            if moved < 0 || moved > max as i128 {
                Some(ContractError::ArithmeticOverflow)
            } else {
                write_number(attributes, name, moved as u64);
                None
            }
        },
    }
}

/// A copy of a list of media files.
fn copy_media(media: &Vec<MediaFile>) -> (r: Vec<MediaFile>)
    ensures
        r.deep_view() == media.deep_view(),
{
    let r = media.clone();
    assert(r.deep_view() =~= media.deep_view());
    r
}

/// A copy of a list of attributes.
fn copy_attributes(attributes: &Vec<Trait>) -> (r: Vec<Trait>)
    ensures
        r.deep_view() == attributes.deep_view(),
{
    let r = attributes.clone();
    assert(r.deep_view() =~= attributes.deep_view());
    r
}

/// What a relocation makes of both leaders.
struct LeadersPlan {
    source_public: Metadata,
    source_private: Metadata,
    target_public: Metadata,
    target_private: Metadata,
}

/// Writes both sides of both leaders anew: the media file at `index` moves
/// from the source to the end of the target, and the numbers of both move
/// by one member and by `score`.
///
/// Fails where a number cannot be moved.
fn plan_leaders(
    source_public: &Metadata,
    source_private: &Metadata,
    target_public: &Metadata,
    target_private: &Metadata,
    index: usize,
    score: u16,
) -> (r: Result<LeadersPlan, ContractError>)
    requires
        index < source_public.media.len(),
        index < source_private.media.len(),
    ensures
        match r {
            Err(e) => attributes_failure(
                source_public@.attributes,
                target_public@.attributes,
                score as nat,
            ) == Some(e),
            Ok(plan) => {
                &&& attributes_failure(
                    source_public@.attributes,
                    target_public@.attributes,
                    score as nat,
                ) is None
                &&& plan.source_public@ == (MetadataModel {
                    name: source_public@.name,
                    attributes: source_attributes(source_public@.attributes, score as nat),
                    media: source_public@.media.remove(index as int),
                })
                &&& plan.source_private@ == (MetadataModel {
                    name: source_private@.name,
                    attributes: source_private@.attributes,
                    media: source_private@.media.remove(index as int),
                })
                &&& plan.target_public@ == (MetadataModel {
                    name: target_public@.name,
                    attributes: target_attributes(target_public@.attributes, score as nat),
                    media: target_public@.media.push(source_public@.media[index as int]),
                })
                &&& plan.target_private@ == (MetadataModel {
                    name: target_private@.name,
                    attributes: target_private@.attributes,
                    media: target_private@.media.push(source_private@.media[index as int]),
                })
            },
        },
{
    let mut source_attrs = copy_attributes(&source_public.attributes);
    match shift_number(&mut source_attrs, "Pack", 0xFFFF, -1) {
        Some(e) => {
            return Err(e);
        },
        None => {},
    }
    match shift_number(&mut source_attrs, "Pack Rank", 0xFFFF_FFFF, -(score as i64)) {
        Some(e) => {
            return Err(e);
        },
        None => {},
    }
    let mut target_attrs = copy_attributes(&target_public.attributes);
    ensure_zero_default(&mut target_attrs, "Pack Rank");
    match shift_number(&mut target_attrs, "Pack", 0xFFFF, 1) {
        Some(e) => {
            return Err(e);
        },
        None => {},
    }
    match shift_number(&mut target_attrs, "Pack Rank", 0xFFFF_FFFF, score as i64) {
        Some(e) => {
            return Err(e);
        },
        None => {},
    }
    let mut source_media = copy_media(&source_public.media);
    let public_file = source_media.remove(index);
    assert(source_media.deep_view() =~= source_public@.media.remove(index as int));
    assert(public_file@ == source_public@.media[index as int]);
    let mut source_secret = copy_media(&source_private.media);
    let private_file = source_secret.remove(index);
    assert(source_secret.deep_view() =~= source_private@.media.remove(index as int));
    assert(private_file@ == source_private@.media[index as int]);
    let mut target_media = copy_media(&target_public.media);
    target_media.push(public_file);
    assert(target_media.deep_view() =~= target_public@.media.push(public_file@));
    let mut target_secret = copy_media(&target_private.media);
    target_secret.push(private_file);
    assert(target_secret.deep_view() =~= target_private@.media.push(private_file@));
    Ok(
        LeadersPlan {
            source_public: Metadata {
                name: source_public.name.clone(),
                attributes: source_attrs,
                media: source_media,
            },
            source_private: Metadata {
                name: source_private.name.clone(),
                attributes: copy_attributes(&source_private.attributes),
                media: source_secret,
            },
            target_public: Metadata {
                name: target_public.name.clone(),
                attributes: target_attrs,
                media: target_media,
            },
            target_private: Metadata {
                name: target_private.name.clone(),
                attributes: copy_attributes(&target_private.attributes),
                media: target_secret,
            },
        },
    )
}

/// A relocation that passes every check leaves the ledger's invariant in
/// place. In particular no alpha enters a membership list.
pub proof fn lemma_transfer_keeps_wf(
    ledger: LedgerModel,
    registry: KeymapModel<NftDossierModel>,
    call: TransferCall,
)
    requires
        ledger.wf(),
        transfer_failure(ledger, registry, call) is None,
    ensures
        transferred_ledger(ledger, call).wf(),
{
    let after = transferred_ledger(ledger, call);
    let size = ledger.config.collection_size;
    // history
    let entry = HistoryTokenModel {
        wolf_main_token_id: call.target,
        pack_member_token_ids: seq![call.token_id],
        pack_build_date: Some(call.time),
    };
    ledger.history.lemma_insert(call.from, list_of(ledger.history, call.from).push(entry));
    // leaderboard
    ledger.pack_mains.lemma_contains(call.source);
    let row = ledger.pack_mains.get(call.source).unwrap();
    assert(row.token_id == call.source) by {
        assert(row == ledger.pack_mains.values[ledger.pack_mains.index_of(call.source)]);
    }
    lemma_rows_ok_insert(ledger.pack_mains, source_row_after(ledger, call));
    lemma_rows_ok_insert(
        ledger.pack_mains.insert(call.source, source_row_after(ledger, call)),
        target_row_after(ledger, call),
    );
    // membership
    let pos = call.position(ledger);
    let old_source = call.source_list(ledger);
    let old_target = list_of(ledger.pack_members, call.target);
    let new_source = old_source.remove(pos);
    let new_target = old_target.push(call.member(ledger));
    let m1 = ledger.pack_members.insert(call.source, new_source);
    let m2 = m1.insert(call.target, new_target);
    ledger.pack_members.lemma_insert(call.source, new_source);
    m1.lemma_insert(call.target, new_target);
    lemma_first_index(old_source, is_member(call.token_id));
    lemma_members_ok_of_key(ledger.pack_members, size, call.source);
    if ledger.pack_members.contains(call.target) {
        lemma_members_ok_of_key(ledger.pack_members, size, call.target);
    }
    assert forall|key: Seq<char>, j: int|
        m2.contains(key) && 0 <= j < m2.get(key).unwrap().len() implies member_ok(
        #[trigger] m2.get(key).unwrap()[j],
        size,
    ) by {
        if key == call.target {
            assert(m2.get(key) == Some(new_target));
            if j < old_target.len() {
                assert(new_target[j] == old_target[j]);
                assert(member_ok(ledger.pack_members.get(call.target).unwrap()[j], size));
            } else {
                assert(new_target[j] == old_source[pos]);
                assert(member_ok(ledger.pack_members.get(call.source).unwrap()[pos], size));
            }
        } else if key == call.source {
            assert(m2.get(key) == m1.get(key));
            assert(m1.get(key) == Some(new_source));
            let j0 = if j < pos {
                j
            } else {
                j + 1
            };
            assert(new_source[j] == old_source[j0]);
            assert(member_ok(ledger.pack_members.get(call.source).unwrap()[j0], size));
        } else {
            assert(m2.get(key) == m1.get(key));
            assert(m1.get(key) == ledger.pack_members.get(key));
            assert(ledger.pack_members.contains(key));
            lemma_members_ok_of_key(ledger.pack_members, size, key);
        }
    }
    lemma_members_ok_by_key(m2, size);
}

/// Moves the member that `pmsg` names from its leader to another.
///
/// The relocation is checked in full first; where a check fails the error
/// of the first failing check comes back and the ledger is as it was.
/// Otherwise the member's record moves to the end of the target's list,
/// the leaderboard rows of both leaders move by the member's score and by
/// one member, the account's history gets an entry under the target
/// leader, and the requests to the registry come back.
pub fn transfer_pack(
    env: &Env,
    ledger: &mut Ledger,
    registry: &Keymap<NftDossier>,
    sender: &String,
    from: &String,
    token_ids: Vec<String>,
    pmsg: PackTransferMsg,
) -> (r: Result<Response, ContractError>)
    requires
        old(ledger).wf(),
        registry.wf(),
    ensures
        final(ledger).wf(),
        final(ledger)@ == transfer_outcome(
            old(ledger)@,
            registry@,
            transfer_call(env, sender, from, &token_ids, &pmsg),
        ).0,
        is_result(
            r,
            transfer_outcome(
                old(ledger)@,
                registry@,
                transfer_call(env, sender, from, &token_ids, &pmsg),
            ).1,
        ),
{
    let ghost call = transfer_call(env, sender, from, &token_ids, &pmsg);
    let ghost before = ledger@;
    if position_of(&token_ids, &pmsg.main_token_id).is_none() {
        return Err(ContractError::MainTokenNotInList);
    }
    if position_of(&token_ids, &pmsg.transfer_to_token_id).is_none() {
        return Err(ContractError::TransferTargetNotInList);
    }
    let source_list = match ledger.pack_members.get(&pmsg.main_token_id) {
        Some(list) => list,
        None => {
            return Err(ContractError::UnknownPack);
        },
    };
    assert(source_list.deep_view() == call.source_list(before));
    let pos = match find_member(source_list, &pmsg.token_id) {
        Some(pos) => pos,
        None => {
            return Err(ContractError::NotPackMember);
        },
    };
    if !(*sender == ledger.config.nft_contract.address) {
        return Err(ContractError::NotRegistryCaller);
    }
    let source_public = match public_side(registry, &pmsg.main_token_id) {
        Some(public) => public,
        None => {
            return Err(ContractError::MetadataMissing);
        },
    };
    if !carries(&source_public.attributes, "Alpha") {
        return Err(ContractError::NotAlpha);
    }
    let target_public = match public_side(registry, &pmsg.transfer_to_token_id) {
        Some(public) => public,
        None => {
            return Err(ContractError::MetadataMissing);
        },
    };
    if !carries(&target_public.attributes, "Alpha") {
        return Err(ContractError::NotAlpha);
    }
    if pmsg.main_token_id == pmsg.transfer_to_token_id {
        return Err(ContractError::SameLeader);
    }
    if pmsg.member_index as usize != pos {
        return Err(ContractError::MediaIndexMismatch);
    }
    if pos >= source_public.media.len() {
        return Err(ContractError::MalformedMetadata);
    }
    let source_private = match private_side(registry, &pmsg.main_token_id) {
        Some(private) => private,
        None => {
            return Err(ContractError::MetadataMissing);
        },
    };
    if pos >= source_private.media.len() {
        return Err(ContractError::MalformedMetadata);
    }
    let target_private = match private_side(registry, &pmsg.transfer_to_token_id) {
        Some(private) => private,
        None => {
            return Err(ContractError::MetadataMissing);
        },
    };
    let size = ledger.config.collection_size;
    let rank = source_list[pos].rank;
    proof {
        before.pack_members.lemma_contains(call.source);
        lemma_members_ok_of_key(before.pack_members, size, call.source);
        assert(source_list.deep_view()[pos as int] == source_list[pos as int]@);
        assert(member_ok(before.pack_members.get(call.source).unwrap()[pos as int], size));
    }
    let score: u16 = size - rank;
    assert(score == call.score(before));
    let plan = match plan_leaders(
        source_public,
        source_private,
        target_public,
        target_private,
        pos,
        score,
    ) {
        Ok(plan) => plan,
        Err(e) => {
            return Err(e);
        },
    };
    let source_row = match ledger.pack_mains.get(&pmsg.main_token_id) {
        Some(row) => row,
        None => {
            return Err(ContractError::UnknownPackMain);
        },
    };
    let target_row = match ledger.pack_mains.get(&pmsg.transfer_to_token_id) {
        Some(row) => row.clone(),
        None => PackMain {
            token_id: pmsg.transfer_to_token_id.clone(),
            pack_rank: 0,
            pack_count: 0,
            name: String::new(),
        },
    };
    assert(target_row@ == call.target_row(before));
    if source_row.pack_rank < score as u32 || source_row.pack_count < 1 || target_row.pack_rank
        > 0xFFFF_FFFF - score as u32 || target_row.pack_count > 0xFFFF - 1 {
        return Err(ContractError::ArithmeticOverflow);
    }
    let new_source_row = PackMain {
        token_id: source_row.token_id.clone(),
        pack_rank: source_row.pack_rank - score as u32,
        pack_count: source_row.pack_count - 1,
        name: source_row.name.clone(),
    };
    let new_target_row = PackMain {
        token_id: pmsg.transfer_to_token_id.clone(),
        pack_rank: target_row.pack_rank + score as u32,
        pack_count: target_row.pack_count + 1,
        name: target_row.name,
    };
    assert(new_source_row@ == source_row_after(before, call));
    assert(new_target_row@ == target_row_after(before, call));
    let mut new_source_list = source_list.clone();
    assert(new_source_list.deep_view() =~= source_list.deep_view());
    let member = new_source_list.remove(pos);
    assert(new_source_list.deep_view() =~= call.source_list(before).remove(pos as int));
    assert(member@ == call.member(before));
    let mut new_target_list: Vec<PackMember> = match ledger.pack_members.get(
        &pmsg.transfer_to_token_id,
    ) {
        Some(list) => {
            let copy = list.clone();
            assert(copy.deep_view() =~= list.deep_view());
            copy
        },
        None => Vec::new(),
    };
    assert(new_target_list.deep_view() =~= list_of(before.pack_members, call.target));
    new_target_list.push(member);
    assert(new_target_list.deep_view() =~= list_of(before.pack_members, call.target).push(
        call.member(before),
    ));
    let mut entries: Vec<HistoryToken> = match ledger.history.get(from) {
        Some(entries) => {
            let copy = entries.clone();
            assert(copy.deep_view() =~= entries.deep_view());
            copy
        },
        None => Vec::new(),
    };
    assert(entries.deep_view() =~= list_of(before.history, call.from));
    let mut moved: Vec<String> = Vec::new();
    moved.push(pmsg.token_id.clone());
    assert(moved.deep_view() =~= seq![call.token_id]);
    let entry = HistoryToken {
        wolf_main_token_id: pmsg.transfer_to_token_id.clone(),
        pack_member_token_ids: moved,
        pack_build_date: Some(env.block_time),
    };
    let ghost old_entries = entries.deep_view();
    entries.push(entry);
    assert(entries.deep_view() =~= old_entries.push(entry@));
    proof {
        assert(transfer_failure(before, registry@, call) is None);
        lemma_transfer_keeps_wf(before, registry@, call);
        before.pack_members.lemma_insert(
            call.source,
            call.source_list(before).remove(pos as int),
        );
        lemma_rows_ok_insert(before.pack_mains, source_row_after(before, call));
    }
    // Every check has passed: from here on the ledger changes.
    ledger.pack_members.insert(pmsg.main_token_id.clone(), new_source_list);
    ledger.pack_members.insert(pmsg.transfer_to_token_id.clone(), new_target_list);
    ledger.pack_mains.insert(pmsg.main_token_id.clone(), new_source_row);
    ledger.pack_mains.insert(pmsg.transfer_to_token_id.clone(), new_target_row);
    ledger.history.insert(from.clone(), entries);
    assert(ledger@ =~= transferred_ledger(before, call));

    let mut messages: Vec<Command> = Vec::new();
    messages.push(
        Command::SetMetadata {
            token_id: pmsg.main_token_id.clone(),
            public_metadata: plan.source_public,
            private_metadata: plan.source_private,
            contract: ledger.config.nft_contract.clone(),
        },
    );
    messages.push(
        Command::SetMetadata {
            token_id: pmsg.transfer_to_token_id.clone(),
            public_metadata: plan.target_public,
            private_metadata: plan.target_private,
            contract: ledger.config.nft_contract.clone(),
        },
    );
    messages.push(
        Command::BatchTransferNft {
            recipient: from.clone(),
            token_ids: token_ids,
            contract: ledger.config.nft_contract.clone(),
        },
    );
    let response = Response { messages, attributes: Vec::new() };
    assert(response@ =~~= transferred_response(before, registry@, call));
    Ok(response)
}

} // verus!
