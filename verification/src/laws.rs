//! What holds of the operations, whatever the ledger and the call.

use crate::contract::execute_outcome;
use crate::error::{ContractError, ErrorKind};
use crate::keymap::KeymapModel;
use crate::merge::{
    alpha_check, lemma_no_failure, lemma_remove_keeps_distinct, list_of, member_score, merge_call,
    merge_failure, merge_gain, merged_attributes, merged_ledger, merged_public, merged_response,
    number_or_zero, private_of, public_of, LeaderGain, MergeCall,
};
use crate::metadata::{
    alpha_name, distinct_names, has_trait, lemma_names_differ, lemma_number_kept,
    lemma_number_written, lemma_with_number_keeps_distinct, lemma_zero_default,
    lemma_zero_default_keeps_distinct, lvl_name, pack_name, pack_rank_name, trait_number,
    with_number, with_zero_default, xp_name, NftDossierModel, TraitModel,
};
use crate::msg::{ExecuteMsg, HandleReceiveMsg, HistoryTokenModel, PackMainModel, PackMemberModel};
use crate::progression::attained_level;
use crate::relocate::{
    is_member, source_attributes, source_row_after, source_step, target_attributes,
    target_row_after, target_step, transfer_call, transfer_failure, transferred_ledger,
    transferred_response, TransferCall,
};
use crate::response::CommandModel;
use crate::seqs::{
    lemma_first_index, lemma_sum_push, lemma_sum_remove, lemma_text_index, sum_of, text_index,
};
use crate::state::{contribution, lemma_members_ok_of_key, Env, LedgerModel};
use vstd::prelude::*;

verus! {

/// The numbers that the leader's attributes hold after a merge are the
/// leader's new numbers: experience, pack size, pack score and level. The
/// merge gives no token the alpha trait and takes it from none.
pub proof fn lemma_merged_attributes(attributes: Seq<TraitModel>, gain: LeaderGain)
    requires
        has_trait(attributes, xp_name()),
        has_trait(attributes, lvl_name()),
        has_trait(attributes, pack_name()),
        gain.xp <= u32::MAX,
        gain.pack_count <= u16::MAX,
        gain.pack_rank <= u32::MAX,
        gain.new_level is Some,
    ensures
        trait_number(merged_attributes(attributes, gain), xp_name(), u32::MAX as nat) == Some(
            gain.xp,
        ),
        trait_number(merged_attributes(attributes, gain), pack_name(), u16::MAX as nat) == Some(
            gain.pack_count,
        ),
        trait_number(merged_attributes(attributes, gain), pack_rank_name(), u32::MAX as nat)
            == Some(gain.pack_rank),
        trait_number(merged_attributes(attributes, gain), lvl_name(), u16::MAX as nat) == Some(
            gain.new_level.unwrap() as nat,
        ),
        has_trait(merged_attributes(attributes, gain), alpha_name()) == has_trait(
            attributes,
            alpha_name(),
        ),
{
    lemma_names_differ();
    let level = gain.new_level.unwrap() as nat;
    let a1 = with_zero_default(attributes, pack_rank_name());
    let a2 = with_number(a1, xp_name(), gain.xp);
    let a3 = with_number(a2, pack_name(), gain.pack_count);
    let a4 = with_number(a3, pack_rank_name(), gain.pack_rank);
    let a5 = with_number(a4, lvl_name(), level);
    let m32 = u32::MAX as nat;
    let m16 = u16::MAX as nat;
    // the names that are there stay there
    lemma_zero_default(attributes, pack_rank_name(), xp_name(), m32);
    lemma_zero_default(attributes, pack_rank_name(), lvl_name(), m16);
    lemma_zero_default(attributes, pack_rank_name(), pack_name(), m16);
    lemma_zero_default(attributes, pack_rank_name(), alpha_name(), m16);
    // experience
    lemma_number_written(a1, xp_name(), gain.xp, m32);
    lemma_number_kept(a2, pack_name(), gain.pack_count, xp_name(), m32);
    lemma_number_kept(a3, pack_rank_name(), gain.pack_rank, xp_name(), m32);
    lemma_number_kept(a4, lvl_name(), level, xp_name(), m32);
    // pack size
    lemma_number_kept(a1, xp_name(), gain.xp, pack_name(), m16);
    lemma_number_written(a2, pack_name(), gain.pack_count, m16);
    lemma_number_kept(a3, pack_rank_name(), gain.pack_rank, pack_name(), m16);
    lemma_number_kept(a4, lvl_name(), level, pack_name(), m16);
    // pack score
    lemma_number_kept(a1, xp_name(), gain.xp, pack_rank_name(), m32);
    lemma_number_kept(a2, pack_name(), gain.pack_count, pack_rank_name(), m32);
    lemma_number_written(a3, pack_rank_name(), gain.pack_rank, m32);
    lemma_number_kept(a4, lvl_name(), level, pack_rank_name(), m32);
    // level
    lemma_number_kept(a1, xp_name(), gain.xp, lvl_name(), m16);
    lemma_number_kept(a2, pack_name(), gain.pack_count, lvl_name(), m16);
    lemma_number_kept(a3, pack_rank_name(), gain.pack_rank, lvl_name(), m16);
    lemma_number_written(a4, lvl_name(), level, m16);
    // alpha
    lemma_number_kept(a1, xp_name(), gain.xp, alpha_name(), m16);
    lemma_number_kept(a2, pack_name(), gain.pack_count, alpha_name(), m16);
    lemma_number_kept(a3, pack_rank_name(), gain.pack_rank, alpha_name(), m16);
    lemma_number_kept(a4, lvl_name(), level, alpha_name(), m16);
}

/// No operation brings an attribute name in twice: where the names of a
/// leader's attributes are all different, so are they after a merge, and
/// after a relocation on either side.
pub proof fn lemma_names_stay_distinct(attributes: Seq<TraitModel>, gain: LeaderGain, score: nat)
    requires
        distinct_names(attributes),
    ensures
        distinct_names(merged_attributes(attributes, gain)),
        distinct_names(source_attributes(attributes, score)),
        distinct_names(target_attributes(attributes, score)),
{
    let m16 = u16::MAX as nat;
    let m32 = u32::MAX as nat;
    let a1 = with_zero_default(attributes, pack_rank_name());
    lemma_zero_default_keeps_distinct(attributes, pack_rank_name());
    let a2 = with_number(a1, xp_name(), gain.xp);
    lemma_with_number_keeps_distinct(a1, xp_name(), gain.xp);
    let a3 = with_number(a2, pack_name(), gain.pack_count);
    lemma_with_number_keeps_distinct(a2, pack_name(), gain.pack_count);
    let a4 = with_number(a3, pack_rank_name(), gain.pack_rank);
    lemma_with_number_keeps_distinct(a3, pack_rank_name(), gain.pack_rank);
    lemma_with_number_keeps_distinct(a4, lvl_name(), gain.new_level.unwrap() as nat);
    let s1 = source_step(attributes);
    lemma_with_number_keeps_distinct(
        attributes,
        pack_name(),
        (number_or_zero(attributes, pack_name(), m16) - 1) as nat,
    );
    lemma_with_number_keeps_distinct(
        s1,
        pack_rank_name(),
        (number_or_zero(s1, pack_rank_name(), m32) - score) as nat,
    );
    let t1 = target_step(attributes);
    lemma_with_number_keeps_distinct(
        a1,
        pack_name(),
        (number_or_zero(a1, pack_name(), m16) + 1) as nat,
    );
    lemma_with_number_keeps_distinct(
        t1,
        pack_rank_name(),
        (number_or_zero(t1, pack_rank_name(), m32) + score) as nat,
    );
}

/// In every successful merge the leader's pack grows by the number of
/// members absorbed, and its score by the sum, over the members, of the
/// size of the collection less the member's rank. The leader's attributes
/// hold the pack's size and score before the merge, a leader without a
/// score standing at zero; the merge writes the new size and score into
/// the attributes and into the leader's row on the leaderboard.
pub proof fn lemma_merge_totals(
    ledger: LedgerModel,
    registry: KeymapModel<NftDossierModel>,
    call: MergeCall,
)
    requires
        ledger.wf(),
        merge_failure(ledger, registry, call) is None,
    ensures
        ({
            let before = public_of(registry, call.main_token_id).unwrap().attributes;
            let after = merged_public(ledger, registry, call).attributes;
            let old_count = trait_number(before, pack_name(), u16::MAX as nat).unwrap();
            let old_score = number_or_zero(before, pack_rank_name(), u32::MAX as nat);
            let new_count = old_count + call.members().len();
            let new_score = old_score + sum_of(call.members(), member_score(ledger));
            let row = merged_ledger(ledger, registry, call).pack_mains.get(call.main_token_id);
            &&& trait_number(before, pack_name(), u16::MAX as nat) is Some
            &&& trait_number(after, pack_name(), u16::MAX as nat) == Some(new_count)
            &&& trait_number(after, pack_rank_name(), u32::MAX as nat) == Some(new_score)
            &&& row is Some
            &&& row.unwrap().pack_count == new_count
            &&& row.unwrap().pack_rank == new_score
        }),
{
    let before = public_of(registry, call.main_token_id).unwrap().attributes;
    let gain = merge_gain(ledger, registry, call);
    lemma_merged_attributes(before, gain);
    let row = PackMainModel {
        token_id: call.main_token_id,
        pack_rank: gain.pack_rank as u32,
        pack_count: gain.pack_count as u16,
        name: call.name,
    };
    ledger.pack_mains.lemma_insert(call.main_token_id, row);
}

/// The row that a leader has on the leaderboard, or the row of a leader
/// without members where it has none.
pub open spec fn row_or_empty(ledger: LedgerModel, leader: Seq<char>) -> PackMainModel {
    match ledger.pack_mains.get(leader) {
        Some(row) => row,
        None => PackMainModel { token_id: leader, pack_rank: 0, pack_count: 0, name: Seq::empty() },
    }
}

/// Where the leaderboard agrees with the leader's attributes before a
/// successful merge, the leader's row grows by the number of members
/// absorbed and by their scores, a leader without a row starting from an
/// empty one.
pub proof fn lemma_merge_row_grows(
    ledger: LedgerModel,
    registry: KeymapModel<NftDossierModel>,
    call: MergeCall,
)
    requires
        ledger.wf(),
        merge_failure(ledger, registry, call) is None,
        trait_number(
            public_of(registry, call.main_token_id).unwrap().attributes,
            pack_name(),
            u16::MAX as nat,
        ) == Some(row_or_empty(ledger, call.main_token_id).pack_count as nat),
        number_or_zero(
            public_of(registry, call.main_token_id).unwrap().attributes,
            pack_rank_name(),
            u32::MAX as nat,
        ) == row_or_empty(ledger, call.main_token_id).pack_rank,
    ensures
        ({
            let before = row_or_empty(ledger, call.main_token_id);
            let after = row_or_empty(merged_ledger(ledger, registry, call), call.main_token_id);
            &&& after.pack_count == before.pack_count + call.members().len()
            &&& after.pack_rank == before.pack_rank + sum_of(call.members(), member_score(ledger))
            &&& after.token_id == call.main_token_id
            &&& after.name == call.name
        }),
{
    lemma_merge_totals(ledger, registry, call);
    let gain = merge_gain(ledger, registry, call);
    let row = PackMainModel {
        token_id: call.main_token_id,
        pack_rank: gain.pack_rank as u32,
        pack_count: gain.pack_count as u16,
        name: call.name,
    };
    ledger.pack_mains.lemma_insert(call.main_token_id, row);
}

/// A successful relocation moves one media file on each side: the source
/// leader's public and private media lose the file at the media index,
/// the rest keeping its order, and the target leader's public and private
/// media get that file at their end.
pub proof fn lemma_relocation_moves_media(
    ledger: LedgerModel,
    registry: KeymapModel<NftDossierModel>,
    call: TransferCall,
)
    requires
        ledger.wf(),
        transfer_failure(ledger, registry, call) is None,
    ensures
        ({
            let i = call.media_index as int;
            let public = public_of(registry, call.source).unwrap().media;
            let private = private_of(registry, call.source).unwrap().media;
            let messages = transferred_response(ledger, registry, call).messages;
            &&& i < public.len() && i < private.len()
            &&& messages.len() == 3
            &&& messages[0] matches CommandModel::SetMetadata {
                token_id,
                public_metadata,
                private_metadata,
                ..
            } && token_id == call.source && public_metadata.media == public.remove(i)
                && private_metadata.media == private.remove(i)
            &&& messages[1] matches CommandModel::SetMetadata {
                token_id,
                public_metadata,
                private_metadata,
                ..
            } && token_id == call.target && public_metadata.media == public_of(
                registry,
                call.target,
            ).unwrap().media.push(public[i]) && private_metadata.media == private_of(
                registry,
                call.target,
            ).unwrap().media.push(private[i])
        }),
{
}

/// In every successful merge the leader's experience grows by the sum of
/// the members' experience, and its level follows the rule: at or above
/// the cap it stays, below the cap it becomes the level attained with the
/// new experience. The result reports the new level exactly when it is
/// above the old one.
pub proof fn lemma_merge_level(
    ledger: LedgerModel,
    registry: KeymapModel<NftDossierModel>,
    call: MergeCall,
)
    requires
        ledger.wf(),
        merge_failure(ledger, registry, call) is None,
    ensures
        ({
            let before = public_of(registry, call.main_token_id).unwrap().attributes;
            let after = merged_public(ledger, registry, call).attributes;
            let old_xp = trait_number(before, xp_name(), u32::MAX as nat).unwrap();
            let new_xp = old_xp + call.xp_total(registry);
            let old_level = trait_number(before, lvl_name(), u16::MAX as nat).unwrap();
            let new_level = trait_number(after, lvl_name(), u16::MAX as nat);
            &&& trait_number(after, xp_name(), u32::MAX as nat) == Some(new_xp)
            &&& new_level is Some
            &&& old_level >= ledger.config.level_cap ==> new_level == Some(old_level)
            &&& old_level < ledger.config.level_cap ==> attained_level(ledger.levels, new_xp)
                == Some(new_level.unwrap() as u16)
            &&& (old_level >= ledger.config.level_cap || attained_level(
                ledger.levels,
                new_xp,
            ).unwrap() >= old_level) ==> new_level.unwrap() >= old_level
            &&& merged_response(ledger, registry, call).attributes.len() == (if new_level.unwrap()
                > old_level {
                1nat
            } else {
                0nat
            })
        }),
{
    let before = public_of(registry, call.main_token_id).unwrap().attributes;
    let gain = merge_gain(ledger, registry, call);
    lemma_merged_attributes(before, gain);
}

/// No alpha is a member: in a ledger that is in order, no record of any
/// membership list carries the alpha trait. Setting up gives such a
/// ledger, and every operation keeps it so.
pub proof fn lemma_no_alpha_member(ledger: LedgerModel, leader: Seq<char>, j: int)
    requires
        ledger.wf(),
        0 <= j < list_of(ledger.pack_members, leader).len(),
    ensures
        !has_trait(list_of(ledger.pack_members, leader)[j].attributes, alpha_name()),
{
    if ledger.pack_members.contains(leader) {
        lemma_members_ok_of_key(ledger.pack_members, ledger.config.collection_size, leader);
    }
}

/// No alpha becomes a member: every record that a successful merge adds is
/// that of a token without the alpha trait.
pub proof fn lemma_merge_takes_no_alpha(
    ledger: LedgerModel,
    registry: KeymapModel<NftDossierModel>,
    call: MergeCall,
    j: int,
)
    requires
        ledger.wf(),
        merge_failure(ledger, registry, call) is None,
        0 <= j < call.members().len(),
    ensures
        public_of(registry, call.members()[j]) is Some,
        !has_trait(public_of(registry, call.members()[j]).unwrap().attributes, alpha_name()),
{
    lemma_no_failure(call.members(), alpha_check(registry));
    assert(alpha_check(registry)(call.members()[j]) is None);
}

/// The score of a membership list: the sum, over its records, of the size
/// of the collection less the record's rank.
pub open spec fn list_score(list: Seq<PackMemberModel>, collection_size: u16) -> nat {
    sum_of(list, |m: PackMemberModel| contribution(collection_size, m.rank))
}

/// A relocation is neutral in score: what the row of the source leader
/// loses, the row of the target leader gains, in score and in members, and
/// it is the score of the member that moved. The same holds of the scores
/// of the two membership lists. No other row changes.
pub proof fn lemma_relocation_score_neutral(
    ledger: LedgerModel,
    registry: KeymapModel<NftDossierModel>,
    call: TransferCall,
)
    requires
        ledger.wf(),
        transfer_failure(ledger, registry, call) is None,
    ensures
        ({
            let after = transferred_ledger(ledger, call);
            let size = ledger.config.collection_size;
            let score = contribution(size, call.member(ledger).rank);
            let source_before = ledger.pack_mains.get(call.source).unwrap();
            let target_before = call.target_row(ledger);
            let source_after = after.pack_mains.get(call.source);
            let target_after = after.pack_mains.get(call.target);
            &&& source_after is Some && target_after is Some
            &&& source_after.unwrap().pack_rank == source_before.pack_rank - score
            &&& target_after.unwrap().pack_rank == target_before.pack_rank + score
            &&& source_after.unwrap().pack_count == source_before.pack_count - 1
            &&& target_after.unwrap().pack_count == target_before.pack_count + 1
            &&& list_score(list_of(after.pack_members, call.source), size) + score == list_score(
                list_of(ledger.pack_members, call.source),
                size,
            )
            &&& list_score(list_of(after.pack_members, call.target), size) == list_score(
                list_of(ledger.pack_members, call.target),
                size,
            ) + score
            &&& forall|other: Seq<char>|
                other != call.source && other != call.target ==> #[trigger] after.pack_mains.get(
                    other,
                ) == ledger.pack_mains.get(other)
        }),
{
    let size = ledger.config.collection_size;
    let rows1 = ledger.pack_mains.insert(call.source, source_row_after(ledger, call));
    ledger.pack_mains.lemma_insert(call.source, source_row_after(ledger, call));
    rows1.lemma_insert(call.target, target_row_after(ledger, call));
    let pos = call.position(ledger);
    let old_source = call.source_list(ledger);
    let old_target = list_of(ledger.pack_members, call.target);
    let m1 = ledger.pack_members.insert(call.source, old_source.remove(pos));
    ledger.pack_members.lemma_insert(call.source, old_source.remove(pos));
    m1.lemma_insert(call.target, old_target.push(call.member(ledger)));
    lemma_first_index(old_source, is_member(call.token_id));
    let f = |m: PackMemberModel| contribution(size, m.rank);
    lemma_sum_remove(old_source, f, pos);
    lemma_sum_push(old_target, f, call.member(ledger));
}

/// A payment is used once: after a successful merge the account has no
/// pending payment.
pub proof fn lemma_payment_consumed(
    ledger: LedgerModel,
    registry: KeymapModel<NftDossierModel>,
    call: MergeCall,
)
    requires
        ledger.wf(),
        merge_failure(ledger, registry, call) is None,
    ensures
        !merged_ledger(ledger, registry, call).paid_addresses.contains(call.from),
{
    lemma_text_index(ledger.paid_addresses, call.from);
    let i = text_index(ledger.paid_addresses, call.from);
    if i < ledger.paid_addresses.len() {
        lemma_remove_keeps_distinct(ledger.paid_addresses, i);
    }
}

/// A payment is used once: where payment is required, a second merge for
/// the account of a successful merge, with no payment in between, is
/// refused as a violated precondition, whatever else it asks for.
pub proof fn lemma_second_merge_refused(
    ledger: LedgerModel,
    registry: KeymapModel<NftDossierModel>,
    call: MergeCall,
    later_registry: KeymapModel<NftDossierModel>,
    later_call: MergeCall,
)
    requires
        ledger.wf(),
        ledger.config.is_payment_needed,
        merge_failure(ledger, registry, call) is None,
        later_call.from == call.from,
    ensures
        merge_failure(merged_ledger(ledger, registry, call), later_registry, later_call) == Some(
            ContractError::PaymentNotReceived,
        ),
        ContractError::PaymentNotReceived.spec_kind() == ErrorKind::PreconditionViolation,
{
    lemma_payment_consumed(ledger, registry, call);
    lemma_text_index(merged_ledger(ledger, registry, call).paid_addresses, call.from);
}

/// Histories only grow: whatever message is carried out, the history of
/// every account afterwards begins with its history before, entry for
/// entry, and is at most one entry longer.
pub proof fn lemma_history_only_grows(
    ledger: LedgerModel,
    registry: KeymapModel<NftDossierModel>,
    env: &Env,
    sender: &String,
    msg: &ExecuteMsg,
    account: Seq<char>,
)
    requires
        ledger.wf(),
    ensures
        list_of(ledger.history, account).is_prefix_of(
            list_of(execute_outcome(ledger, registry, env, sender, msg).0.history, account),
        ),
        list_of(execute_outcome(ledger, registry, env, sender, msg).0.history, account).len()
            <= list_of(ledger.history, account).len() + 1,
{
    let after = execute_outcome(ledger, registry, env, sender, msg).0;
    let before_list = list_of(ledger.history, account);
    match msg {
        ExecuteMsg::BatchReceiveNft { from, token_ids, msg: payload } => {
            match payload {
                Some(HandleReceiveMsg::ReceivePackBuild { pack_build }) => {
                    let call = merge_call(env, sender, from, token_ids, pack_build);
                    if merge_failure(ledger, registry, call) is None {
                        let entry = HistoryTokenModel {
                            wolf_main_token_id: call.main_token_id,
                            pack_member_token_ids: call.members(),
                            pack_build_date: Some(call.time),
                        };
                        ledger.history.lemma_insert(
                            call.from,
                            list_of(ledger.history, call.from).push(entry),
                        );
                    }
                },
                Some(HandleReceiveMsg::ReceiveTransferBuild { transfer_build }) => {
                    let call = transfer_call(env, sender, from, token_ids, transfer_build);
                    if transfer_failure(ledger, registry, call) is None {
                        let entry = HistoryTokenModel {
                            wolf_main_token_id: call.target,
                            pack_member_token_ids: seq![call.token_id],
                            pack_build_date: Some(call.time),
                        };
                        ledger.history.lemma_insert(
                            call.from,
                            list_of(ledger.history, call.from).push(entry),
                        );
                    }
                },
                None => {},
            }
        },
        _ => {},
    }
    let after_list = list_of(after.history, account);
    assert(before_list.len() <= after_list.len());
    assert(before_list =~= after_list.subrange(0, before_list.len() as int));
}

/// A successful merge adds one entry to the history of the account it is
/// for: the leader, the members absorbed, and the block time.
pub proof fn lemma_merge_recorded(
    ledger: LedgerModel,
    registry: KeymapModel<NftDossierModel>,
    call: MergeCall,
)
    requires
        ledger.wf(),
        merge_failure(ledger, registry, call) is None,
    ensures
        list_of(merged_ledger(ledger, registry, call).history, call.from) == list_of(
            ledger.history,
            call.from,
        ).push(
            HistoryTokenModel {
                wolf_main_token_id: call.main_token_id,
                pack_member_token_ids: call.members(),
                pack_build_date: Some(call.time),
            },
        ),
{
    let entry = HistoryTokenModel {
        wolf_main_token_id: call.main_token_id,
        pack_member_token_ids: call.members(),
        pack_build_date: Some(call.time),
    };
    ledger.history.lemma_insert(call.from, list_of(ledger.history, call.from).push(entry));
}

/// A successful relocation adds one entry to the history of the account it
/// is for: the target leader, the member that moved, and the block time.
pub proof fn lemma_relocation_recorded(
    ledger: LedgerModel,
    registry: KeymapModel<NftDossierModel>,
    call: TransferCall,
)
    requires
        ledger.wf(),
        transfer_failure(ledger, registry, call) is None,
    ensures
        list_of(transferred_ledger(ledger, call).history, call.from) == list_of(
            ledger.history,
            call.from,
        ).push(
            HistoryTokenModel {
                wolf_main_token_id: call.target,
                pack_member_token_ids: seq![call.token_id],
                pack_build_date: Some(call.time),
            },
        ),
{
    let entry = HistoryTokenModel {
        wolf_main_token_id: call.target,
        pack_member_token_ids: seq![call.token_id],
        pack_build_date: Some(call.time),
    };
    ledger.history.lemma_insert(call.from, list_of(ledger.history, call.from).push(entry));
}

} // verus!
