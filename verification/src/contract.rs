//! The entry points: setting the contract up, and the messages that change
//! the ledger.

use crate::error::ContractError;
use crate::keymap::{Keymap, KeymapModel};
pub use crate::merge::join_pack;
use crate::merge::{list_of, merge_call, merge_outcome};
use crate::metadata::{NftDossier, NftDossierModel};
use crate::msg::{
    ContractInfo, ContractInfoModel, ExecuteMsg, HandleReceiveMsg, InstantiateMsg,
    PaymentContractInfoModel, RankModel,
};
pub use crate::relocate::transfer_pack;
use crate::relocate::{transfer_call, transfer_outcome};
use crate::response::{is_result, Command, CommandModel, Response, ResponseModel};
use crate::seqs::{
    first_index, is_text, lemma_first_index, lemma_first_index_is, position_of, text_index,
};
use crate::state::{Env, Ledger, LedgerModel, State, StateModel};
use crate::viewing_key::{derive_viewing_key, viewing_key_of};
use vstd::prelude::*;

verus! {

/// The test whether a rank lies outside a collection of `size` tokens.
pub open spec fn misplaced(size: u16) -> spec_fn(RankModel) -> bool {
    |r: RankModel| r.rank < 1 || r.rank > size
}

/// The rank store that holds `ranks`, a later rank of a token replacing an
/// earlier one.
pub open spec fn registered(ranks: Seq<RankModel>) -> KeymapModel<u16>
    decreases ranks.len(),
{
    if ranks.len() == 0 {
        KeymapModel::empty()
    } else {
        registered(ranks.drop_last()).insert(ranks.last().token_id, ranks.last().rank)
    }
}

/// The payment contracts of a configuration, none where it names none.
pub open spec fn payments_of(config: StateModel) -> Seq<PaymentContractInfoModel> {
    match config.valid_payments {
        Some(payments) => payments,
        None => Seq::empty(),
    }
}

/// The request to set the viewing key with a payment contract.
pub open spec fn key_request(key: Seq<char>) -> spec_fn(PaymentContractInfoModel) -> CommandModel {
    |p: PaymentContractInfoModel|
        CommandModel::SetViewingKey {
            key: key,
            contract: ContractInfoModel { code_hash: p.code_hash, address: p.address },
        }
}

/// The configuration that a setup message asks for.
pub open spec fn initial_config(sender: Seq<char>, msg: &InstantiateMsg, key: Seq<char>) -> StateModel {
    StateModel {
        owner: sender,
        nft_contract: msg.nft_contract@,
        is_payment_needed: msg.is_payment_needed,
        valid_payments: msg.valid_payments.deep_view(),
        viewing_key: Some(key),
        receiving_address: msg.receiving_address@,
        total_burned: 0,
        pack_max: msg.pack_max,
        collection_size: msg.collection_size,
        level_cap: msg.level_cap,
    }
}

/// The ledger of a contract that was just set up: the configuration, the
/// progression table and the ranks from the message, and nothing else.
pub open spec fn initial_ledger(sender: Seq<char>, msg: &InstantiateMsg, key: Seq<char>) -> LedgerModel {
    LedgerModel {
        config: initial_config(sender, msg, key),
        levels: msg.levels@,
        paid_addresses: Seq::empty(),
        ranks: registered(msg.ranks.deep_view()),
        pack_members: KeymapModel::empty(),
        pack_mains: KeymapModel::empty(),
        history: KeymapModel::empty(),
        revoked_permits: KeymapModel::empty(),
    }
}

/// What setting up asks of the host: register with the registry for the
/// tokens sent to the contract, set the viewing key with the registry, and
/// set it with each payment contract, in this order.
pub open spec fn initial_response(env: &Env, msg: &InstantiateMsg, key: Seq<char>) -> ResponseModel {
    ResponseModel {
        messages: seq![
            CommandModel::RegisterReceiveNft {
                code_hash: env.contract_code_hash@,
                contract: msg.nft_contract@,
            },
            CommandModel::SetViewingKey { key: key, contract: msg.nft_contract@ },
        ] + payments_of(initial_config(Seq::empty(), msg, key)).map_values(key_request(key)),
        attributes: Seq::empty(),
    }
}

/// The rank store of a setup is in order where no rank is misplaced.
pub proof fn lemma_registered(ranks: Seq<RankModel>, size: u16)
    requires
        forall|i: int| 0 <= i < ranks.len() ==> !misplaced(size)(#[trigger] ranks[i]),
    ensures
        registered(ranks).wf(),
        forall|i: int|
            0 <= i < registered(ranks).values.len() ==> 1 <= #[trigger] registered(ranks).values[i]
                <= size,
    decreases ranks.len(),
{
    if ranks.len() > 0 {
        let before = registered(ranks.drop_last());
        let last = ranks.last();
        assert forall|i: int| 0 <= i < ranks.drop_last().len() implies !misplaced(size)(
            #[trigger] ranks.drop_last()[i],
        ) by {
            assert(ranks.drop_last()[i] == ranks[i]);
        }
        lemma_registered(ranks.drop_last(), size);
        before.lemma_insert(last.token_id, last.rank);
        before.lemma_contains(last.token_id);
        let after = registered(ranks);
        assert(!misplaced(size)(ranks[ranks.len() - 1]));
        assert forall|i: int| 0 <= i < after.values.len() implies 1 <= #[trigger] after.values[i]
            <= size by {
            if before.contains(last.token_id) {
                if i != before.index_of(last.token_id) {
                    assert(after.values[i] == before.values[i]);
                }
            } else {
                if i < before.values.len() {
                    assert(after.values[i] == before.values[i]);
                }
            }
        }
    }
}

/// Sets the contract up, with the viewing key that belongs to the entropy
/// in the message.
///
/// Fails where a rank lies outside the collection. Otherwise returns the
/// ledger of the new contract and the requests to the registry and to the
/// payment contracts.
pub fn instantiate(env: &Env, sender: &String, msg: InstantiateMsg) -> (r: Result<
    (Ledger, Response),
    ContractError,
>)
    ensures
        match r {
            Err(e) => e == ContractError::RankOutOfRange && first_index(
                msg.ranks.deep_view(),
                misplaced(msg.collection_size),
            ) < msg.ranks.len(),
            Ok((ledger, response)) => {
                &&& first_index(msg.ranks.deep_view(), misplaced(msg.collection_size))
                    >= msg.ranks.len()
                &&& ledger.wf()
                &&& ledger@ == initial_ledger(sender@, &msg, viewing_key_of(msg.entropy@))
                &&& response@ == initial_response(env, &msg, viewing_key_of(msg.entropy@))
            },
        },
{
    let viewing_key = derive_viewing_key(&msg.entropy);
    instantiate_with_key(env, sender, msg, viewing_key)
}

/// Sets the contract up with the viewing key `viewing_key`.
///
/// Fails where a rank lies outside the collection. Otherwise returns the
/// ledger of the new contract and the requests to the registry and to the
/// payment contracts.
pub fn instantiate_with_key(
    env: &Env,
    sender: &String,
    msg: InstantiateMsg,
    viewing_key: String,
) -> (r: Result<(Ledger, Response), ContractError>)
    ensures
        match r {
            Err(e) => e == ContractError::RankOutOfRange && first_index(
                msg.ranks.deep_view(),
                misplaced(msg.collection_size),
            ) < msg.ranks.len(),
            Ok((ledger, response)) => {
                &&& first_index(msg.ranks.deep_view(), misplaced(msg.collection_size))
                    >= msg.ranks.len()
                &&& ledger.wf()
                &&& ledger@ == initial_ledger(sender@, &msg, viewing_key@)
                &&& response@ == initial_response(env, &msg, viewing_key@)
            },
        },
{
    let size = msg.collection_size;
    let ghost all = msg.ranks.deep_view();
    let mut ranks: Keymap<u16> = Keymap::new();
    let mut i: usize = 0;
    while i < msg.ranks.len()
        invariant
            i <= msg.ranks.len(),
            all == msg.ranks.deep_view(),
            size == msg.collection_size,
            ranks.wf(),
            ranks@ == registered(all.take(i as int)),
            forall|j: int| 0 <= j < i ==> !misplaced(size)(#[trigger] all[j]),
        decreases msg.ranks.len() - i,
    {
        let entry = &msg.ranks[i];
        assert(all[i as int] == entry@);
        if entry.rank < 1 || entry.rank > size {
            proof {
                lemma_first_index_is(all, misplaced(size), i as int);
            }
            return Err(ContractError::RankOutOfRange);
        }
        proof {
            assert(all.take(i + 1).drop_last() =~= all.take(i as int));
            assert(all.take(i + 1).last() == all[i as int]);
        }
        ranks.insert(entry.token_id.clone(), entry.rank);
        i = i + 1;
    }
    proof {
        assert(all.take(i as int) =~= all);
        lemma_first_index_is(all, misplaced(size), all.len() as int);
        lemma_registered(all, size);
    }
    let mut messages: Vec<Command> = Vec::new();
    messages.push(
        Command::RegisterReceiveNft {
            code_hash: env.contract_code_hash.clone(),
            contract: msg.nft_contract.clone(),
        },
    );
    messages.push(
        Command::SetViewingKey { key: viewing_key.clone(), contract: msg.nft_contract.clone() },
    );
    let ghost head = messages.deep_view();
    let ghost payments = payments_of(initial_config(Seq::empty(), &msg, viewing_key@));
    let valid_payments = match &msg.valid_payments {
        Some(list) => {
            let mut k: usize = 0;
            while k < list.len()
                invariant
                    k <= list.len(),
                    payments == list.deep_view(),
                    messages.deep_view() == head + payments.take(k as int).map_values(
                        key_request(viewing_key@),
                    ),
                decreases list.len() - k,
            {
                let payment = &list[k];
                assert(payments[k as int] == payment@);
                let ghost previous = messages.deep_view();
                let request = Command::SetViewingKey {
                    key: viewing_key.clone(),
                    contract: ContractInfo {
                        code_hash: payment.code_hash.clone(),
                        address: payment.address.clone(),
                    },
                };
                messages.push(request);
                assert(messages.deep_view() =~= previous.push(request@));
                assert(messages.deep_view() =~= head + payments.take(k + 1).map_values(
                    key_request(viewing_key@),
                ));
                k = k + 1;
            }
            assert(payments.take(k as int) =~= payments);
            let copy = list.clone();
            assert(copy.deep_view() =~= list.deep_view());
            Some(copy)
        },
        None => {
            assert(messages.deep_view() =~= head + payments.map_values(key_request(viewing_key@)));
            None
        },
    };
    let ledger = Ledger {
        config: State {
            owner: sender.clone(),
            nft_contract: msg.nft_contract.clone(),
            is_payment_needed: msg.is_payment_needed,
            valid_payments: valid_payments,
            viewing_key: Some(viewing_key),
            receiving_address: msg.receiving_address.clone(),
            total_burned: 0,
            pack_max: msg.pack_max,
            collection_size: msg.collection_size,
            level_cap: msg.level_cap,
        },
        levels: msg.levels.clone(),
        paid_addresses: Vec::new(),
        ranks: ranks,
        pack_members: Keymap::new(),
        pack_mains: Keymap::new(),
        history: Keymap::new(),
        revoked_permits: Keymap::new(),
    };
    let response = Response { messages, attributes: Vec::new() };
    proof {
        assert(ledger.levels@ =~= msg.levels@);
        assert(ledger@ =~~= initial_ledger(sender@, &msg, viewing_key@));
        assert(response@ =~~= initial_response(env, &msg, viewing_key@));
    }
    Ok((ledger, response))
}

/// The test whether a payment contract lives at `address`.
pub open spec fn lives_at(address: Seq<char>) -> spec_fn(PaymentContractInfoModel) -> bool {
    |p: PaymentContractInfoModel| p.address == address
}

/// Where the payment contract that lives at `address` stands among the
/// accepted ones, or their number where it is none of them.
pub open spec fn payment_index(config: StateModel, address: Seq<char>) -> int {
    first_index(payments_of(config), lives_at(address))
}

/// What a payment notification comes to. It is refused where the caller is
/// no accepted payment contract, where the amount is not what that contract
/// asks for, and where the paying account has a pending payment already.
/// Otherwise the account gets a pending payment, and the amount is passed
/// on to the receiving account.
pub open spec fn receive_outcome(
    ledger: LedgerModel,
    caller: Seq<char>,
    payer: Seq<char>,
    amount: u128,
) -> (LedgerModel, Result<ResponseModel, ContractError>) {
    let payments = payments_of(ledger.config);
    let i = payment_index(ledger.config, caller);
    if i >= payments.len() {
        (ledger, Err(ContractError::UnknownPaymentContract))
    } else if payments[i].payment_needed != amount {
        (ledger, Err(ContractError::WrongPaymentAmount))
    } else if text_index(ledger.paid_addresses, payer) < ledger.paid_addresses.len() {
        (ledger, Err(ContractError::AlreadyPaid))
    } else {
        (
            LedgerModel { paid_addresses: ledger.paid_addresses.push(payer), ..ledger },
            Ok(
                ResponseModel {
                    messages: seq![
                        CommandModel::Snip20Transfer {
                            recipient: ledger.config.receiving_address,
                            amount: amount,
                            contract: ContractInfoModel {
                                code_hash: payments[i].code_hash,
                                address: payments[i].address,
                            },
                        },
                    ],
                    attributes: Seq::empty(),
                },
            ),
        )
    }
}

/// Where the payment contract that lives at `address` stands among the
/// accepted ones, if it is one of them.
pub fn find_payment(config: &State, address: &String) -> (r: Option<usize>)
    ensures
        match r {
            Some(i) => i < payments_of(config@).len() && i == payment_index(config@, address@)
                && config.valid_payments is Some && i < config.valid_payments.unwrap().len(),
            None => payment_index(config@, address@) >= payments_of(config@).len(),
        },
{
    let ghost p = lives_at(address@);
    match &config.valid_payments {
        None => {
            proof {
                lemma_first_index(payments_of(config@), p);
            }
            None
        },
        Some(list) => {
            let mut i: usize = 0;
            while i < list.len()
                invariant
                    i <= list.len(),
                    p == lives_at(address@),
                    config.valid_payments == Some(*list),
                    payments_of(config@) == list.deep_view(),
                    forall|j: int| 0 <= j < i ==> !p(#[trigger] list.deep_view()[j]),
                decreases list.len() - i,
            {
                assert(list.deep_view()[i as int] == list[i as int]@);
                if list[i].address == *address {
                    proof {
                        lemma_first_index_is(list.deep_view(), p, i as int);
                    }
                    return Some(i);
                }
                i = i + 1;
            }
            proof {
                lemma_first_index_is(list.deep_view(), p, list.len() as int);
            }
            None
        },
    }
}

/// Takes note of a payment that the payment contract `info_sender` reports
/// for the account `sender`.
pub fn receive(
    ledger: &mut Ledger,
    info_sender: &String,
    sender: &String,
    amount: u128,
) -> (r: Result<Response, ContractError>)
    requires
        old(ledger).wf(),
    ensures
        final(ledger).wf(),
        final(ledger)@ == receive_outcome(old(ledger)@, info_sender@, sender@, amount).0,
        is_result(r, receive_outcome(old(ledger)@, info_sender@, sender@, amount).1),
{
    let i = match find_payment(&ledger.config, info_sender) {
        Some(i) => i,
        None => {
            return Err(ContractError::UnknownPaymentContract);
        },
    };
    let request = match &ledger.config.valid_payments {
        Some(list) => {
            let payment = &list[i];
            assert(list.deep_view()[i as int] == payment@);
            if payment.payment_needed != amount {
                return Err(ContractError::WrongPaymentAmount);
            }
            Command::Snip20Transfer {
                recipient: ledger.config.receiving_address.clone(),
                amount: amount,
                contract: ContractInfo {
                    code_hash: payment.code_hash.clone(),
                    address: payment.address.clone(),
                },
            }
        },
        None => {
            return Err(ContractError::UnknownPaymentContract);
        },
    };
    if position_of(&ledger.paid_addresses, sender).is_some() {
        return Err(ContractError::AlreadyPaid);
    }
    let ghost before = ledger@;
    proof {
        lemma_first_index(before.paid_addresses, is_text(sender@));
        let after = before.paid_addresses.push(sender@);
        assert forall|a: int, b: int|
            0 <= a < after.len() && 0 <= b < after.len() && a != b implies after[a] != after[b] by {
            if a < before.paid_addresses.len() {
                assert(!is_text(sender@)(before.paid_addresses[a]));
            }
            if b < before.paid_addresses.len() {
                assert(!is_text(sender@)(before.paid_addresses[b]));
            }
        }
    }
    ledger.paid_addresses.push(sender.clone());
    assert(ledger.paid_addresses.deep_view() =~= before.paid_addresses.push(sender@));
    assert(ledger@ =~= receive_outcome(before, info_sender@, sender@, amount).0);
    let mut messages: Vec<Command> = Vec::new();
    messages.push(request);
    let response = Response { messages, attributes: Vec::new() };
    assert(response@ =~~= receive_outcome(before, info_sender@, sender@, amount).1.unwrap());
    Ok(response)
}

/// The ledger after `account` has revoked its permit `permit_name`: the
/// name is on the account's list, once.
pub open spec fn revoked_ledger(
    ledger: LedgerModel,
    account: Seq<char>,
    permit_name: Seq<char>,
) -> LedgerModel {
    let names = list_of(ledger.revoked_permits, account);
    if text_index(names, permit_name) < names.len() {
        ledger
    } else {
        LedgerModel {
            revoked_permits: ledger.revoked_permits.insert(account, names.push(permit_name)),
            ..ledger
        }
    }
}

/// Revokes the permit `permit_name` of the account `sender`.
pub fn try_revoke_permit(ledger: &mut Ledger, sender: &String, permit_name: &String) -> (r: Result<
    Response,
    ContractError,
>)
    requires
        old(ledger).wf(),
    ensures
        final(ledger).wf(),
        final(ledger)@ == revoked_ledger(old(ledger)@, sender@, permit_name@),
        is_result(r, Ok(ResponseModel::empty())),
{
    let ghost before = ledger@;
    let mut names: Vec<String> = match ledger.revoked_permits.get(sender) {
        Some(names) => {
            let copy = names.clone();
            assert(copy.deep_view() =~= names.deep_view());
            copy
        },
        None => Vec::new(),
    };
    assert(names.deep_view() =~= list_of(before.revoked_permits, sender@));
    if position_of(&names, permit_name).is_none() {
        let ghost old_names = names.deep_view();
        names.push(permit_name.clone());
        assert(names.deep_view() =~= old_names.push(permit_name@));
        ledger.revoked_permits.insert(sender.clone(), names);
        assert(ledger@ =~= revoked_ledger(before, sender@, permit_name@));
    }
    Ok(Response::new())
}

/// What the request to send a token back comes to: only the owner of the
/// contract may ask, and the ledger stays as it is.
pub open spec fn send_back_result(
    config: StateModel,
    sender: Seq<char>,
    token_id: Seq<char>,
    owner: Seq<char>,
) -> Result<ResponseModel, ContractError> {
    if sender != config.owner {
        Err(ContractError::NotOwner)
    } else {
        Ok(
            ResponseModel {
                messages: seq![
                    CommandModel::TransferNft {
                        recipient: owner,
                        token_id: token_id,
                        contract: config.nft_contract,
                    },
                ],
                attributes: Seq::empty(),
            },
        )
    }
}

/// Sends the token `token_id`, which the contract holds, to the account
/// `owner`. Only the owner of the contract may ask for this.
pub fn try_send_nft_back(ledger: &Ledger, sender: &String, token_id: String, owner: String) -> (r:
    Result<Response, ContractError>)
    ensures
        is_result(r, send_back_result(ledger@.config, sender@, token_id@, owner@)),
{
    if !(*sender == ledger.config.owner) {
        return Err(ContractError::NotOwner);
    }
    let mut messages: Vec<Command> = Vec::new();
    messages.push(
        Command::TransferNft {
            recipient: owner,
            token_id: token_id,
            contract: ledger.config.nft_contract.clone(),
        },
    );
    let response = Response { messages, attributes: Vec::new() };
    assert(response@ =~~= send_back_result(ledger@.config, sender@, token_id@, owner@).unwrap());
    Ok(response)
}

/// What a batch of tokens handed over by `sender` for the account `from`
/// comes to: the merge or the relocation that the payload asks for; a
/// batch without payload is refused.
pub open spec fn batch_outcome(
    ledger: LedgerModel,
    registry: KeymapModel<NftDossierModel>,
    env: &Env,
    sender: &String,
    from: &String,
    token_ids: &Vec<String>,
    msg: &Option<HandleReceiveMsg>,
) -> (LedgerModel, Result<ResponseModel, ContractError>) {
    match msg {
        Some(HandleReceiveMsg::ReceivePackBuild { pack_build }) => merge_outcome(
            ledger,
            registry,
            merge_call(env, sender, from, token_ids, pack_build),
        ),
        Some(HandleReceiveMsg::ReceiveTransferBuild { transfer_build }) => transfer_outcome(
            ledger,
            registry,
            transfer_call(env, sender, from, token_ids, transfer_build),
        ),
        None => (ledger, Err(ContractError::MissingPayload)),
    }
}

/// Takes a batch of tokens that `sender` hands over for the account `from`,
/// and does with it what the payload asks for.
pub fn try_batch_receive(
    env: &Env,
    ledger: &mut Ledger,
    registry: &Keymap<NftDossier>,
    sender: &String,
    from: &String,
    token_ids: Vec<String>,
    msg: Option<HandleReceiveMsg>,
) -> (r: Result<Response, ContractError>)
    requires
        old(ledger).wf(),
        registry.wf(),
    ensures
        final(ledger).wf(),
        final(ledger)@ == batch_outcome(
            old(ledger)@,
            registry@,
            env,
            sender,
            from,
            &token_ids,
            &msg,
        ).0,
        is_result(
            r,
            batch_outcome(old(ledger)@, registry@, env, sender, from, &token_ids, &msg).1,
        ),
{
    match msg {
        Some(HandleReceiveMsg::ReceivePackBuild { pack_build }) => join_pack(
            env,
            ledger,
            registry,
            sender,
            from,
            token_ids,
            pack_build,
        ),
        Some(HandleReceiveMsg::ReceiveTransferBuild { transfer_build }) => transfer_pack(
            env,
            ledger,
            registry,
            sender,
            from,
            token_ids,
            transfer_build,
        ),
        None => Err(ContractError::MissingPayload),
    }
}

/// What a message from `sender` comes to.
pub open spec fn execute_outcome(
    ledger: LedgerModel,
    registry: KeymapModel<NftDossierModel>,
    env: &Env,
    sender: &String,
    msg: &ExecuteMsg,
) -> (LedgerModel, Result<ResponseModel, ContractError>) {
    match msg {
        ExecuteMsg::RevokePermit { permit_name } => (
            revoked_ledger(ledger, sender@, permit_name@),
            Ok(ResponseModel::empty()),
        ),
        ExecuteMsg::BatchReceiveNft { from, token_ids, msg } => batch_outcome(
            ledger,
            registry,
            env,
            sender,
            from,
            token_ids,
            msg,
        ),
        ExecuteMsg::Receive { sender: payer, from, amount, msg } => receive_outcome(
            ledger,
            sender@,
            payer@,
            *amount,
        ),
        ExecuteMsg::SendNftBack { token_id, owner } => (
            ledger,
            send_back_result(ledger.config, sender@, token_id@, owner@),
        ),
    }
}

/// Carries out the message `msg` that `sender` sent.
pub fn execute(
    env: &Env,
    ledger: &mut Ledger,
    registry: &Keymap<NftDossier>,
    sender: &String,
    msg: ExecuteMsg,
) -> (r: Result<Response, ContractError>)
    requires
        old(ledger).wf(),
        registry.wf(),
    ensures
        final(ledger).wf(),
        final(ledger)@ == execute_outcome(old(ledger)@, registry@, env, sender, &msg).0,
        is_result(r, execute_outcome(old(ledger)@, registry@, env, sender, &msg).1),
{
    match msg {
        ExecuteMsg::RevokePermit { permit_name } => try_revoke_permit(ledger, sender, &permit_name),
        ExecuteMsg::BatchReceiveNft { from, token_ids, msg } => try_batch_receive(
            env,
            ledger,
            registry,
            sender,
            &from,
            token_ids,
            msg,
        ),
        ExecuteMsg::Receive { sender: payer, from, amount, msg } => receive(
            ledger,
            sender,
            &payer,
            amount,
        ),
        ExecuteMsg::SendNftBack { token_id, owner } => try_send_nft_back(
            ledger,
            sender,
            token_id,
            owner,
        ),
    }
}

} // verus!
