use pack_builder::contract::{
    execute, instantiate, instantiate_with_key, receive, try_batch_receive, try_revoke_permit,
    try_send_nft_back,
};
use pack_builder::error::{ContractError, ErrorKind};
use pack_builder::keymap::Keymap;
use pack_builder::metadata::{MediaFile, Metadata, NftDossier, Trait};
use pack_builder::msg::{
    ContractInfo, ExecuteMsg, HandleReceiveMsg, InstantiateMsg, Level, PackBuildMsg,
    PackTransferMsg, PaymentContractInfo, Rank,
};
use pack_builder::response::{Command, Response};
use pack_builder::state::{Env, Ledger};
use pack_builder::viewing_key::derive_viewing_key;

fn c_text(s: &str) -> String {
    s.to_string()
}

fn c_env() -> Env {
    Env { block_time: 77, contract_address: c_text("builder"), contract_code_hash: c_text("builderhash") }
}

fn c_contract() -> ContractInfo {
    ContractInfo { code_hash: c_text("nfthash"), address: c_text("registry") }
}

fn c_payment(name: &str, amount: u128) -> PaymentContractInfo {
    PaymentContractInfo {
        code_hash: format!("{}hash", name),
        address: format!("{}addr", name),
        payment_needed: amount,
        name: c_text(name),
    }
}

fn c_msg(entropy: &str, ranks: Vec<(&str, u16)>) -> InstantiateMsg {
    InstantiateMsg {
        entropy: c_text(entropy),
        nft_contract: c_contract(),
        is_payment_needed: true,
        valid_payments: Some(vec![c_payment("sscrt", 5_000_000), c_payment("shd", 12)]),
        receiving_address: c_text("treasury"),
        pack_max: 10,
        collection_size: 100,
        level_cap: 10,
        levels: vec![Level { level: 1, xp_needed: 0 }, Level { level: 2, xp_needed: 10_000 }],
        ranks: ranks.into_iter().map(|(id, rank)| Rank { token_id: c_text(id), rank }).collect(),
    }
}

fn c_ledger() -> Ledger {
    instantiate(&c_env(), &c_text("admin"), c_msg("entropy", vec![("M1", 3)])).unwrap().0
}

#[test]
fn viewing_key_is_double_encoded_digest() {
    assert_eq!(derive_viewing_key(&c_text("entropy")), "yrUeik53elAqoeB7WMnaL0zWO9dnndH7WtbP7otD9Ec=");
    assert_eq!(derive_viewing_key(&c_text("")), "47DEQpj8HBSa+/TImW+5JCeuQeRkm5NMpJWZG3hSuFU=");
}

#[test]
fn instantiate_builds_ledger_and_requests() {
    let (ledger, response) =
        instantiate(&c_env(), &c_text("admin"), c_msg("entropy", vec![("M1", 3), ("M2", 100), ("M1", 1)])).unwrap();
    let key = c_text("yrUeik53elAqoeB7WMnaL0zWO9dnndH7WtbP7otD9Ec=");
    assert_eq!(ledger.config.owner, "admin");
    assert_eq!(ledger.config.viewing_key, Some(key.clone()));
    assert_eq!(ledger.config.total_burned, 0);
    assert_eq!(ledger.config.collection_size, 100);
    assert_eq!(ledger.config.level_cap, 10);
    assert_eq!(ledger.config.pack_max, 10);
    assert!(ledger.config.is_payment_needed);
    assert_eq!(ledger.config.receiving_address, "treasury");
    assert_eq!(ledger.levels.len(), 2);
    assert!(ledger.paid_addresses.is_empty());
    // a later rank of a token replaces the earlier one, in its place
    assert_eq!(ledger.ranks.keys, vec![c_text("M1"), c_text("M2")]);
    assert_eq!(ledger.ranks.values, vec![1, 100]);
    assert_eq!(ledger.pack_mains.len() + ledger.pack_members.len() + ledger.history.len(), 0);
    assert!(ledger.is_well_formed());
    assert_eq!(
        response.messages,
        vec![
            Command::RegisterReceiveNft { code_hash: c_text("builderhash"), contract: c_contract() },
            Command::SetViewingKey { key: key.clone(), contract: c_contract() },
            Command::SetViewingKey {
                key: key.clone(),
                contract: ContractInfo { code_hash: c_text("sscrthash"), address: c_text("sscrtaddr") },
            },
            Command::SetViewingKey {
                key: key.clone(),
                contract: ContractInfo { code_hash: c_text("shdhash"), address: c_text("shdaddr") },
            },
        ]
    );
    assert!(response.attributes.is_empty());
}

#[test]
fn instantiate_with_given_key_uses_it() {
    let (ledger, response) =
        instantiate_with_key(&c_env(), &c_text("admin"), c_msg("ignored", vec![]), c_text("my-key")).unwrap();
    assert_eq!(ledger.config.viewing_key, Some(c_text("my-key")));
    assert_eq!(response.messages[1], Command::SetViewingKey { key: c_text("my-key"), contract: c_contract() });
}

#[test]
fn instantiate_refuses_rank_outside_collection() {
    let zero = instantiate(&c_env(), &c_text("admin"), c_msg("e", vec![("M1", 3), ("M2", 0)]));
    assert_eq!(zero.unwrap_err(), ContractError::RankOutOfRange);
    let beyond = instantiate(&c_env(), &c_text("admin"), c_msg("e", vec![("M1", 101)]));
    assert_eq!(beyond.unwrap_err(), ContractError::RankOutOfRange);
    assert_eq!(ContractError::RankOutOfRange.kind(), ErrorKind::MalformedInput);
    assert!(instantiate(&c_env(), &c_text("admin"), c_msg("e", vec![("M1", 100), ("M2", 1)])).is_ok());
}

#[test]
fn receive_records_payment_and_passes_it_on() {
    let mut ledger = c_ledger();
    let response = receive(&mut ledger, &c_text("shdaddr"), &c_text("alice"), 12).unwrap();
    assert_eq!(ledger.paid_addresses, vec![c_text("alice")]);
    assert_eq!(
        response.messages,
        vec![Command::Snip20Transfer {
            recipient: c_text("treasury"),
            amount: 12,
            contract: ContractInfo { code_hash: c_text("shdhash"), address: c_text("shdaddr") },
        }]
    );
    assert!(ledger.is_well_formed());
}

#[test]
fn receive_refusals() {
    let mut ledger = c_ledger();
    assert_eq!(receive(&mut ledger, &c_text("other"), &c_text("alice"), 12), Err(ContractError::UnknownPaymentContract));
    assert_eq!(receive(&mut ledger, &c_text("shdaddr"), &c_text("alice"), 13), Err(ContractError::WrongPaymentAmount));
    assert_eq!(receive(&mut ledger, &c_text("sscrtaddr"), &c_text("alice"), 12), Err(ContractError::WrongPaymentAmount));
    assert!(ledger.paid_addresses.is_empty());
    receive(&mut ledger, &c_text("sscrtaddr"), &c_text("alice"), 5_000_000).unwrap();
    assert_eq!(receive(&mut ledger, &c_text("shdaddr"), &c_text("alice"), 12), Err(ContractError::AlreadyPaid));
    assert_eq!(ledger.paid_addresses, vec![c_text("alice")]);
    assert_eq!(ContractError::UnknownPaymentContract.kind(), ErrorKind::Unauthorized);
    assert_eq!(ContractError::WrongPaymentAmount.kind(), ErrorKind::PreconditionViolation);
    assert_eq!(ContractError::AlreadyPaid.kind(), ErrorKind::PreconditionViolation);
}

#[test]
fn receive_without_payment_contracts_knows_no_caller() {
    let mut msg = c_msg("e", vec![]);
    msg.valid_payments = None;
    let (mut ledger, response) = instantiate(&c_env(), &c_text("admin"), msg).unwrap();
    assert_eq!(response.messages.len(), 2);
    assert_eq!(receive(&mut ledger, &c_text("shdaddr"), &c_text("alice"), 12), Err(ContractError::UnknownPaymentContract));
}

#[test]
fn send_back_is_for_the_owner() {
    let ledger = c_ledger();
    assert_eq!(
        try_send_nft_back(&ledger, &c_text("alice"), c_text("W1"), c_text("alice")),
        Err(ContractError::NotOwner)
    );
    assert_eq!(ContractError::NotOwner.kind(), ErrorKind::Unauthorized);
    let response = try_send_nft_back(&ledger, &c_text("admin"), c_text("W1"), c_text("alice")).unwrap();
    assert_eq!(
        response.messages,
        vec![Command::TransferNft { recipient: c_text("alice"), token_id: c_text("W1"), contract: c_contract() }]
    );
}

#[test]
fn revoke_records_each_name_once() {
    let mut ledger = c_ledger();
    assert_eq!(try_revoke_permit(&mut ledger, &c_text("alice"), &c_text("daily")), Ok(Response::new()));
    try_revoke_permit(&mut ledger, &c_text("alice"), &c_text("weekly")).unwrap();
    try_revoke_permit(&mut ledger, &c_text("alice"), &c_text("daily")).unwrap();
    try_revoke_permit(&mut ledger, &c_text("bob"), &c_text("daily")).unwrap();
    assert_eq!(ledger.revoked_permits.get(&c_text("alice")), Some(&vec![c_text("daily"), c_text("weekly")]));
    assert_eq!(ledger.revoked_permits.get(&c_text("bob")), Some(&vec![c_text("daily")]));
    assert!(ledger.is_well_formed());
}

fn c_attr(name: &str, value: &str) -> Trait {
    Trait { display_type: None, trait_type: Some(c_text(name)), value: c_text(value), max_value: None }
}

fn c_dossier(attributes: Vec<Trait>, public: Vec<&str>, private: Vec<&str>) -> NftDossier {
    let file = |url: &&str| MediaFile { file_type: None, extension: None, authentication: None, url: c_text(url) };
    NftDossier {
        public_metadata: Some(Metadata { name: None, attributes, media: public.iter().map(file).collect() }),
        private_metadata: Some(Metadata { name: None, attributes: vec![], media: private.iter().map(file).collect() }),
    }
}

fn c_registry() -> Keymap<NftDossier> {
    let mut registry = Keymap::new();
    registry.insert(
        c_text("W1"),
        c_dossier(vec![c_attr("Alpha", "1"), c_attr("XP", "10"), c_attr("LVL", "1"), c_attr("Pack", "0")], vec!["w1"], vec![]),
    );
    registry.insert(c_text("M1"), c_dossier(vec![c_attr("XP", "464")], vec!["m1"], vec!["m1s"]));
    registry
}

#[test]
fn batch_receive_needs_a_payload() {
    let mut ledger = c_ledger();
    let result = try_batch_receive(&c_env(), &mut ledger, &c_registry(), &c_text("registry"), &c_text("alice"), vec![c_text("W1")], None);
    assert_eq!(result, Err(ContractError::MissingPayload));
    assert_eq!(ContractError::MissingPayload.kind(), ErrorKind::MalformedInput);
}

#[test]
fn execute_dispatches_each_message() {
    let mut ledger = c_ledger();
    let registry = c_registry();
    // a payment, reported by the payment contract
    let paid = execute(
        &c_env(),
        &mut ledger,
        &registry,
        &c_text("shdaddr"),
        ExecuteMsg::Receive { sender: c_text("alice"), from: c_text("alice"), amount: 12, msg: None },
    );
    assert!(paid.is_ok());
    assert_eq!(ledger.paid_addresses, vec![c_text("alice")]);
    // a merge, handed over by the registry
    let merged = execute(
        &c_env(),
        &mut ledger,
        &registry,
        &c_text("registry"),
        ExecuteMsg::BatchReceiveNft {
            from: c_text("alice"),
            token_ids: vec![c_text("W1"), c_text("M1")],
            msg: Some(HandleReceiveMsg::ReceivePackBuild {
                pack_build: PackBuildMsg { main_token_id: c_text("W1"), name: c_text("Pack") },
            }),
        },
    )
    .unwrap();
    assert_eq!(merged.messages.len(), 3);
    assert!(ledger.paid_addresses.is_empty());
    assert_eq!(ledger.config.total_burned, 1);
    assert_eq!(ledger.history.get(&c_text("alice")).unwrap()[0].pack_build_date, Some(77));
    // a relocation that names an unknown target
    let moved = execute(
        &c_env(),
        &mut ledger,
        &registry,
        &c_text("registry"),
        ExecuteMsg::BatchReceiveNft {
            from: c_text("alice"),
            token_ids: vec![c_text("W1")],
            msg: Some(HandleReceiveMsg::ReceiveTransferBuild {
                transfer_build: PackTransferMsg {
                    main_token_id: c_text("W1"),
                    transfer_to_token_id: c_text("W2"),
                    token_id: c_text("M1"),
                    member_index: 0,
                },
            }),
        },
    );
    assert_eq!(moved, Err(ContractError::TransferTargetNotInList));
    // a revocation
    let revoked = execute(&c_env(), &mut ledger, &registry, &c_text("alice"), ExecuteMsg::RevokePermit { permit_name: c_text("p") });
    assert_eq!(revoked, Ok(Response::new()));
    assert_eq!(ledger.revoked_permits.get(&c_text("alice")), Some(&vec![c_text("p")]));
    // sending a token back
    let sent = execute(
        &c_env(),
        &mut ledger,
        &registry,
        &c_text("alice"),
        ExecuteMsg::SendNftBack { token_id: c_text("W1"), owner: c_text("alice") },
    );
    assert_eq!(sent, Err(ContractError::NotOwner));
    assert!(ledger.is_well_formed());
}
