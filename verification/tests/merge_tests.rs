use pack_builder::contract::instantiate_with_key;
use pack_builder::error::{ContractError, ErrorKind};
use pack_builder::keymap::Keymap;
use pack_builder::merge::{join_pack, MIN_MEMBER_XP};
use pack_builder::metadata::{MediaFile, Metadata, NftDossier, Trait};
use pack_builder::msg::{
    ContractInfo, HistoryToken, InstantiateMsg, Level, PackBuildMsg, PackMain, PackMember, Rank,
};
use pack_builder::response::{Attribute, Command};
use pack_builder::state::{Env, Ledger};

fn m_text(s: &str) -> String {
    s.to_string()
}

fn m_attr(name: &str, value: &str) -> Trait {
    Trait { display_type: None, trait_type: Some(m_text(name)), value: m_text(value), max_value: None }
}

fn m_media(url: &str) -> MediaFile {
    MediaFile { file_type: Some(m_text("image")), extension: Some(m_text("png")), authentication: None, url: m_text(url) }
}

fn m_side(attributes: Vec<Trait>, media: Vec<MediaFile>) -> Metadata {
    Metadata { name: None, attributes, media }
}

fn m_registry_contract() -> ContractInfo {
    ContractInfo { code_hash: m_text("nfthash"), address: m_text("registry") }
}

fn m_env() -> Env {
    Env { block_time: 1_700_000_000, contract_address: m_text("builder"), contract_code_hash: m_text("builderhash") }
}

fn m_table(last: &[(u16, u32)]) -> Vec<Level> {
    let mut levels = vec![
        Level { level: 1, xp_needed: 0 },
        Level { level: 2, xp_needed: 100 },
        Level { level: 3, xp_needed: 250 },
        Level { level: 4, xp_needed: 450 },
        Level { level: 5, xp_needed: 700 },
        Level { level: 6, xp_needed: 1000 },
        Level { level: 7, xp_needed: 1500 },
    ];
    for (level, xp_needed) in last {
        levels.push(Level { level: *level, xp_needed: *xp_needed });
    }
    levels
}

fn m_ledger(levels: Vec<Level>, ranks: Vec<(&str, u16)>, payment: bool) -> Ledger {
    let msg = InstantiateMsg {
        entropy: m_text("entropy"),
        nft_contract: m_registry_contract(),
        is_payment_needed: payment,
        valid_payments: None,
        receiving_address: m_text("treasury"),
        pack_max: 10,
        collection_size: 100,
        level_cap: 10,
        levels,
        ranks: ranks.into_iter().map(|(id, rank)| Rank { token_id: m_text(id), rank }).collect(),
    };
    let (ledger, _) = instantiate_with_key(&m_env(), &m_text("admin"), msg, m_text("key")).unwrap();
    ledger
}

fn m_leader(xp: &str, lvl: &str) -> NftDossier {
    NftDossier {
        public_metadata: Some(m_side(
            vec![m_attr("Alpha", "yes"), m_attr("XP", xp), m_attr("LVL", lvl), m_attr("Pack", "0")],
            vec![m_media("w1.png")],
        )),
        private_metadata: Some(m_side(vec![m_attr("Secret", "w1")], vec![])),
    }
}

fn m_member(id: &str, xp: &str) -> NftDossier {
    NftDossier {
        public_metadata: Some(m_side(
            vec![m_attr("Fur", "grey"), m_attr("XP", xp), m_attr("LVL", "3")],
            vec![m_media(&format!("{}.png", id)), m_media(&format!("{}-b.png", id))],
        )),
        private_metadata: Some(m_side(vec![], vec![m_media(&format!("{}-secret.png", id))])),
    }
}

fn m_registry(entries: Vec<(&str, NftDossier)>) -> Keymap<NftDossier> {
    let mut registry = Keymap::new();
    for (id, dossier) in entries {
        registry.insert(m_text(id), dossier);
    }
    registry
}

fn m_build(name: &str) -> PackBuildMsg {
    PackBuildMsg { main_token_id: m_text("W1"), name: m_text(name) }
}

fn m_value(attributes: &[Trait], name: &str) -> Option<String> {
    attributes.iter().find(|t| t.trait_type.as_deref() == Some(name)).map(|t| t.value.clone())
}

fn m_merge(ledger: &mut Ledger, registry: &Keymap<NftDossier>, ids: &[&str]) -> Result<pack_builder::response::Response, ContractError> {
    join_pack(
        &m_env(),
        ledger,
        registry,
        &m_text("registry"),
        &m_text("alice"),
        ids.iter().map(|s| m_text(s)).collect(),
        m_build("Night Pack"),
    )
}

#[test]
fn merge_one_member_raises_the_leader() {
    // The leader has 1000 experience at level 5; the member brings 499.
    let mut ledger = m_ledger(m_table(&[]), vec![("M1", 3)], false);
    let registry = m_registry(vec![("W1", m_leader("1000", "5")), ("M1", m_member("M1", "499"))]);
    let response = m_merge(&mut ledger, &registry, &["W1", "M1"]).unwrap();

    assert_eq!(response.messages.len(), 3);
    assert_eq!(
        response.messages[0],
        Command::BatchBurnNft { token_ids: vec![m_text("M1")], contract: m_registry_contract() }
    );
    match &response.messages[1] {
        Command::SetMetadata { token_id, public_metadata, private_metadata, contract } => {
            assert_eq!(token_id, "W1");
            assert_eq!(contract, &m_registry_contract());
            assert_eq!(public_metadata.name, Some(m_text("Night Pack")));
            assert_eq!(m_value(&public_metadata.attributes, "XP"), Some(m_text("1499")));
            assert_eq!(m_value(&public_metadata.attributes, "Pack"), Some(m_text("1")));
            assert_eq!(m_value(&public_metadata.attributes, "Pack Rank"), Some(m_text("97")));
            assert_eq!(m_value(&public_metadata.attributes, "LVL"), Some(m_text("6")));
            assert_eq!(m_value(&public_metadata.attributes, "Alpha"), Some(m_text("yes")));
            assert_eq!(public_metadata.attributes.len(), 5);
            assert_eq!(public_metadata.media, vec![m_media("w1.png"), m_media("M1.png")]);
            assert_eq!(private_metadata.media, vec![m_media("M1-secret.png")]);
            assert_eq!(private_metadata.attributes, vec![m_attr("Secret", "w1")]);
        }
        other => panic!("unexpected request {:?}", other),
    }
    assert_eq!(
        response.messages[2],
        Command::TransferNft { recipient: m_text("alice"), token_id: m_text("W1"), contract: m_registry_contract() }
    );
    assert_eq!(response.attributes, vec![Attribute { key: m_text("lvl_increase"), value: m_text("6") }]);

    assert_eq!(ledger.config.total_burned, 1);
    assert_eq!(
        ledger.pack_mains.get(&m_text("W1")),
        Some(&PackMain { token_id: m_text("W1"), pack_rank: 97, pack_count: 1, name: m_text("Night Pack") })
    );
    assert_eq!(
        ledger.pack_members.get(&m_text("W1")),
        Some(&vec![PackMember {
            token_id: m_text("M1"),
            rank: 3,
            attributes: vec![m_attr("Fur", "grey"), m_attr("XP", "499"), m_attr("LVL", "3")],
        }])
    );
    assert_eq!(
        ledger.history.get(&m_text("alice")),
        Some(&vec![HistoryToken {
            wolf_main_token_id: m_text("W1"),
            pack_member_token_ids: vec![m_text("M1")],
            pack_build_date: Some(1_700_000_000),
        }])
    );
    assert!(ledger.is_well_formed());
}

#[test]
fn merge_at_a_threshold_takes_the_next_step() {
    // 1000 + 500 = 1500 is no longer below the step of level 7, so the
    // first step above it is that of level 8.
    let mut ledger = m_ledger(m_table(&[(8, 2100)]), vec![("M1", 3)], false);
    let registry = m_registry(vec![("W1", m_leader("1000", "5")), ("M1", m_member("M1", "500"))]);
    let response = m_merge(&mut ledger, &registry, &["W1", "M1"]).unwrap();
    match &response.messages[1] {
        Command::SetMetadata { public_metadata, .. } => {
            assert_eq!(m_value(&public_metadata.attributes, "XP"), Some(m_text("1500")));
            assert_eq!(m_value(&public_metadata.attributes, "Pack"), Some(m_text("1")));
            assert_eq!(m_value(&public_metadata.attributes, "Pack Rank"), Some(m_text("97")));
            assert_eq!(m_value(&public_metadata.attributes, "LVL"), Some(m_text("7")));
        }
        other => panic!("unexpected request {:?}", other),
    }
    assert_eq!(response.attributes, vec![Attribute { key: m_text("lvl_increase"), value: m_text("7") }]);
    assert_eq!(
        response.messages[0],
        Command::BatchBurnNft { token_ids: vec![m_text("M1")], contract: m_registry_contract() }
    );
}

#[test]
fn merge_beyond_the_table_finds_no_level() {
    // With the table ending at 1500, an experience of 1500 has no step
    // above it.
    let mut ledger = m_ledger(m_table(&[]), vec![("M1", 3)], false);
    let before = m_ledger(m_table(&[]), vec![("M1", 3)], false);
    let registry = m_registry(vec![("W1", m_leader("1000", "5")), ("M1", m_member("M1", "500"))]);
    let result = m_merge(&mut ledger, &registry, &["W1", "M1"]);
    assert_eq!(result, Err(ContractError::LevelNotFound));
    assert_eq!(ContractError::LevelNotFound.kind(), ErrorKind::NotFound);
    assert_eq!(ledger, before);
}

#[test]
fn merge_with_alpha_member_is_refused() {
    let mut ledger = m_ledger(m_table(&[(8, 2100)]), vec![("M1", 3), ("A2", 4)], true);
    ledger.paid_addresses.push(m_text("alice"));
    let mut before = m_ledger(m_table(&[(8, 2100)]), vec![("M1", 3), ("A2", 4)], true);
    before.paid_addresses.push(m_text("alice"));
    let registry = m_registry(vec![
        ("W1", m_leader("1000", "5")),
        ("M1", m_member("M1", "500")),
        ("A2", m_leader("900", "4")),
    ]);
    let result = m_merge(&mut ledger, &registry, &["M1", "W1", "A2"]);
    assert_eq!(result, Err(ContractError::AlphaAsMember));
    assert_eq!(ContractError::AlphaAsMember.kind(), ErrorKind::PreconditionViolation);
    assert_eq!(ledger, before);
}

#[test]
fn merge_adds_counts_and_scores() {
    let mut ledger = m_ledger(m_table(&[(8, 100_000)]), vec![("M1", 3), ("M2", 100), ("M3", 41)], false);
    let mut leader = m_leader("1000", "5");
    leader.public_metadata.as_mut().unwrap().attributes[3].value = m_text("4");
    leader.public_metadata.as_mut().unwrap().attributes.push(m_attr("Pack Rank", "250"));
    let registry = m_registry(vec![
        ("W1", leader),
        ("M1", m_member("M1", "464")),
        ("M2", m_member("M2", "1000")),
        ("M3", m_member("M3", "600")),
    ]);
    let response = m_merge(&mut ledger, &registry, &["M1", "M2", "W1", "M3"]).unwrap();
    // 4 + 3 members; 250 + (100 - 3) + (100 - 100) + (100 - 41)
    let row = ledger.pack_mains.get(&m_text("W1")).unwrap();
    assert_eq!(row.pack_count, 7);
    assert_eq!(row.pack_rank, 250 + 97 + 0 + 59);
    match &response.messages[1] {
        Command::SetMetadata { public_metadata, private_metadata, .. } => {
            assert_eq!(m_value(&public_metadata.attributes, "Pack"), Some(m_text("7")));
            assert_eq!(m_value(&public_metadata.attributes, "Pack Rank"), Some(m_text("406")));
            assert_eq!(m_value(&public_metadata.attributes, "XP"), Some(m_text("3064")));
            assert_eq!(
                public_metadata.media,
                vec![m_media("w1.png"), m_media("M1.png"), m_media("M2.png"), m_media("M3.png")]
            );
            assert_eq!(
                private_metadata.media,
                vec![m_media("M1-secret.png"), m_media("M2-secret.png"), m_media("M3-secret.png")]
            );
        }
        other => panic!("unexpected request {:?}", other),
    }
    assert_eq!(
        response.messages[0],
        Command::BatchBurnNft { token_ids: vec![m_text("M1"), m_text("M2"), m_text("M3")], contract: m_registry_contract() }
    );
    assert_eq!(ledger.config.total_burned, 3);
    let members = ledger.pack_members.get(&m_text("W1")).unwrap();
    assert_eq!(members.iter().map(|m| m.rank).collect::<Vec<u16>>(), vec![3, 100, 41]);
}

#[test]
fn merge_keeps_alphas_out_of_the_lists() {
    let mut ledger = m_ledger(m_table(&[(8, 100_000)]), vec![("M1", 3), ("M2", 7)], false);
    let registry = m_registry(vec![
        ("W1", m_leader("1000", "5")),
        ("M1", m_member("M1", "500")),
        ("M2", m_member("M2", "500")),
    ]);
    m_merge(&mut ledger, &registry, &["W1", "M1", "M2"]).unwrap();
    for list in ledger.pack_members.values.iter() {
        for member in list {
            assert!(member.attributes.iter().all(|t| t.trait_type.as_deref() != Some("Alpha")));
        }
    }
    assert!(ledger.is_well_formed());
}

#[test]
fn merge_uses_the_payment_once() {
    let mut ledger = m_ledger(m_table(&[(8, 100_000)]), vec![("M1", 3), ("M2", 7)], true);
    ledger.paid_addresses.push(m_text("bob"));
    ledger.paid_addresses.push(m_text("alice"));
    let registry = m_registry(vec![
        ("W1", m_leader("1000", "5")),
        ("M1", m_member("M1", "500")),
        ("M2", m_member("M2", "500")),
    ]);
    m_merge(&mut ledger, &registry, &["W1", "M1"]).unwrap();
    assert_eq!(ledger.paid_addresses, vec![m_text("bob")]);
    let after_first = m_merge(&mut ledger, &registry, &["W1", "M2"]);
    assert_eq!(after_first, Err(ContractError::PaymentNotReceived));
    assert_eq!(ContractError::PaymentNotReceived.kind(), ErrorKind::PreconditionViolation);
    assert_eq!(ledger.config.total_burned, 1);
}

#[test]
fn merge_without_payment_rule_needs_no_payment() {
    let mut ledger = m_ledger(m_table(&[(8, 100_000)]), vec![("M1", 3)], false);
    let registry = m_registry(vec![("W1", m_leader("1000", "5")), ("M1", m_member("M1", "500"))]);
    assert!(m_merge(&mut ledger, &registry, &["W1", "M1"]).is_ok());
    assert!(ledger.paid_addresses.is_empty());
}

#[test]
fn merge_at_the_cap_leaves_the_level() {
    let mut ledger = m_ledger(m_table(&[(8, 100_000)]), vec![("M1", 3)], false);
    // level 10 is the cap: the table would say 7
    let registry = m_registry(vec![("W1", m_leader("1000", "10")), ("M1", m_member("M1", "500"))]);
    let response = m_merge(&mut ledger, &registry, &["W1", "M1"]).unwrap();
    match &response.messages[1] {
        Command::SetMetadata { public_metadata, .. } => {
            assert_eq!(m_value(&public_metadata.attributes, "LVL"), Some(m_text("10")));
            assert_eq!(m_value(&public_metadata.attributes, "XP"), Some(m_text("1500")));
        }
        other => panic!("unexpected request {:?}", other),
    }
    assert!(response.attributes.is_empty());
}

#[test]
fn merge_below_the_cap_follows_the_table_down() {
    let mut ledger = m_ledger(m_table(&[(8, 100_000)]), vec![("M1", 3)], false);
    // the leader claims level 9; the table gives 7 for 1500
    let registry = m_registry(vec![("W1", m_leader("1000", "9")), ("M1", m_member("M1", "500"))]);
    let response = m_merge(&mut ledger, &registry, &["W1", "M1"]).unwrap();
    match &response.messages[1] {
        Command::SetMetadata { public_metadata, .. } => {
            assert_eq!(m_value(&public_metadata.attributes, "LVL"), Some(m_text("7")));
        }
        other => panic!("unexpected request {:?}", other),
    }
    assert!(response.attributes.is_empty());
}

#[test]
fn merge_of_the_leader_alone_changes_no_list() {
    let mut ledger = m_ledger(m_table(&[(8, 100_000)]), vec![], false);
    let registry = m_registry(vec![("W1", m_leader("1000", "6"))]);
    let response = m_merge(&mut ledger, &registry, &["W1"]).unwrap();
    assert_eq!(
        response.messages[0],
        Command::BatchBurnNft { token_ids: vec![], contract: m_registry_contract() }
    );
    assert_eq!(ledger.pack_members.get(&m_text("W1")), None);
    assert_eq!(
        ledger.pack_mains.get(&m_text("W1")),
        Some(&PackMain { token_id: m_text("W1"), pack_rank: 0, pack_count: 0, name: m_text("Night Pack") })
    );
    assert_eq!(ledger.history.get(&m_text("alice")).unwrap().len(), 1);
    assert!(response.attributes.is_empty());
}

#[test]
fn merge_refuses_leader_without_pack_attribute() {
    let mut ledger = m_ledger(m_table(&[(8, 100_000)]), vec![("M1", 3)], false);
    let before = m_ledger(m_table(&[(8, 100_000)]), vec![("M1", 3)], false);
    let mut leader = m_leader("1000", "6");
    leader.public_metadata.as_mut().unwrap().attributes.remove(3);
    let registry = m_registry(vec![("W1", leader), ("M1", m_member("M1", "500"))]);
    assert_eq!(m_merge(&mut ledger, &registry, &["W1", "M1"]), Err(ContractError::MalformedMetadata));
    assert_eq!(ledger, before);
    // with the attribute the same merge counts its member
    let registry = m_registry(vec![("W1", m_leader("1000", "6")), ("M1", m_member("M1", "500"))]);
    m_merge(&mut ledger, &registry, &["W1", "M1"]).unwrap();
    let row = ledger.pack_mains.get(&m_text("W1")).unwrap();
    assert_eq!((row.pack_count, row.pack_rank), (1, 97));
}

#[test]
fn merge_twice_extends_list_and_history() {
    let mut ledger = m_ledger(m_table(&[(8, 100_000)]), vec![("M1", 3), ("M2", 10)], false);
    let registry = m_registry(vec![("W1", m_leader("1000", "5")), ("M1", m_member("M1", "500"))]);
    m_merge(&mut ledger, &registry, &["W1", "M1"]).unwrap();
    // the registry now shows the leader as the first merge left it
    let mut leader = m_leader("1500", "7");
    {
        let public = leader.public_metadata.as_mut().unwrap();
        public.attributes[3].value = m_text("1");
        public.attributes.push(m_attr("Pack Rank", "97"));
        public.media.push(m_media("M1.png"));
    }
    let registry = m_registry(vec![("W1", leader), ("M2", m_member("M2", "700"))]);
    m_merge(&mut ledger, &registry, &["M2", "W1"]).unwrap();
    let row = ledger.pack_mains.get(&m_text("W1")).unwrap();
    assert_eq!((row.pack_count, row.pack_rank), (2, 97 + 90));
    let ids: Vec<String> = ledger.pack_members.get(&m_text("W1")).unwrap().iter().map(|m| m.token_id.clone()).collect();
    assert_eq!(ids, vec![m_text("M1"), m_text("M2")]);
    let history = ledger.history.get(&m_text("alice")).unwrap();
    assert_eq!(history.len(), 2);
    assert_eq!(history[0].pack_member_token_ids, vec![m_text("M1")]);
    assert_eq!(history[1].pack_member_token_ids, vec![m_text("M2")]);
    assert_eq!(ledger.pack_mains.len(), 1);
    assert_eq!(ledger.config.total_burned, 2);
}

fn m_refusal(ledger: &mut Ledger, registry: &Keymap<NftDossier>, sender: &str, ids: &[&str]) -> ContractError {
    let before_burned = ledger.config.total_burned;
    let result = join_pack(
        &m_env(),
        ledger,
        registry,
        &m_text(sender),
        &m_text("alice"),
        ids.iter().map(|s| m_text(s)).collect(),
        m_build("Night Pack"),
    );
    assert_eq!(ledger.config.total_burned, before_burned);
    assert!(ledger.pack_mains.len() == 0 && ledger.history.len() == 0 && ledger.pack_members.len() == 0);
    result.unwrap_err()
}

#[test]
fn merge_refusals_in_order() {
    let registry = m_registry(vec![
        ("W1", m_leader("1000", "5")),
        ("M1", m_member("M1", "500")),
        ("M2", m_member("M2", "463")),
        ("N1", m_member("N1", "500")),
    ]);
    // payment comes first
    let mut paid = m_ledger(m_table(&[(8, 100_000)]), vec![("M1", 3)], true);
    assert_eq!(m_refusal(&mut paid, &registry, "stranger", &["M1"]), ContractError::PaymentNotReceived);
    let mut ledger = m_ledger(m_table(&[(8, 100_000)]), vec![("M1", 3), ("M2", 4)], false);
    // then the leader among the tokens
    assert_eq!(m_refusal(&mut ledger, &registry, "stranger", &["M1"]), ContractError::MainTokenNotInList);
    // then the caller
    assert_eq!(m_refusal(&mut ledger, &registry, "stranger", &["W1", "N1"]), ContractError::NotRegistryCaller);
    assert_eq!(ContractError::NotRegistryCaller.kind(), ErrorKind::Unauthorized);
    // then the ranks
    assert_eq!(m_refusal(&mut ledger, &registry, "registry", &["W1", "M2", "N1"]), ContractError::UnknownRank);
    assert_eq!(ContractError::UnknownRank.kind(), ErrorKind::NotFound);
    // then the experience
    assert_eq!(m_refusal(&mut ledger, &registry, "registry", &["W1", "M1", "M2"]), ContractError::ExperienceTooLow);
    assert_eq!(MIN_MEMBER_XP, 464);
}

#[test]
fn merge_refuses_leader_without_alpha() {
    let mut ledger = m_ledger(m_table(&[(8, 100_000)]), vec![("M1", 3)], false);
    let registry = m_registry(vec![("W1", m_member("W1", "1000")), ("M1", m_member("M1", "500"))]);
    assert_eq!(m_refusal(&mut ledger, &registry, "registry", &["W1", "M1"]), ContractError::LeaderNotAlpha);
    assert_eq!(ContractError::LeaderNotAlpha.kind(), ErrorKind::PreconditionViolation);
}

#[test]
fn merge_refuses_missing_metadata() {
    let mut ledger = m_ledger(m_table(&[(8, 100_000)]), vec![("M1", 3)], false);
    let registry = m_registry(vec![("W1", m_leader("1000", "5"))]);
    assert_eq!(m_refusal(&mut ledger, &registry, "registry", &["W1", "M1"]), ContractError::MetadataMissing);
    let mut hidden = m_member("M1", "500");
    hidden.private_metadata = None;
    let registry = m_registry(vec![("W1", m_leader("1000", "5")), ("M1", hidden)]);
    assert_eq!(m_refusal(&mut ledger, &registry, "registry", &["W1", "M1"]), ContractError::MetadataMissing);
    assert_eq!(ContractError::MetadataMissing.kind(), ErrorKind::NotFound);
}

#[test]
fn merge_refuses_malformed_metadata() {
    let mut ledger = m_ledger(m_table(&[(8, 100_000)]), vec![("M1", 3)], false);
    // experience that is no number
    let registry = m_registry(vec![("W1", m_leader("1000", "5")), ("M1", m_member("M1", "5 00"))]);
    assert_eq!(m_refusal(&mut ledger, &registry, "registry", &["W1", "M1"]), ContractError::MalformedMetadata);
    // a member without media
    let mut bare = m_member("M1", "500");
    bare.public_metadata.as_mut().unwrap().media.clear();
    let registry = m_registry(vec![("W1", m_leader("1000", "5")), ("M1", bare)]);
    assert_eq!(m_refusal(&mut ledger, &registry, "registry", &["W1", "M1"]), ContractError::MalformedMetadata);
    // a leader whose level is no number
    let registry = m_registry(vec![("W1", m_leader("1000", "five")), ("M1", m_member("M1", "500"))]);
    assert_eq!(m_refusal(&mut ledger, &registry, "registry", &["W1", "M1"]), ContractError::MalformedMetadata);
    assert_eq!(ContractError::MalformedMetadata.kind(), ErrorKind::MalformedInput);
}

#[test]
fn merge_refuses_overflow() {
    let mut ledger = m_ledger(m_table(&[(8, 100_000)]), vec![("M1", 3)], false);
    let registry = m_registry(vec![("W1", m_leader("4294967000", "5")), ("M1", m_member("M1", "500"))]);
    assert_eq!(m_refusal(&mut ledger, &registry, "registry", &["W1", "M1"]), ContractError::ArithmeticOverflow);
    let mut full = m_leader("1000", "5");
    full.public_metadata.as_mut().unwrap().attributes[3].value = m_text("65535");
    let registry = m_registry(vec![("W1", full), ("M1", m_member("M1", "500"))]);
    assert_eq!(m_refusal(&mut ledger, &registry, "registry", &["W1", "M1"]), ContractError::ArithmeticOverflow);
    assert_eq!(ContractError::ArithmeticOverflow.kind(), ErrorKind::MalformedInput);
}

#[test]
fn merge_reads_numbers_with_plus_sign() {
    let mut ledger = m_ledger(m_table(&[(8, 100_000)]), vec![("M1", 3)], false);
    let registry = m_registry(vec![("W1", m_leader("+1000", "05")), ("M1", m_member("M1", "0500"))]);
    let response = m_merge(&mut ledger, &registry, &["W1", "M1"]).unwrap();
    match &response.messages[1] {
        Command::SetMetadata { public_metadata, .. } => {
            assert_eq!(m_value(&public_metadata.attributes, "XP"), Some(m_text("1500")));
        }
        other => panic!("unexpected request {:?}", other),
    }
}
