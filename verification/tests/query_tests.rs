use pack_builder::decimal::{format_decimal, parse_bounded};
use pack_builder::error::{ContractError, ErrorKind};
use pack_builder::keymap::Keymap;
use pack_builder::metadata::{carries, find_trait, read_number, write_number, Trait};
use pack_builder::msg::{
    BuildInfoResponse, ContractInfo, HistoryToken, Level, PackMain, PackMember,
    PaymentContractInfo, Permit, QueryMsg, TokenPermissions,
};
use pack_builder::progression::{level_for, recompute_level};
use pack_builder::query::{
    get_querier, page_bounds, query, query_num_packs, query_num_user_history,
    query_pack_build_info, query_pack_member_traits, query_pack_members, query_packs,
    query_user_history, QueryAnswer,
};
use pack_builder::seqs::{all_distinct, position_of};
use pack_builder::state::{Ledger, State};

fn q_text(s: &str) -> String {
    s.to_string()
}

fn q_attr(name: &str, value: &str) -> Trait {
    Trait { display_type: None, trait_type: Some(q_text(name)), value: q_text(value), max_value: None }
}

fn q_entry(leader: &str, n: u64) -> HistoryToken {
    HistoryToken { wolf_main_token_id: q_text(leader), pack_member_token_ids: vec![format!("M{}", n)], pack_build_date: Some(n) }
}

fn q_ledger() -> Ledger {
    let mut ledger = Ledger {
        config: State {
            owner: q_text("admin"),
            nft_contract: ContractInfo { code_hash: q_text("h"), address: q_text("registry") },
            is_payment_needed: false,
            valid_payments: Some(vec![PaymentContractInfo {
                code_hash: q_text("ph"),
                address: q_text("pa"),
                payment_needed: 9,
                name: q_text("shd"),
            }]),
            viewing_key: Some(q_text("key")),
            receiving_address: q_text("treasury"),
            total_burned: 21,
            pack_max: 10,
            collection_size: 100,
            level_cap: 10,
        },
        levels: vec![],
        paid_addresses: vec![],
        ranks: Keymap::new(),
        pack_members: Keymap::new(),
        pack_mains: Keymap::new(),
        history: Keymap::new(),
        revoked_permits: Keymap::new(),
    };
    for i in 0..7u32 {
        let id = format!("W{}", i);
        ledger.pack_mains.insert(id.clone(), PackMain { token_id: id.clone(), pack_rank: i * 10, pack_count: i as u16, name: format!("pack {}", i) });
    }
    ledger.history.insert(q_text("alice"), (0..5).map(|n| q_entry("W1", n)).collect());
    ledger.pack_members.insert(
        q_text("W1"),
        vec![
            PackMember { token_id: q_text("M1"), rank: 3, attributes: vec![q_attr("Fur", "grey"), q_attr("Eyes", "blue"), q_attr("XP", "500")] },
            PackMember { token_id: q_text("M2"), rank: 4, attributes: vec![q_attr("Eyes", "blue"), q_attr("Fur", "black"), q_attr("Fur", "grey")] },
            PackMember {
                token_id: q_text("M3"),
                rank: 5,
                attributes: vec![
                    Trait { display_type: Some(q_text("number")), trait_type: Some(q_text("XP")), value: q_text("500"), max_value: None },
                    q_attr("XP", "500"),
                ],
            },
        ],
    );
    assert!(ledger.is_well_formed());
    ledger
}

fn q_permit(signer: Option<&str>, permissions: Vec<TokenPermissions>) -> Permit {
    Permit { permit_name: q_text("p"), permissions, signer: signer.map(q_text) }
}

fn q_owner() -> Permit {
    q_permit(Some("alice"), vec![TokenPermissions::Balance, TokenPermissions::Owner])
}

#[test]
fn paging_covers_history_once() {
    let ledger = q_ledger();
    // five entries in pages of two: three pages
    let first = query_user_history(&ledger, &q_owner(), 0, 2).unwrap();
    let second = query_user_history(&ledger, &q_owner(), 1, 2).unwrap();
    let third = query_user_history(&ledger, &q_owner(), 2, 2).unwrap();
    let fourth = query_user_history(&ledger, &q_owner(), 3, 2).unwrap();
    assert_eq!(first, vec![q_entry("W1", 0), q_entry("W1", 1)]);
    assert_eq!(second, vec![q_entry("W1", 2), q_entry("W1", 3)]);
    assert_eq!(third, vec![q_entry("W1", 4)]);
    assert!(fourth.is_empty());
    let mut all = first;
    all.extend(second);
    all.extend(third);
    assert_eq!(&all, ledger.history.get(&q_text("alice")).unwrap());
    assert_eq!(query_num_user_history(&ledger, &q_owner()), Ok(5));
}

#[test]
fn paging_edge_cases() {
    let ledger = q_ledger();
    assert!(query_user_history(&ledger, &q_owner(), 0, 0).unwrap().is_empty());
    assert_eq!(query_user_history(&ledger, &q_owner(), 0, 100).unwrap().len(), 5);
    assert!(query_user_history(&ledger, &q_owner(), u32::MAX, u32::MAX).unwrap().is_empty());
    assert_eq!(page_bounds(5, 1, 2), (2, 4));
    assert_eq!(page_bounds(5, 2, 2), (4, 5));
    assert_eq!(page_bounds(5, 3, 2), (5, 5));
    assert_eq!(page_bounds(0, 0, 3), (0, 0));
    let stranger = q_permit(Some("bob"), vec![TokenPermissions::Owner]);
    assert!(query_user_history(&ledger, &stranger, 0, 10).unwrap().is_empty());
    assert_eq!(query_num_user_history(&ledger, &stranger), Ok(0));
}

#[test]
fn history_queries_need_owner_permit() {
    let ledger = q_ledger();
    let unsigned = q_permit(None, vec![TokenPermissions::Owner]);
    let weak = q_permit(Some("alice"), vec![TokenPermissions::History, TokenPermissions::Balance]);
    assert_eq!(get_querier(&q_owner()), Ok(q_text("alice")));
    assert_eq!(get_querier(&unsigned), Err(ContractError::PermitRejected));
    assert_eq!(get_querier(&weak), Err(ContractError::OwnerPermissionRequired));
    assert_eq!(query_num_user_history(&ledger, &weak), Err(ContractError::OwnerPermissionRequired));
    assert_eq!(query_user_history(&ledger, &unsigned, 0, 2), Err(ContractError::PermitRejected));
    assert_eq!(ContractError::PermitRejected.kind(), ErrorKind::Unauthorized);
    assert_eq!(ContractError::OwnerPermissionRequired.kind(), ErrorKind::Unauthorized);
}

#[test]
fn leaderboard_pages_in_insertion_order() {
    let ledger = q_ledger();
    assert_eq!(query_num_packs(&ledger), Ok(7));
    let names = |page: Vec<PackMain>| page.into_iter().map(|p| p.token_id).collect::<Vec<String>>();
    assert_eq!(names(query_packs(&ledger, 0, 3).unwrap()), vec!["W0", "W1", "W2"]);
    assert_eq!(names(query_packs(&ledger, 1, 3).unwrap()), vec!["W3", "W4", "W5"]);
    assert_eq!(names(query_packs(&ledger, 2, 3).unwrap()), vec!["W6"]);
    // a page that starts right at the end is empty, one beyond is refused
    assert!(query_packs(&ledger, 7, 1).unwrap().is_empty());
    assert_eq!(query_packs(&ledger, 8, 1), Err(ContractError::OutOfBounds));
    assert_eq!(query_packs(&ledger, 3, 3), Err(ContractError::OutOfBounds));
    assert_eq!(ContractError::OutOfBounds.kind(), ErrorKind::NotFound);
    let mut empty = q_ledger();
    empty.pack_mains = Keymap::new();
    assert_eq!(query_packs(&empty, 9, 9), Ok(vec![]));
}

#[test]
fn members_of_unknown_leader_are_none() {
    let ledger = q_ledger();
    assert!(query_pack_members(&ledger, &q_text("W9")).is_empty());
    assert!(query_pack_member_traits(&ledger, &q_text("W9")).is_empty());
    let members = query_pack_members(&ledger, &q_text("W1"));
    assert_eq!(members.iter().map(|m| m.token_id.as_str()).collect::<Vec<&str>>(), vec!["M1", "M2", "M3"]);
}

#[test]
fn member_traits_are_distinct_in_first_seen_order() {
    let ledger = q_ledger();
    assert_eq!(
        query_pack_member_traits(&ledger, &q_text("W1")),
        vec![
            q_attr("Fur", "grey"),
            q_attr("Eyes", "blue"),
            q_attr("XP", "500"),
            q_attr("Fur", "black"),
            Trait { display_type: Some(q_text("number")), trait_type: Some(q_text("XP")), value: q_text("500"), max_value: None },
        ]
    );
}

#[test]
fn build_info_reports_the_configuration() {
    let ledger = q_ledger();
    assert_eq!(
        query_pack_build_info(&ledger),
        BuildInfoResponse { pack_max: 10, total_burned: 21, valid_payments: ledger.config.valid_payments.clone() }
    );
}

#[test]
fn query_dispatches_each_message() {
    let ledger = q_ledger();
    assert_eq!(query(&ledger, QueryMsg::GetPackBuildInfo {}), Ok(QueryAnswer::PackBuildInfo(query_pack_build_info(&ledger))));
    assert_eq!(query(&ledger, QueryMsg::GetNumUserHistory { permit: q_owner() }), Ok(QueryAnswer::NumUserHistory(5)));
    assert_eq!(
        query(&ledger, QueryMsg::GetUserHistory { permit: q_owner(), start_page: 2, page_size: 2 }),
        Ok(QueryAnswer::UserHistory(vec![q_entry("W1", 4)]))
    );
    assert_eq!(query(&ledger, QueryMsg::GetNumPacks {}), Ok(QueryAnswer::NumPacks(7)));
    assert_eq!(query(&ledger, QueryMsg::GetPacks { start_page: 9, page_size: 1 }), Err(ContractError::OutOfBounds));
    assert_eq!(
        query(&ledger, QueryMsg::GetPackMembers { main_token_id: q_text("W1") }),
        Ok(QueryAnswer::PackMembers(query_pack_members(&ledger, &q_text("W1"))))
    );
    assert_eq!(
        query(&ledger, QueryMsg::GetPackMembersTraits { main_token_id: q_text("W0") }),
        Ok(QueryAnswer::PackMembersTraits(vec![]))
    );
    assert_eq!(
        query(&ledger, QueryMsg::GetUserHistory { permit: q_permit(None, vec![]), start_page: 0, page_size: 2 }),
        Err(ContractError::PermitRejected)
    );
}

#[test]
fn decimal_text_round_trip() {
    assert_eq!(format_decimal(0), "0");
    assert_eq!(format_decimal(7), "7");
    assert_eq!(format_decimal(1500), "1500");
    assert_eq!(format_decimal(4294967295), "4294967295");
    assert_eq!(format_decimal(u64::MAX), "18446744073709551615");
    assert_eq!(parse_bounded("1500", 65535), Some(1500));
    assert_eq!(parse_bounded("65535", 65535), Some(65535));
    assert_eq!(parse_bounded("65536", 65535), None);
    assert_eq!(parse_bounded("+12", 65535), Some(12));
    assert_eq!(parse_bounded("0012", 65535), Some(12));
    assert_eq!(parse_bounded("", 65535), None);
    assert_eq!(parse_bounded("+", 65535), None);
    assert_eq!(parse_bounded("-1", 65535), None);
    assert_eq!(parse_bounded("1 2", 65535), None);
    assert_eq!(parse_bounded("12a", 65535), None);
    assert_eq!(parse_bounded("99999999999999999999999999", u64::MAX), None);
    assert_eq!(parse_bounded("18446744073709551615", u64::MAX), Some(u64::MAX));
    for n in [0u64, 9, 10, 99, 100, 464, 65535, 4294967295] {
        assert_eq!(parse_bounded(&format_decimal(n), u64::MAX), Some(n));
        assert_eq!(format_decimal(n), n.to_string());
    }
}

#[test]
fn level_rule_takes_step_above() {
    let levels = vec![
        Level { level: 1, xp_needed: 0 },
        Level { level: 2, xp_needed: 100 },
        Level { level: 6, xp_needed: 1000 },
        Level { level: 7, xp_needed: 1500 },
    ];
    assert_eq!(level_for(&levels, 0), Some(1));
    assert_eq!(level_for(&levels, 99), Some(1));
    assert_eq!(level_for(&levels, 100), Some(5));
    assert_eq!(level_for(&levels, 999), Some(5));
    assert_eq!(level_for(&levels, 1000), Some(6));
    assert_eq!(level_for(&levels, 1499), Some(6));
    assert_eq!(level_for(&levels, 1500), None);
    assert_eq!(level_for(&vec![Level { level: 0, xp_needed: 5 }], 1), None);
    assert_eq!(recompute_level(&levels, 10, 5, 1499), Some(6));
    assert_eq!(recompute_level(&levels, 10, 10, 1499), Some(10));
    assert_eq!(recompute_level(&levels, 10, 12, 99999), Some(12));
    assert_eq!(recompute_level(&levels, 10, 9, 1499), Some(6));
    assert_eq!(recompute_level(&levels, 10, 9, 1500), None);
}

#[test]
fn keymap_upserts_in_place() {
    let mut map: Keymap<u16> = Keymap::new();
    assert_eq!(map.len(), 0);
    map.insert(q_text("a"), 1);
    map.insert(q_text("b"), 2);
    map.insert(q_text("a"), 3);
    assert_eq!(map.keys, vec![q_text("a"), q_text("b")]);
    assert_eq!(map.values, vec![3, 2]);
    assert_eq!(map.get(&q_text("a")), Some(&3));
    assert_eq!(map.get(&q_text("c")), None);
    assert_eq!(map.position(&q_text("b")), Some(1));
    assert!(map.is_well_formed());
    let broken = Keymap { keys: vec![q_text("a"), q_text("a")], values: vec![1u16, 2] };
    assert!(!broken.is_well_formed());
    let uneven = Keymap { keys: vec![q_text("a")], values: vec![1u16, 2] };
    assert!(!uneven.is_well_formed());
}

#[test]
fn ledger_check_finds_each_fault() {
    assert!(q_ledger().is_well_formed());
    let mut twice_paid = q_ledger();
    twice_paid.paid_addresses = vec![q_text("a"), q_text("b"), q_text("a")];
    assert!(!twice_paid.is_well_formed());
    let mut misplaced = q_ledger();
    misplaced.ranks.insert(q_text("M1"), 101);
    assert!(!misplaced.is_well_formed());
    let mut wrong_row = q_ledger();
    wrong_row.pack_mains.insert(q_text("W9"), PackMain { token_id: q_text("W8"), pack_rank: 0, pack_count: 0, name: q_text("") });
    assert!(!wrong_row.is_well_formed());
    let mut alpha_member = q_ledger();
    alpha_member.pack_members.insert(q_text("W2"), vec![PackMember { token_id: q_text("A"), rank: 1, attributes: vec![q_attr("Alpha", "yes")] }]);
    assert!(!alpha_member.is_well_formed());
    let mut unranked = q_ledger();
    unranked.pack_members.insert(q_text("W2"), vec![PackMember { token_id: q_text("A"), rank: 0, attributes: vec![] }]);
    assert!(!unranked.is_well_formed());
}

#[test]
fn attribute_helpers_use_first_of_a_name() {
    let mut attributes = vec![q_attr("Fur", "grey"), q_attr("XP", "12"), q_attr("XP", "99"), Trait { display_type: None, trait_type: None, value: q_text("x"), max_value: None }];
    assert_eq!(find_trait(&attributes, "XP"), Some(1));
    assert_eq!(find_trait(&attributes, "xp"), None);
    assert!(carries(&attributes, "Fur"));
    assert!(!carries(&attributes, "Alpha"));
    assert_eq!(read_number(&attributes, "XP", 100), Some(12));
    assert_eq!(read_number(&attributes, "XP", 11), None);
    assert_eq!(read_number(&attributes, "Fur", 100), None);
    write_number(&mut attributes, "XP", 500);
    write_number(&mut attributes, "Pack", 1);
    assert_eq!(attributes[1], q_attr("XP", "500"));
    assert_eq!(attributes[2], q_attr("XP", "99"));
    assert_eq!(attributes.len(), 4);
    assert_eq!(position_of(&vec![q_text("a"), q_text("b"), q_text("b")], &q_text("b")), Some(1));
    assert!(all_distinct(&vec![q_text("a"), q_text("b")]));
    assert!(!all_distinct(&vec![q_text("a"), q_text("b"), q_text("a")]));
}
