//! The queries: reading the ledger, page by page where it is long.

use crate::error::ContractError;
use crate::merge::list_of;
use crate::metadata::{Trait, TraitModel};
use crate::msg::{
    BuildInfoResponse, BuildInfoResponseModel, HistoryToken, HistoryTokenModel, PackMain,
    PackMainModel, PackMember, PackMemberModel, Permit, QueryMsg, TokenPermissions,
};
use crate::state::{Ledger, LedgerModel};
use vstd::prelude::*;

verus! {

/// Where the page `start_page` of pages of `size` entries begins in a
/// sequence of `len` entries: at its first entry, or at the end of the
/// sequence where the page lies beyond it.
pub open spec fn page_from(len: nat, start_page: nat, size: nat) -> nat {
    if start_page * size < len {
        start_page * size
    } else {
        len
    }
}

/// Where that page ends: `size` entries on, or at the end of the sequence.
pub open spec fn page_to(len: nat, start_page: nat, size: nat) -> nat {
    if page_from(len, start_page, size) + size < len {
        page_from(len, start_page, size) + size
    } else {
        len
    }
}

/// The page `start_page` of `s`, in pages of `size` entries.
pub open spec fn page_of<T>(s: Seq<T>, start_page: nat, size: nat) -> Seq<T> {
    s.subrange(page_from(s.len(), start_page, size) as int, page_to(s.len(), start_page, size) as int)
}

/// The first `pages` pages of `s`, one after the other.
pub open spec fn pages_joined<T>(s: Seq<T>, pages: nat, size: nat) -> Seq<T>
    decreases pages,
{
    if pages == 0 {
        Seq::empty()
    } else {
        pages_joined(s, (pages - 1) as nat, size) + page_of(s, (pages - 1) as nat, size)
    }
}

/// The number of pages that `len` entries fill, the last one perhaps in
/// part.
pub open spec fn page_count(len: nat, size: nat) -> nat
    recommends
        size > 0,
{
    ((len + size - 1) / (size as int)) as nat
}

/// The bounds of a page.
pub fn page_bounds(len: usize, start_page: u32, page_size: u32) -> (r: (usize, usize))
    ensures
        r.0 == page_from(len as nat, start_page as nat, page_size as nat),
        r.1 == page_to(len as nat, start_page as nat, page_size as nat),
        r.0 <= r.1 <= len,
{
    assert(start_page * page_size <= 0xFFFF_FFFF * 0xFFFF_FFFF) by (nonlinear_arith)
        requires
            0 <= start_page <= 0xFFFF_FFFF,
            0 <= page_size <= 0xFFFF_FFFF,
    ;
    let start: u64 = start_page as u64 * page_size as u64;
    let from: usize = if start < len as u64 {
        start as usize
    } else {
        len
    };
    let to: usize = if (len - from) as u64 > page_size as u64 {
        from + page_size as usize
    } else {
        len
    };
    (from, to)
}

/// The first `pages` pages of a sequence are its first entries, as many as
/// the pages hold.
pub proof fn lemma_pages_joined<T>(s: Seq<T>, pages: nat, size: nat)
    ensures
        pages_joined(s, pages, size) == s.take(page_from(s.len(), pages, size) as int),
    decreases pages,
{
    if pages == 0 {
        assert(page_from(s.len(), 0, size) == 0) by (nonlinear_arith);
        assert(s.take(0) =~= Seq::<T>::empty());
    } else {
        let k = (pages - 1) as nat;
        lemma_pages_joined(s, k, size);
        assert(pages * size == k * size + size) by (nonlinear_arith)
            requires
                pages == k + 1,
        ;
        assert(page_to(s.len(), k, size) == page_from(s.len(), pages, size));
        assert(pages_joined(s, pages, size) =~= s.take(page_from(s.len(), pages, size) as int));
    }
}

/// Paging covers every entry once: with pages of `size` entries, `size`
/// not zero, the pages that the sequence fills, one after the other, are
/// the sequence itself; each of them holds an entry and none holds more
/// than `size`; and every page after them is empty.
pub proof fn lemma_paging_covers<T>(s: Seq<T>, size: nat)
    requires
        size > 0,
    ensures
        pages_joined(s, page_count(s.len(), size), size) == s,
        forall|k: nat|
            k < page_count(s.len(), size) ==> 0 < (#[trigger] page_of(s, k, size)).len() <= size,
        forall|k: nat|
            k >= page_count(s.len(), size) ==> (#[trigger] page_of(s, k, size)).len() == 0,
{
    let n = s.len();
    let c = page_count(n, size);
    assert(c * size >= n && (c > 0 ==> (c - 1) * size < n)) by (nonlinear_arith)
        requires
            size > 0,
            c == (n + size - 1) / (size as int),
            n >= 0,
    ;
    lemma_pages_joined(s, c, size);
    assert(s.take(n as int) =~= s);
    assert forall|k: nat| k < c implies 0 < (#[trigger] page_of(s, k, size)).len() <= size by {
        assert(k * size <= (c - 1) * size) by (nonlinear_arith)
            requires
                k <= c - 1,
                size > 0,
        ;
    }
    assert forall|k: nat| k >= c implies (#[trigger] page_of(s, k, size)).len() == 0 by {
        assert(k * size >= c * size) by (nonlinear_arith)
            requires
                k >= c,
                size > 0,
        ;
    }
}

/// Every entry stands on the page that its index names, at the place that
/// its index names.
pub proof fn lemma_entry_on_its_page<T>(s: Seq<T>, size: nat, i: int)
    requires
        size > 0,
        0 <= i < s.len(),
    ensures
        (i % (size as int)) < page_of(s, (i / (size as int)) as nat, size).len(),
        page_of(s, (i / (size as int)) as nat, size)[i % (size as int)] == s[i],
{
    let k = i / (size as int);
    let r = i % (size as int);
    assert(i == k * size + r && 0 <= r < size && k >= 0) by (nonlinear_arith)
        requires
            size > 0,
            i >= 0,
            k == i / (size as int),
            r == i % (size as int),
    ;
}

/// The account that a permit speaks for, where the permit holds good and
/// grants owner permission.
pub open spec fn querier(permit: &Permit) -> Result<Seq<char>, ContractError> {
    match permit.signer {
        None => Err(ContractError::PermitRejected),
        Some(account) => if permit.permissions@.contains(TokenPermissions::Owner) {
            Ok(account@)
        } else {
            Err(ContractError::OwnerPermissionRequired)
        },
    }
}

/// Tells which account a permit speaks for.
///
/// Fails where the permit did not hold good, and where it does not grant
/// owner permission.
pub fn get_querier(permit: &Permit) -> (r: Result<String, ContractError>)
    ensures
        match querier(permit) {
            Ok(account) => r is Ok && r.unwrap()@ == account,
            Err(e) => r == Err::<String, ContractError>(e),
        },
{
    let account = match &permit.signer {
        Some(account) => account,
        None => {
            return Err(ContractError::PermitRejected);
        },
    };
    let mut i: usize = 0;
    while i < permit.permissions.len()
        invariant
            i <= permit.permissions.len(),
            permit.signer == Some(*account),
            forall|j: int| 0 <= j < i ==> permit.permissions@[j] != TokenPermissions::Owner,
        decreases permit.permissions.len() - i,
    {
        if permit.permissions[i] == TokenPermissions::Owner {
            assert(permit.permissions@.contains(permit.permissions@[i as int]));
            return Ok(account.clone());
        }
        i = i + 1;
    }
    Err(ContractError::OwnerPermissionRequired)
}

/// What the build-info query answers.
pub open spec fn build_info(ledger: LedgerModel) -> BuildInfoResponseModel {
    BuildInfoResponseModel {
        pack_max: ledger.config.pack_max,
        total_burned: ledger.config.total_burned,
        valid_payments: ledger.config.valid_payments,
    }
}

/// The largest pack, the number of tokens retired, and the payment
/// contracts accepted.
pub fn query_pack_build_info(ledger: &Ledger) -> (r: BuildInfoResponse)
    ensures
        r@ == build_info(ledger@),
{
    let valid_payments = match &ledger.config.valid_payments {
        Some(list) => {
            let copy = list.clone();
            assert(copy.deep_view() =~= list.deep_view());
            Some(copy)
        },
        None => None,
    };
    BuildInfoResponse {
        pack_max: ledger.config.pack_max,
        total_burned: ledger.config.total_burned,
        valid_payments: valid_payments,
    }
}

/// The number `n` as a count of 32 bits.
fn as_count(n: usize) -> (r: Result<u32, ContractError>)
    ensures
        r == if n <= u32::MAX {
            Ok::<u32, ContractError>(n as u32)
        } else {
            Err::<u32, ContractError>(ContractError::ArithmeticOverflow)
        },
{
    if n <= 0xFFFF_FFFF {
        Ok(n as u32)
    } else {
        Err(ContractError::ArithmeticOverflow)
    }
}

/// What the query for the length of an account's history answers.
pub open spec fn num_user_history(ledger: LedgerModel, permit: &Permit) -> Result<
    u32,
    ContractError,
> {
    match querier(permit) {
        Err(e) => Err(e),
        Ok(account) => if list_of(ledger.history, account).len() <= u32::MAX {
            Ok(list_of(ledger.history, account).len() as u32)
        } else {
            Err(ContractError::ArithmeticOverflow)
        },
    }
}

/// The number of entries in the history of the account that the permit
/// speaks for.
pub fn query_num_user_history(ledger: &Ledger, permit: &Permit) -> (r: Result<u32, ContractError>)
    requires
        ledger.wf(),
    ensures
        r == num_user_history(ledger@, permit),
{
    let account = match get_querier(permit) {
        Ok(account) => account,
        Err(e) => {
            return Err(e);
        },
    };
    match ledger.history.get(&account) {
        Some(entries) => as_count(entries.len()),
        None => Ok(0),
    }
}

/// What the query for a page of an account's history answers.
pub open spec fn user_history(
    ledger: LedgerModel,
    permit: &Permit,
    start_page: u32,
    page_size: u32,
) -> Result<Seq<HistoryTokenModel>, ContractError> {
    match querier(permit) {
        Err(e) => Err(e),
        Ok(account) => Ok(
            page_of(list_of(ledger.history, account), start_page as nat, page_size as nat),
        ),
    }
}

/// The page `start_page`, in pages of `page_size` entries, of the history
/// of the account that the permit speaks for, oldest entry first.
pub fn query_user_history(ledger: &Ledger, permit: &Permit, start_page: u32, page_size: u32) -> (r:
    Result<Vec<HistoryToken>, ContractError>)
    requires
        ledger.wf(),
    ensures
        match user_history(ledger@, permit, start_page, page_size) {
            Ok(page) => r is Ok && r.unwrap().deep_view() == page,
            Err(e) => r == Err::<Vec<HistoryToken>, ContractError>(e),
        },
{
    let account = match get_querier(permit) {
        Ok(account) => account,
        Err(e) => {
            return Err(e);
        },
    };
    let mut page: Vec<HistoryToken> = Vec::new();
    match ledger.history.get(&account) {
        Some(entries) => {
            let (from, to) = page_bounds(entries.len(), start_page, page_size);
            let mut i: usize = from;
            while i < to
                invariant
                    from <= i <= to <= entries.len(),
                    page.deep_view() == entries.deep_view().subrange(from as int, i as int),
                decreases to - i,
            {
                let ghost previous = page.deep_view();
                let entry = entries[i].clone();
                assert(entries.deep_view()[i as int] == entries[i as int]@);
                page.push(entry);
                assert(page.deep_view() =~= previous.push(entry@));
                assert(page.deep_view() =~= entries.deep_view().subrange(from as int, i + 1));
                i = i + 1;
            }
        },
        None => {
            assert(page.deep_view() =~= page_of(
                Seq::<HistoryTokenModel>::empty(),
                start_page as nat,
                page_size as nat,
            ));
        },
    }
    Ok(page)
}

/// What the query for the number of packs answers.
pub open spec fn num_packs(ledger: LedgerModel) -> Result<u32, ContractError> {
    if ledger.pack_mains.len() <= u32::MAX {
        Ok(ledger.pack_mains.len() as u32)
    } else {
        Err(ContractError::ArithmeticOverflow)
    }
}

/// The number of rows on the leaderboard.
pub fn query_num_packs(ledger: &Ledger) -> (r: Result<u32, ContractError>)
    ensures
        r == num_packs(ledger@),
{
    as_count(ledger.pack_mains.len())
}

/// What the query for a page of the leaderboard answers: the page, rows
/// in the order in which their leaders first appeared. A page that starts
/// beyond the end of a leaderboard with rows is refused.
pub open spec fn packs(ledger: LedgerModel, start_page: u32, page_size: u32) -> Result<
    Seq<PackMainModel>,
    ContractError,
> {
    let rows = ledger.pack_mains.values;
    if rows.len() > 0 && start_page * page_size > rows.len() {
        Err(ContractError::OutOfBounds)
    } else {
        Ok(page_of(rows, start_page as nat, page_size as nat))
    }
}

/// The page `start_page` of the leaderboard, in pages of `page_size` rows.
pub fn query_packs(ledger: &Ledger, start_page: u32, page_size: u32) -> (r: Result<
    Vec<PackMain>,
    ContractError,
>)
    requires
        ledger.wf(),
    ensures
        match packs(ledger@, start_page, page_size) {
            Ok(page) => r is Ok && r.unwrap().deep_view() == page,
            Err(e) => r == Err::<Vec<PackMain>, ContractError>(e),
        },
{
    let rows = &ledger.pack_mains.values;
    assert(start_page * page_size <= 0xFFFF_FFFF * 0xFFFF_FFFF) by (nonlinear_arith)
        requires
            0 <= start_page <= 0xFFFF_FFFF,
            0 <= page_size <= 0xFFFF_FFFF,
    ;
    if rows.len() > 0 && start_page as u64 * page_size as u64 > rows.len() as u64 {
        return Err(ContractError::OutOfBounds);
    }
    let (from, to) = page_bounds(rows.len(), start_page, page_size);
    let mut page: Vec<PackMain> = Vec::new();
    let mut i: usize = from;
    while i < to
        invariant
            from <= i <= to <= rows.len(),
            page.deep_view() == rows.deep_view().subrange(from as int, i as int),
        decreases to - i,
    {
        let ghost previous = page.deep_view();
        let row = rows[i].clone();
        assert(rows.deep_view()[i as int] == rows[i as int]@);
        page.push(row);
        assert(page.deep_view() =~= previous.push(row@));
        assert(page.deep_view() =~= rows.deep_view().subrange(from as int, i + 1));
        i = i + 1;
    }
    Ok(page)
}

/// The members of the leader `main_token_id`, in the order in which they
/// joined; none where the leader is unknown.
pub fn query_pack_members(ledger: &Ledger, main_token_id: &String) -> (r: Vec<PackMember>)
    requires
        ledger.wf(),
    ensures
        r.deep_view() == list_of(ledger@.pack_members, main_token_id@),
{
    match ledger.pack_members.get(main_token_id) {
        Some(list) => {
            let copy = list.clone();
            assert(copy.deep_view() =~= list.deep_view());
            copy
        },
        None => {
            let empty: Vec<PackMember> = Vec::new();
            assert(empty.deep_view() =~= Seq::<PackMemberModel>::empty());
            empty
        },
    }
}

/// The attributes of all the members of a list, member after member.
pub open spec fn all_attributes(list: Seq<PackMemberModel>) -> Seq<TraitModel>
    decreases list.len(),
{
    if list.len() == 0 {
        Seq::empty()
    } else {
        all_attributes(list.drop_last()) + list.last().attributes
    }
}

/// The elements of `s`, each once, in the order in which they first occur.
pub open spec fn distinct<T>(s: Seq<T>) -> Seq<T>
    decreases s.len(),
{
    if s.len() == 0 {
        Seq::empty()
    } else if distinct(s.drop_last()).contains(s.last()) {
        distinct(s.drop_last())
    } else {
        distinct(s.drop_last()).push(s.last())
    }
}

/// `distinct` keeps every element and repeats none.
pub proof fn lemma_distinct<T>(s: Seq<T>)
    ensures
        distinct(s).no_duplicates(),
        forall|x: T| #[trigger] distinct(s).contains(x) ==> s.contains(x),
        forall|x: T| #[trigger] s.contains(x) ==> distinct(s).contains(x),
    decreases s.len(),
{
    if s.len() > 0 {
        let head = s.drop_last();
        let last = s.last();
        let d = distinct(head);
        let all = distinct(s);
        lemma_distinct(head);
        assert(s[s.len() - 1] == last);
        assert forall|j: int| 0 <= j < d.len() implies j < all.len() && all[j] == d[j] by {}
        assert forall|x: T| #[trigger] all.contains(x) implies s.contains(x) by {
            let j = choose|j: int| 0 <= j < all.len() && all[j] == x;
            if j < d.len() {
                assert(d[j] == x);
                assert(d.contains(x));
                assert(head.contains(x));
                let i = choose|i: int| 0 <= i < head.len() && head[i] == x;
                assert(s[i] == x);
            } else {
                assert(x == last);
            }
        }
        assert forall|x: T| #[trigger] s.contains(x) implies all.contains(x) by {
            let i = choose|i: int| 0 <= i < s.len() && s[i] == x;
            if i < head.len() {
                assert(head[i] == x);
                assert(head.contains(x));
                assert(d.contains(x));
                let j = choose|j: int| 0 <= j < d.len() && d[j] == x;
                assert(all[j] == x);
            } else {
                assert(x == last);
                if d.contains(last) {
                    assert(all == d);
                } else {
                    assert(all[d.len() as int] == last);
                }
            }
        }
        assert forall|a: int, b: int| 0 <= a < all.len() && 0 <= b < all.len() && a != b implies all[a]
            != all[b] by {
            if a < d.len() && b < d.len() {
                assert(d[a] != d[b]);
            } else if a < d.len() {
                assert(all[b] == last);
                assert(!d.contains(last));
                assert(d[a] != last);
            } else if b < d.len() {
                assert(all[a] == last);
                assert(!d.contains(last));
                assert(d[b] != last);
            }
        }
    }
}

/// `distinct` of a sequence with one more element at its end.
proof fn lemma_distinct_step<T>(s: Seq<T>, t: Seq<T>, i: int)
    requires
        0 <= i < t.len(),
    ensures
        distinct(s + t.take(i + 1)) == if distinct(s + t.take(i)).contains(t[i]) {
            distinct(s + t.take(i))
        } else {
            distinct(s + t.take(i)).push(t[i])
        },
{
    assert((s + t.take(i + 1)).drop_last() =~= s + t.take(i));
    assert((s + t.take(i + 1)).last() == t[i]);
}

/// Whether `attribute` is among `attributes`.
fn holds(attributes: &Vec<Trait>, attribute: &Trait) -> (r: bool)
    ensures
        r == attributes.deep_view().contains(attribute@),
{
    let mut i: usize = 0;
    while i < attributes.len()
        invariant
            i <= attributes.len(),
            forall|j: int| 0 <= j < i ==> attributes.deep_view()[j] != attribute@,
        decreases attributes.len() - i,
    {
        assert(attributes.deep_view()[i as int] == attributes[i as int]@);
        if attributes[i].same_as(attribute) {
            return true;
        }
        i = i + 1;
    }
    false
}

/// The attributes that the members of the leader `main_token_id` have,
/// each once, in the order in which they are first met; none where the
/// leader is unknown. Two attributes are the same where they agree in
/// name, value and display hints.
pub fn query_pack_member_traits(ledger: &Ledger, main_token_id: &String) -> (r: Vec<Trait>)
    requires
        ledger.wf(),
    ensures
        r.deep_view() == distinct(all_attributes(list_of(ledger@.pack_members, main_token_id@))),
{
    let mut found: Vec<Trait> = Vec::new();
    let list = match ledger.pack_members.get(main_token_id) {
        Some(list) => list,
        None => {
            assert(found.deep_view() =~= Seq::<TraitModel>::empty());
            return found;
        },
    };
    let ghost members = list.deep_view();
    assert(found.deep_view() =~= distinct(all_attributes(members.take(0))));
    let mut m: usize = 0;
    while m < list.len()
        invariant
            m <= list.len(),
            members == list.deep_view(),
            found.deep_view() == distinct(all_attributes(members.take(m as int))),
        decreases list.len() - m,
    {
        let attributes = &list[m].attributes;
        let ghost seen = all_attributes(members.take(m as int));
        let ghost own = attributes.deep_view();
        proof {
            assert(members[m as int] == list[m as int]@);
            assert(members.take(m + 1).drop_last() =~= members.take(m as int));
            assert(members.take(m + 1).last() == members[m as int]);
            assert(seen + own.take(0) =~= seen);
        }
        let mut a: usize = 0;
        while a < attributes.len()
            invariant
                a <= attributes.len(),
                own == attributes.deep_view(),
                found.deep_view() == distinct(seen + own.take(a as int)),
            decreases attributes.len() - a,
        {
            proof {
                lemma_distinct_step(seen, own, a as int);
                assert(own[a as int] == attributes[a as int]@);
            }
            if !holds(&found, &attributes[a]) {
                let ghost previous = found.deep_view();
                let copy = attributes[a].clone();
                found.push(copy);
                assert(found.deep_view() =~= previous.push(copy@));
            }
            a = a + 1;
        }
        proof {
            assert(own.take(a as int) =~= own);
            assert(all_attributes(members.take(m + 1)) == seen + own);
        }
        m = m + 1;
    }
    assert(members.take(m as int) =~= members);
    found
}

/// The answer to a query.
#[derive(Debug, PartialEq, Eq)]
pub enum QueryAnswer {
    PackBuildInfo(BuildInfoResponse),
    NumUserHistory(u32),
    UserHistory(Vec<HistoryToken>),
    NumPacks(u32),
    Packs(Vec<PackMain>),
    PackMembers(Vec<PackMember>),
    PackMembersTraits(Vec<Trait>),
}

/// What a [`QueryAnswer`] holds.
#[verifier::ext_equal]
pub enum QueryAnswerModel {
    PackBuildInfo(BuildInfoResponseModel),
    NumUserHistory(u32),
    UserHistory(Seq<HistoryTokenModel>),
    NumPacks(u32),
    Packs(Seq<PackMainModel>),
    PackMembers(Seq<PackMemberModel>),
    PackMembersTraits(Seq<TraitModel>),
}

impl View for QueryAnswer {
    type V = QueryAnswerModel;

    open spec fn view(&self) -> QueryAnswerModel {
        match self {
            QueryAnswer::PackBuildInfo(info) => QueryAnswerModel::PackBuildInfo(info@),
            QueryAnswer::NumUserHistory(n) => QueryAnswerModel::NumUserHistory(*n),
            QueryAnswer::UserHistory(page) => QueryAnswerModel::UserHistory(page.deep_view()),
            QueryAnswer::NumPacks(n) => QueryAnswerModel::NumPacks(*n),
            QueryAnswer::Packs(page) => QueryAnswerModel::Packs(page.deep_view()),
            QueryAnswer::PackMembers(list) => QueryAnswerModel::PackMembers(list.deep_view()),
            QueryAnswer::PackMembersTraits(list) => QueryAnswerModel::PackMembersTraits(
                list.deep_view(),
            ),
        }
    }
}

/// What a query answers.
pub open spec fn answer(ledger: LedgerModel, msg: &QueryMsg) -> Result<
    QueryAnswerModel,
    ContractError,
> {
    match msg {
        QueryMsg::GetPackBuildInfo {  } => Ok(QueryAnswerModel::PackBuildInfo(build_info(ledger))),
        QueryMsg::GetNumUserHistory { permit } => match num_user_history(ledger, permit) {
            Ok(n) => Ok(QueryAnswerModel::NumUserHistory(n)),
            Err(e) => Err(e),
        },
        QueryMsg::GetUserHistory { permit, start_page, page_size } => match user_history(
            ledger,
            permit,
            *start_page,
            *page_size,
        ) {
            Ok(page) => Ok(QueryAnswerModel::UserHistory(page)),
            Err(e) => Err(e),
        },
        QueryMsg::GetNumPacks {  } => match num_packs(ledger) {
            Ok(n) => Ok(QueryAnswerModel::NumPacks(n)),
            Err(e) => Err(e),
        },
        QueryMsg::GetPacks { start_page, page_size } => match packs(
            ledger,
            *start_page,
            *page_size,
        ) {
            Ok(page) => Ok(QueryAnswerModel::Packs(page)),
            Err(e) => Err(e),
        },
        QueryMsg::GetPackMembers { main_token_id } => Ok(
            QueryAnswerModel::PackMembers(list_of(ledger.pack_members, main_token_id@)),
        ),
        QueryMsg::GetPackMembersTraits { main_token_id } => Ok(
            QueryAnswerModel::PackMembersTraits(
                distinct(all_attributes(list_of(ledger.pack_members, main_token_id@))),
            ),
        ),
    }
}

/// Answers the query `msg` from the ledger. No query changes the ledger.
pub fn query(ledger: &Ledger, msg: QueryMsg) -> (r: Result<QueryAnswer, ContractError>)
    requires
        ledger.wf(),
    ensures
        match answer(ledger@, &msg) {
            Ok(a) => r is Ok && r.unwrap()@ == a,
            Err(e) => r == Err::<QueryAnswer, ContractError>(e),
        },
{
    match msg {
        QueryMsg::GetPackBuildInfo {  } => Ok(
            QueryAnswer::PackBuildInfo(query_pack_build_info(ledger)),
        ),
        QueryMsg::GetNumUserHistory { permit } => match query_num_user_history(ledger, &permit) {
            Ok(n) => Ok(QueryAnswer::NumUserHistory(n)),
            Err(e) => Err(e),
        },
        QueryMsg::GetUserHistory { permit, start_page, page_size } => match query_user_history(
            ledger,
            &permit,
            start_page,
            page_size,
        ) {
            Ok(page) => Ok(QueryAnswer::UserHistory(page)),
            Err(e) => Err(e),
        },
        QueryMsg::GetNumPacks {  } => match query_num_packs(ledger) {
            Ok(n) => Ok(QueryAnswer::NumPacks(n)),
            Err(e) => Err(e),
        },
        QueryMsg::GetPacks { start_page, page_size } => match query_packs(
            ledger,
            start_page,
            page_size,
        ) {
            Ok(page) => Ok(QueryAnswer::Packs(page)),
            Err(e) => Err(e),
        },
        QueryMsg::GetPackMembers { main_token_id } => Ok(
            QueryAnswer::PackMembers(query_pack_members(ledger, &main_token_id)),
        ),
        QueryMsg::GetPackMembersTraits { main_token_id } => Ok(
            QueryAnswer::PackMembersTraits(query_pack_member_traits(ledger, &main_token_id)),
        ),
    }
}

} // verus!
