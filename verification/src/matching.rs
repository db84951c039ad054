//! Matching freshly pulled accounts to the accounts already stored.
//!
//! A source names each of its accounts by an identifier of its own, kept in
//! the account's external ids under the source's name. A pulled account is
//! the stored account that carries the same identifier; equality of the two
//! texts is the only test. A matched account keeps the stored identity and
//! the stored type, which the user may have set; everything else is taken
//! from the pull.

use vstd::prelude::*;
use vstd::string::*;
use crate::domain::{Account, AccountView};
use crate::text::clone_opt_text;

verus! {

/// The views of a list of accounts.
pub open spec fn account_views(s: Seq<Account>) -> Seq<AccountView> {
    s.map_values(|a: Account| a@)
}

/// The identifier a source gave an account, if the account has one.
pub open spec fn source_id(a: AccountView, source: Seq<char>) -> Option<Seq<char>> {
    if a.external_ids.contains_key(source) {
        Some(a.external_ids[source])
    } else {
        None
    }
}

/// Whether a pulled account and a stored account are the same account of
/// the source: both carry an identifier of the source, and the same one.
pub open spec fn same_source_account(
    pulled: AccountView,
    stored: AccountView,
    source: Seq<char>,
) -> bool {
    source_id(pulled, source) is Some && source_id(pulled, source) == source_id(stored, source)
}

/// The position of the first stored account, from position `from` on, that
/// is the pulled account.
pub open spec fn first_match_from(
    pulled: AccountView,
    stored: Seq<AccountView>,
    source: Seq<char>,
    from: int,
) -> Option<int>
    decreases stored.len() - from,
{
    if from < 0 || from >= stored.len() {
        None
    } else if same_source_account(pulled, stored[from], source) {
        Some(from)
    } else {
        first_match_from(pulled, stored, source, from + 1)
    }
}

/// The position of the first stored account that is the pulled account.
pub open spec fn first_match(
    pulled: AccountView,
    stored: Seq<AccountView>,
    source: Seq<char>,
) -> Option<int> {
    first_match_from(pulled, stored, source, 0)
}

/// Whether no stored account is the pulled account.
pub open spec fn is_new_account(
    pulled: AccountView,
    stored: Seq<AccountView>,
    source: Seq<char>,
) -> bool {
    first_match(pulled, stored, source) is None
}

/// The pulled account with the identity and the type of a stored one.
pub open spec fn adopt_identity(pulled: AccountView, stored: AccountView) -> AccountView {
    AccountView { id: stored.id, account_type: stored.account_type, ..pulled }
}

/// What is stored for a pulled account: the pull under the identity and
/// type of its first match, or the pull as it is where nothing matches.
pub open spec fn merge_account(
    pulled: AccountView,
    stored: Seq<AccountView>,
    source: Seq<char>,
) -> AccountView {
    match first_match(pulled, stored, source) {
        Some(j) => adopt_identity(pulled, stored[j]),
        None => pulled,
    }
}

/// The accounts to store for a list of pulled accounts, one for each.
pub open spec fn merge_accounts(
    pulled: Seq<AccountView>,
    stored: Seq<AccountView>,
    source: Seq<char>,
) -> Seq<AccountView> {
    pulled.map_values(|p: AccountView| merge_account(p, stored, source))
}

/// The pulled accounts that no stored account matches.
pub open spec fn new_accounts(
    pulled: Seq<AccountView>,
    stored: Seq<AccountView>,
    source: Seq<char>,
) -> Seq<AccountView> {
    pulled.filter(|p: AccountView| is_new_account(p, stored, source))
}

/// The new accounts that have no type yet.
pub open spec fn untyped_new_accounts(
    pulled: Seq<AccountView>,
    stored: Seq<AccountView>,
    source: Seq<char>,
) -> Seq<AccountView> {
    pulled.filter(|p: AccountView| is_new_account(p, stored, source) && p.account_type is None)
}

/// The outcome of matching one source's pull.
#[derive(Debug)]
pub struct AccountMatch {
    /// One account per pulled account, matched or new: what is to be stored.
    pub merged: Vec<Account>,
    /// The new accounts that still lack a type.
    pub untyped_new: Vec<Account>,
    /// How many pulled accounts were new.
    pub new_count: usize,
}

/// A first match is a match, and nothing before it is.
pub proof fn lemma_first_match_from(
    pulled: AccountView,
    stored: Seq<AccountView>,
    source: Seq<char>,
    from: int,
)
    requires
        0 <= from,
    ensures
        match first_match_from(pulled, stored, source, from) {
            Some(j) => from <= j < stored.len() && same_source_account(pulled, stored[j], source)
                && forall|k: int| from <= k < j ==> !same_source_account(pulled, #[trigger] stored[k], source),
            None => forall|k: int|
                from <= k < stored.len() ==> !same_source_account(pulled, #[trigger] stored[k], source),
        },
    decreases stored.len() - from,
{
    if from < stored.len() && !same_source_account(pulled, stored[from], source) {
        lemma_first_match_from(pulled, stored, source, from + 1);
    }
}

/// A matched account keeps its identity.
///
/// Where a pulled account matches a stored one, what is stored for it has
/// the stored account's identifier and the stored account's type, and
/// everything else as it was pulled: name, currency, balance, institution
/// and external ids. Where it matches none, it is stored as it was pulled.
pub proof fn lemma_match_keeps_identity(
    pulled: AccountView,
    stored: Seq<AccountView>,
    source: Seq<char>,
)
    ensures
        match first_match(pulled, stored, source) {
            Some(j) => {
                let merged = merge_account(pulled, stored, source);
                &&& 0 <= j < stored.len()
                &&& same_source_account(pulled, stored[j], source)
                &&& merged.id == stored[j].id
                &&& merged.account_type == stored[j].account_type
                &&& merged.name == pulled.name
                &&& merged.nickname == pulled.nickname
                &&& merged.currency == pulled.currency
                &&& merged.balance == pulled.balance
                &&& merged.institution_name == pulled.institution_name
                &&& merged.institution_url == pulled.institution_url
                &&& merged.institution_domain == pulled.institution_domain
                &&& merged.external_ids == pulled.external_ids
            },
            None => merge_account(pulled, stored, source) == pulled,
        },
{
    lemma_first_match_from(pulled, stored, source, 0);
}

/// An account keeps its identifier from its first sync on.
///
/// Let an account be new on a first sync and be stored as it was pulled.
/// When a later sync pulls an account with the same source identifier,
/// what is stored for it has the identifier the first sync gave, and the
/// type that is stored by then, whatever the later pull says of either.
pub proof fn lemma_second_sync_keeps_identity(
    first: AccountView,
    later: AccountView,
    stored: Seq<AccountView>,
    typed: AccountView,
    source: Seq<char>,
)
    requires
        source_id(first, source) is Some,
        source_id(later, source) == source_id(first, source),
        is_new_account(first, stored, source),
        typed.id == first.id,
        typed.external_ids == first.external_ids,
    ensures
        merge_account(later, stored.push(typed), source).id == first.id,
        merge_account(later, stored.push(typed), source).account_type == typed.account_type,
        merge_account(later, stored.push(typed), source).name == later.name,
        merge_account(later, stored.push(typed), source).balance == later.balance,
{
    let after = stored.push(typed);
    lemma_first_match_from(first, stored, source, 0);
    lemma_first_match_from(later, after, source, 0);
    let n = stored.len() as int;
    assert(after[n] == typed);
    assert(same_source_account(later, after[n], source));
    assert forall|k: int| 0 <= k < n implies !same_source_account(
        later,
        #[trigger] after[k],
        source,
    ) by {
        assert(after[k] == stored[k]);
        assert(!same_source_account(first, stored[k], source));
    }
    assert(first_match(later, after, source) == Some(n));
}

/// The identifier the source gave an account.
fn source_id_of<'a>(account: &'a Account, source: &str) -> (r: Option<&'a String>)
    ensures
        match r {
            Some(v) => source_id(account@, source@) == Some(v@),
            None => source_id(account@, source@) is None,
        },
{
    account.external_ids.get(source)
}

/// Finds the first stored account that is the pulled account.
pub fn find_match(pulled: &Account, stored: &Vec<Account>, source: &str) -> (r: Option<usize>)
    ensures
        match r {
            Some(j) => first_match(pulled@, account_views(stored@), source@) == Some(j as int),
            None => first_match(pulled@, account_views(stored@), source@) is None,
        },
        r matches Some(j) ==> j < stored@.len(),
{
    let ghost views = account_views(stored@);
    let wanted = match source_id_of(pulled, source) {
        Some(w) => w,
        None => {
            proof {
                lemma_first_match_from(pulled@, views, source@, 0);
            }
            return None;
        },
    };
    let mut j: usize = 0;
    while j < stored.len()
        invariant
            j <= stored@.len(),
            views == account_views(stored@),
            source_id(pulled@, source@) == Some(wanted@),
            first_match(pulled@, views, source@) == first_match_from(
                pulled@,
                views,
                source@,
                j as int,
            ),
        decreases stored@.len() - j,
    {
        let hit: bool = match source_id_of(&stored[j], source) {
            Some(have) => *have == *wanted,
            None => false,
        };
        assert(views[j as int] == stored@[j as int]@);
        assert(hit == same_source_account(pulled@, views[j as int], source@));
        if hit {
            return Some(j);
        }
        j += 1;
    }
    None
}

/// The pulled account under the identity and type of the stored one.
fn adopt(pulled: &Account, stored: &Account) -> (r: Account)
    ensures
        r@ == adopt_identity(pulled@, stored@),
{
    let mut merged = pulled.clone();
    merged.id = stored.id;
    merged.account_type = clone_opt_text(&stored.account_type);
    merged
}

/// Matches the accounts pulled from a source to the stored accounts.
///
/// Every pulled account yields one account to store: under the identity and
/// the type of the first stored account with the same source identifier, or
/// as it came where there is none. The new accounts without a type are
/// handed back as well, for the user to classify.
pub fn match_accounts(pulled: &Vec<Account>, stored: &Vec<Account>, source: &str) -> (r:
    AccountMatch)
    ensures
        account_views(r.merged@) == merge_accounts(
            account_views(pulled@),
            account_views(stored@),
            source@,
        ),
        account_views(r.untyped_new@) == untyped_new_accounts(
            account_views(pulled@),
            account_views(stored@),
            source@,
        ),
        r.new_count == new_accounts(
            account_views(pulled@),
            account_views(stored@),
            source@,
        ).len(),
{
    let ghost pv = account_views(pulled@);
    let ghost sv = account_views(stored@);
    let ghost is_new = |p: AccountView| is_new_account(p, sv, source@);
    let ghost is_untyped_new = |p: AccountView|
        is_new_account(p, sv, source@) && p.account_type is None;
    let mut merged: Vec<Account> = Vec::new();
    let mut untyped_new: Vec<Account> = Vec::new();
    let mut new_count: usize = 0;
    let mut i: usize = 0;
    proof {
        assert(pv.take(0).filter(is_new) =~= Seq::<AccountView>::empty()) by {
            reveal(Seq::filter);
        }
        assert(pv.take(0).filter(is_untyped_new) =~= Seq::<AccountView>::empty()) by {
            reveal(Seq::filter);
        }
        assert(account_views(untyped_new@) =~= Seq::<AccountView>::empty());
    }
    while i < pulled.len()
        invariant
            i <= pulled@.len(),
            pv == account_views(pulled@),
            sv == account_views(stored@),
            is_new == (|p: AccountView| is_new_account(p, sv, source@)),
            is_untyped_new == (|p: AccountView|
                is_new_account(p, sv, source@) && p.account_type is None),
            merged@.len() == i,
            forall|k: int| 0 <= k < i ==> (#[trigger] merged@[k])@ == merge_account(pv[k], sv, source@),
            account_views(untyped_new@) == pv.take(i as int).filter(is_untyped_new),
            new_count == pv.take(i as int).filter(is_new).len(),
            new_count <= i,
        decreases pulled@.len() - i,
    {
        let p = &pulled[i];
        proof {
            assert(pv[i as int] == p@);
            assert(pv.take(i + 1) =~= pv.take(i as int).push(p@));
            pv.take(i as int).lemma_filter_push(p@, is_new);
            pv.take(i as int).lemma_filter_push(p@, is_untyped_new);
        }
        match find_match(p, stored, source) {
            Some(j) => {
                assert(sv[j as int] == stored@[j as int]@);
                merged.push(adopt(p, &stored[j]));
            },
            None => {
                merged.push(p.clone());
                new_count += 1;
                if p.account_type.is_none() {
                    let ghost before = account_views(untyped_new@);
                    untyped_new.push(p.clone());
                    assert(account_views(untyped_new@) =~= before.push(p@));
                }
            },
        }
        i += 1;
    }
    proof {
        assert(pv.take(pulled@.len() as int) =~= pv);
        assert(account_views(merged@) =~= merge_accounts(pv, sv, source@));
    }
    AccountMatch { merged, untyped_new, new_count }
}

} // verus!
