//! Projecting balances backward.
//!
//! The balance of an account at the end of a past day is its current
//! balance less every transaction dated after that day. A projected balance
//! becomes a snapshot unless the day already has one within a hundredth of
//! it.

use vstd::prelude::*;
use crate::amount::{lemma_add_exact, lemma_sub_exact, Amount};
use crate::calendar::Date;
use crate::domain::{BalanceSnapshot, Transaction, TransactionView};
use crate::reconcile::transaction_views;

verus! {

/// Whether a transaction is dated after `day`.
pub open spec fn is_later(tx: TransactionView, day: Date) -> bool {
    tx.transaction_date.days > day.days
}

/// The sum, in units, of the transactions dated after `day`.
pub open spec fn later_units(txs: Seq<TransactionView>, day: Date) -> int
    decreases txs.len(),
{
    if txs.len() == 0 {
        0
    } else {
        later_units(txs.drop_last(), day) + if is_later(txs.last(), day) {
            txs.last().amount.units()
        } else {
            0
        }
    }
}

/// The sum of the transactions dated after `day`, added up in their order;
/// `None` where a sum on the way cannot be held exactly.
pub open spec fn later_sum(txs: Seq<TransactionView>, day: Date) -> Option<Amount>
    decreases txs.len(),
{
    if txs.len() == 0 {
        Some(Amount { mantissa: 0, scale: 0 })
    } else {
        match later_sum(txs.drop_last(), day) {
            Some(acc) => if is_later(txs.last(), day) {
                acc.spec_add(txs.last().amount)
            } else {
                Some(acc)
            },
            None => None,
        }
    }
}

/// The balance at the end of `day`: the current balance less the sum of the
/// transactions dated after it.
pub open spec fn balance_at(current: Amount, txs: Seq<TransactionView>, day: Date) -> Option<
    Amount,
> {
    match later_sum(txs, day) {
        Some(s) => current.spec_sub(s),
        None => None,
    }
}

/// Whether one of the snapshots lies within a hundredth of `balance`.
pub open spec fn has_close_snapshot(existing: Seq<BalanceSnapshot>, balance: Amount) -> bool {
    exists|i: int| 0 <= i < existing.len() && (#[trigger] existing[i]).balance.close_to(balance)
}

/// Whether no two snapshots of the list lie within a hundredth of each
/// other.
pub open spec fn materially_distinct(snapshots: Seq<BalanceSnapshot>) -> bool {
    forall|i: int, j: int|
        0 <= i < j < snapshots.len() ==> !(#[trigger] snapshots[i]).balance.close_to(
            (#[trigger] snapshots[j]).balance,
        )
}

/// The snapshots of a day after a projected balance was put to them: the
/// balance is added as `created` unless one within a hundredth is there.
pub open spec fn after_backfill(
    existing: Seq<BalanceSnapshot>,
    balance: Amount,
    created: BalanceSnapshot,
) -> Seq<BalanceSnapshot> {
    if has_close_snapshot(existing, balance) {
        existing
    } else {
        existing.push(created)
    }
}

/// Where the transactions' amounts are valid, the sum of the later ones is
/// valid, and it stands for the sum of their units.
pub proof fn lemma_later_sum_exact(txs: Seq<TransactionView>, day: Date)
    requires
        forall|i: int| 0 <= i < txs.len() ==> (#[trigger] txs[i]).amount.wf(),
    ensures
        later_sum(txs, day) matches Some(s) ==> s.wf() && s.units() == later_units(txs, day),
    decreases txs.len(),
{
    if txs.len() > 0 {
        let rest = txs.drop_last();
        assert forall|i: int| 0 <= i < rest.len() implies (#[trigger] rest[i]).amount.wf() by {
            assert(rest[i] == txs[i]);
        }
        lemma_later_sum_exact(rest, day);
        if let Some(acc) = later_sum(rest, day) {
            assert(txs.last() == txs[txs.len() - 1]);
            lemma_add_exact(acc, txs.last().amount);
        }
    } else {
        assert((Amount { mantissa: 0, scale: 0 }).units() == 0);
    }
}

/// A projected balance is exact: it stands for the current balance less
/// the sum of all transactions dated after the day.
pub proof fn lemma_balance_at_exact(current: Amount, txs: Seq<TransactionView>, day: Date)
    requires
        current.wf(),
        forall|i: int| 0 <= i < txs.len() ==> (#[trigger] txs[i]).amount.wf(),
    ensures
        balance_at(current, txs, day) matches Some(b) ==> b.wf() && b.units() == current.units()
            - later_units(txs, day),
{
    lemma_later_sum_exact(txs, day);
    if let Some(s) = later_sum(txs, day) {
        lemma_sub_exact(current, s);
    }
}

/// With no transactions every day's balance is the current balance.
pub proof fn lemma_balance_without_transactions(current: Amount, day: Date)
    requires
        current.wf(),
    ensures
        balance_at(current, Seq::<TransactionView>::empty(), day) matches Some(b) && b.units()
            == current.units(),
{
    let zero = Amount { mantissa: 0, scale: 0 };
    assert(later_sum(Seq::<TransactionView>::empty(), day) == Some(zero));
    lemma_sub_exact(current, zero);
    assert(zero.units() == 0);
    let s = current.common_scale(zero.spec_neg());
    assert(s == current.scale);
    assert(zero.spec_neg().aligned(s as nat) == 0);
    assert(current.aligned(s as nat) == current.mantissa) by {
        reveal_with_fuel(crate::amount::pow10, 1);
        assert(current.mantissa * 1 == current.mantissa);
    }
}

/// Backfill creates no near duplicate, and a repeated backfill creates
/// nothing.
///
/// If no two snapshots of a day lie within a hundredth of each other, that
/// still holds after a projected balance was put to them; and putting the
/// same balance to them once more changes nothing.
pub proof fn lemma_backfill_no_duplicates(
    existing: Seq<BalanceSnapshot>,
    balance: Amount,
    created: BalanceSnapshot,
    again: BalanceSnapshot,
)
    requires
        created.balance == balance,
        again.balance == balance,
    ensures
        materially_distinct(existing) ==> materially_distinct(
            after_backfill(existing, balance, created),
        ),
        has_close_snapshot(after_backfill(existing, balance, created), balance),
        after_backfill(after_backfill(existing, balance, created), balance, again)
            == after_backfill(existing, balance, created),
{
    let after = after_backfill(existing, balance, created);
    crate::amount::lemma_close_reflexive_symmetric(balance, balance);
    if has_close_snapshot(existing, balance) {
    } else {
        assert(after[existing.len() as int].balance.close_to(balance));
        if materially_distinct(existing) {
            assert forall|i: int, j: int| 0 <= i < j < after.len() implies !(
            #[trigger] after[i]).balance.close_to((#[trigger] after[j]).balance) by {
                if j < existing.len() {
                    assert(after[i] == existing[i]);
                    assert(after[j] == existing[j]);
                } else {
                    assert(after[i] == existing[i]);
                    assert(!existing[i].balance.close_to(balance));
                }
            }
        }
    }
}

/// The balance at the end of `day`, or `None` where a sum on the way
/// cannot be held exactly.
pub fn project_balance(current: Amount, txs: &Vec<Transaction>, day: Date) -> (r: Option<Amount>)
    requires
        current.wf(),
        forall|i: int| 0 <= i < txs@.len() ==> (#[trigger] txs@[i]).amount.wf(),
    ensures
        r == balance_at(current, transaction_views(txs@), day),
        r matches Some(b) ==> b.wf() && b.units() == current.units() - later_units(
            transaction_views(txs@),
            day,
        ),
{
    let ghost tv = transaction_views(txs@);
    let mut sum: Amount = Amount::zero();
    let mut i: usize = 0;
    proof {
        assert forall|k: int| 0 <= k < tv.len() implies (#[trigger] tv[k]).amount.wf() by {
            assert(tv[k] == txs@[k]@);
        }
        lemma_balance_at_exact(current, tv, day);
        assert(tv.take(0) =~= Seq::<TransactionView>::empty());
    }
    while i < txs.len()
        invariant
            i <= txs@.len(),
            tv == transaction_views(txs@),
            forall|k: int| 0 <= k < txs@.len() ==> (#[trigger] txs@[k]).amount.wf(),
            later_sum(tv.take(i as int), day) == Some(sum),
            sum.wf(),
        decreases txs@.len() - i,
    {
        proof {
            assert(tv.take(i + 1).drop_last() =~= tv.take(i as int));
            assert(tv.take(i + 1).last() == txs@[i as int]@);
        }
        if txs[i].transaction_date.is_after(day) {
            match sum.checked_add(txs[i].amount) {
                Some(s) => {
                    sum = s;
                },
                None => {
                    proof {
                        lemma_later_sum_none_stays(tv, day, i + 1);
                    }
                    return None;
                },
            }
        }
        i += 1;
    }
    assert(tv.take(txs@.len() as int) =~= tv);
    current.checked_sub(sum)
}

/// Once a sum on the way cannot be held, the whole sum cannot.
pub proof fn lemma_later_sum_none_stays(txs: Seq<TransactionView>, day: Date, n: int)
    requires
        0 <= n <= txs.len(),
        later_sum(txs.take(n), day) is None,
    ensures
        later_sum(txs, day) is None,
    decreases txs.len() - n,
{
    if n < txs.len() {
        assert(txs.take(n + 1).drop_last() =~= txs.take(n));
        lemma_later_sum_none_stays(txs, day, n + 1);
    } else {
        assert(txs.take(n) =~= txs);
    }
}

/// Whether a projected balance is to become a snapshot: it is, unless one
/// of the day's snapshots lies within a hundredth of it.
pub fn should_create_snapshot(existing: &Vec<BalanceSnapshot>, balance: Amount) -> (r: bool)
    requires
        balance.wf(),
        forall|i: int| 0 <= i < existing@.len() ==> (#[trigger] existing@[i]).balance.wf(),
    ensures
        r == !has_close_snapshot(existing@, balance),
{
    let mut i: usize = 0;
    while i < existing.len()
        invariant
            i <= existing@.len(),
            balance.wf(),
            forall|k: int| 0 <= k < existing@.len() ==> (#[trigger] existing@[k]).balance.wf(),
            forall|k: int| 0 <= k < i ==> !(#[trigger] existing@[k]).balance.close_to(balance),
        decreases existing@.len() - i,
    {
        if existing[i].balance.within_tolerance(balance) {
            return false;
        }
        i += 1;
    }
    true
}

} // verus!
