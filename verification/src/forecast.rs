//! Where a budget is heading, from what has been spent so far.
//!
//! Presentation, not money: `spent` and `total` still come from the server, and nothing
//! derived here is ever sent back.
use vstd::prelude::*;

use crate::date::{max_days, min_days, DateRange};
use crate::dto::BudgetOutputDto;
use crate::money::{bigdecimal_pace, difference, same_amount, Decimal, Money};

verus! {

/// A budget's spending extended at its current daily pace to the last day of its period.
#[derive(Debug, Clone)]
pub struct Projection {
    /// Days of the period that have started, today included.
    pub days_elapsed: i64,
    pub days_total: i64,
    /// Spending by the period's last day if the pace so far holds.
    pub projected_spent: Money,
    /// `total - projected_spent`; negative when the budget is on course to be overspent.
    pub projected_left: Money,
}

impl Projection {
    /// Whether the budget is on course to be overspent.
    pub fn overspends(&self) -> (r: bool)
        ensures
            r == (self.projected_left.amount@.0 < 0),
    {
        self.projected_left.amount.is_negative()
    }
}

/// Whether there is anything to extrapolate for `budget` on day `today`: a closed period
/// that has started and has not ended.
pub open spec fn projectable(budget: BudgetOutputDto, today: i32) -> bool {
    let range = budget.date_range;
    &&& range.start.days != min_days()
    &&& range.end.days != max_days()
    &&& range.start.days <= today <= range.end.days
}

/// Every closed period is projected while it runs, however long: a budget is left out only
/// when a bound is a sentinel date or today lies outside its period.
pub proof fn lemma_every_running_period_is_projectable(budget: BudgetOutputDto, today: i32)
    ensures
        projectable(budget, today) <==> (budget.date_range.start.days != min_days()
            && budget.date_range.end.days != max_days() && budget.date_range.start.days <= today
            && today <= budget.date_range.end.days),
{
}

/// The projection of `budget` once its pace is known: `projected` spent by the period's end,
/// in the spending's currency, and the total less that. `None` when total and spending are
/// in different currencies.
pub fn settle_projection(
    budget: &BudgetOutputDto,
    days_elapsed: i64,
    days_total: i64,
    projected: Decimal,
) -> (r: Option<Projection>)
    ensures
        r is Some <==> budget.total.currency@ == budget.spent.currency@,
        r matches Some(p) ==> {
            &&& p.days_elapsed == days_elapsed
            &&& p.days_total == days_total
            &&& p.projected_spent.amount == projected
            &&& p.projected_spent.currency == budget.spent.currency
            &&& p.projected_left.currency == budget.total.currency
            &&& same_amount(
                p.projected_left.amount@,
                difference(budget.total.amount@, projected@),
            )
        },
{
    let projected_spent = Money { amount: projected, currency: budget.spent.currency };
    match budget.total.sub(&projected_spent) {
        Some(projected_left) => Some(
            Projection { days_elapsed, days_total, projected_spent, projected_left },
        ),
        None => None,
    }
}

/// Extends `budget`'s spending at its pace so far to the end of its period.
///
/// `None` when there is nothing to extrapolate: an open-ended period (one whose bound is a
/// sentinel date, where a pace over millennia is noise), one that has not started or has
/// already ended, or total and spending in different currencies. The pace is
/// `spent * days_total / days_elapsed`, rounded half-to-even to hundredths, as bigdecimal
/// computes it.
pub fn project(budget: &BudgetOutputDto, today: crate::date::Date) -> (r: Option<Projection>)
    ensures
        r is Some <==> projectable(*budget, today.days) && budget.total.currency@
            == budget.spent.currency@,
        r is Some <==> (budget.date_range.start.days != min_days() && budget.date_range.end.days
            != max_days() && budget.date_range.start.days <= today.days && today.days
            <= budget.date_range.end.days && budget.total.currency@ == budget.spent.currency@),
        r matches Some(p) ==> {
            let range = budget.date_range;
            let total_days = range.end.days - range.start.days + 1;
            let elapsed = today.days - range.start.days + 1;
            let spent = budget.spent.amount@;
            &&& p.days_total == total_days
            &&& p.days_elapsed == elapsed
            &&& p.projected_spent.amount@ == (
                bigdecimal_pace(spent.0, spent.1, total_days, elapsed),
                2int,
            )
            &&& p.projected_spent.currency == budget.spent.currency
            &&& p.projected_left.currency == budget.total.currency
            &&& same_amount(
                p.projected_left.amount@,
                difference(budget.total.amount@, p.projected_spent.amount@),
            )
        },
{
    let range = budget.date_range;
    if range.start.days == DateRange::min_date().days || range.end.days
        == DateRange::max_date().days {
        return None;
    }
    if !range.contains_date(today) {
        return None;
    }
    let days_total: i64 = range.end.days as i64 - range.start.days as i64 + 1;
    let days_elapsed: i64 = today.days as i64 - range.start.days as i64 + 1;
    let projected = budget.spent.amount.pace(days_total, days_elapsed);
    settle_projection(budget, days_elapsed, days_total, projected)
}

} // verus!
