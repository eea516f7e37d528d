//! Budget decisions: what creating or changing a budget checks before anything is sent.
//!
//! The server computes `spent` and `left`; nothing here derives them.
use vstd::prelude::*;

use crate::date::{invalid_range, invalid_range_message, DateRange};
use crate::dto::{BudgetInputRequest, CategoryRef, UpdateBudgetRequest};
use crate::error::{ClientError, ErrorKind};
use crate::money::{negative_message, require_non_negative, Money};
use crate::session::{authorise, may_act, mismatch_refusal, Session};

verus! {

/// Refuses a period that ends before it starts, on the terms the server would.
pub fn require_valid_period(period: &DateRange) -> (r: Result<(), ClientError>)
    ensures
        r is Ok <==> period.start.days <= period.end.days,
        r matches Err(e) ==> e@ == (ErrorKind::BadRequest, invalid_range_message(*period)),
{
    if !period.is_valid() {
        return Err(ClientError::BadRequest(invalid_range(period)));
    }
    Ok(())
}

/// Why a budget for `login` with `total` over `period` would be refused, checking in turn
/// who may act, the sign of the total, and the period.
pub open spec fn budget_refusal(session: Session, login: Seq<char>, total: Money, period: DateRange) -> Option<
    (ErrorKind, Seq<char>),
> {
    if !may_act(session.user.login@, session.user.admin, login) {
        Some((ErrorKind::Forbidden, mismatch_refusal(login, session.user.login@)))
    } else if total.amount@.0 < 0 {
        Some((ErrorKind::BadRequest, negative_message()))
    } else if period.start.days > period.end.days {
        Some((ErrorKind::BadRequest, invalid_range_message(period)))
    } else {
        None
    }
}

/// A budget is refused exactly when its owner may not be acted for, its total is negative, or
/// its period ends before it starts: a period of a single day, or of any length, is fine.
pub proof fn lemma_budget_refused_only_for_cause(
    session: Session,
    login: Seq<char>,
    total: Money,
    period: DateRange,
)
    ensures
        budget_refusal(session, login, total, period) is None <==> (may_act(
            session.user.login@,
            session.user.admin,
            login,
        ) && total.amount@.0 >= 0 && period.start.days <= period.end.days),
        may_act(session.user.login@, session.user.admin, login) && total.amount@.0 >= 0
            && period.end.days < period.start.days ==> budget_refusal(session, login, total, period)
            == Some((ErrorKind::BadRequest, invalid_range_message(period))),
{
}

/// What creating a budget sends, or why it is refused before the network.
pub fn plan_create(session: &Session, login: &str, category: CategoryRef, total: Money, period: DateRange) -> (r:
    Result<BudgetInputRequest, ClientError>)
    ensures
        budget_refusal(*session, login@, total, period) matches Some(e) ==> (r matches Err(x) && x@
            == e),
        budget_refusal(*session, login@, total, period) is None ==> (r matches Ok(q) && q.category
            == category && q.total == total && q.date_range == period),
        r is Ok <==> (may_act(session.user.login@, session.user.admin, login@) && total.amount@.0
            >= 0 && period.start.days <= period.end.days),
{
    authorise(session, login)?;
    require_non_negative(&total)?;
    require_valid_period(&period)?;
    Ok(BudgetInputRequest { category, total, date_range: period })
}

/// Why a budget update would be refused: who may act, then a negative total, then an
/// inverted period, each checked only when the patch carries it.
pub open spec fn update_refusal(session: Session, login: Seq<char>, patch: UpdateBudgetRequest) -> Option<
    (ErrorKind, Seq<char>),
> {
    if !may_act(session.user.login@, session.user.admin, login) {
        Some((ErrorKind::Forbidden, mismatch_refusal(login, session.user.login@)))
    } else if patch.total matches Some(t) && t.amount@.0 < 0 {
        Some((ErrorKind::BadRequest, negative_message()))
    } else if patch.date_range matches Some(p) && p.start.days > p.end.days {
        Some((ErrorKind::BadRequest, invalid_range_message(patch.date_range->0)))
    } else {
        None
    }
}

/// Checks a budget update before it is sent.
pub fn check_update(session: &Session, login: &str, patch: &UpdateBudgetRequest) -> (r: Result<
    (),
    ClientError,
>)
    ensures
        update_refusal(*session, login@, *patch) matches Some(e) ==> (r matches Err(x) && x@ == e),
        update_refusal(*session, login@, *patch) is None ==> r is Ok,
        r is Ok <==> (may_act(session.user.login@, session.user.admin, login@) && (patch.total
            matches Some(t) ==> t.amount@.0 >= 0) && (patch.date_range matches Some(p)
            ==> p.start.days <= p.end.days)),
{
    authorise(session, login)?;
    if let Some(total) = &patch.total {
        require_non_negative(total)?;
    }
    if let Some(period) = &patch.date_range {
        require_valid_period(period)?;
    }
    Ok(())
}

} // verus!
