//! What the entry forms make of what was typed, before anything is sent.
//!
//! Each form checks its fields in a fixed order and stops at the first it cannot read,
//! with the sentence the form shows. The currency of an expense is the wallet's own, so an
//! expense in another currency cannot be produced from the form at all; the check in the
//! use case is the backstop.
use vstd::prelude::*;

use crate::date::{chrono_parse_date, parse_iso_date, parse_period, period_outcome, DateRange};
use crate::dto::{CategoryDto, CategoryRef};
use crate::money::{money_outcome, parse_money, Money};
use crate::view::{find_category, offers, picks};
use crate::error::NOT_SIGNED_IN;
use crate::session::Session;
use crate::wallets::NewExpense;

verus! {

/// Reads the expense form: the picked category, the amount in the wallet's `currency`, the
/// date and the description, in that order.
pub fn read_expense_form(
    options: &[CategoryDto],
    selected: &str,
    amount: &str,
    currency: &str,
    date: &str,
    description: &str,
) -> (r: Result<NewExpense, String>)
    ensures
        !offers(options@, selected@) ==> (r matches Err(m) && m@ == "Choose a category"@),
        offers(options@, selected@) ==> (money_outcome(amount@, currency@) matches Err(m) ==> (
        r matches Err(x) && x@ == m)),
        offers(options@, selected@) && money_outcome(amount@, currency@) is Ok && chrono_parse_date(
            date@,
        ) is None ==> (r matches Err(x) && x@ == "The date is invalid"@),
        offers(options@, selected@) && money_outcome(amount@, currency@) is Ok && chrono_parse_date(
            date@,
        ) is Some ==> (r matches Ok(e) && picks(options@, selected@, e.category) && money_outcome(
            amount@,
            currency@,
        ) == Ok::<((int, int), Seq<char>), Seq<char>>((e.amount.amount@, e.amount.currency@))
            && Some(e.date.days) == chrono_parse_date(date@) && e.description@ == description@),
{
    let category = match find_category(options, selected) {
        Some(c) => c,
        None => return Err("Choose a category".to_owned()),
    };
    let money = match parse_money(amount, currency) {
        Ok(m) => m,
        Err(failure) => return Err(failure.message().to_owned()),
    };
    let date = match parse_iso_date(date) {
        Some(d) => d,
        None => return Err("The date is invalid".to_owned()),
    };
    Ok(NewExpense { amount: money, date, description: description.to_owned(), category })
}

/// What the budget form makes of its fields: the picked category, the total and the period.
pub struct BudgetDraft {
    pub category: CategoryRef,
    pub total: Money,
    pub period: DateRange,
}

/// Reads the budget form: the picked category, the total in `currency`, and the period from
/// `start` to `end`, in that order.
pub fn read_budget_form(
    options: &[CategoryDto],
    selected: &str,
    total: &str,
    currency: &str,
    start: &str,
    end: &str,
) -> (r: Result<BudgetDraft, String>)
    ensures
        !offers(options@, selected@) ==> (r matches Err(m) && m@ == "Choose a category"@),
        offers(options@, selected@) ==> (money_outcome(total@, currency@) matches Err(m) ==> (
        r matches Err(x) && x@ == m)),
        offers(options@, selected@) && money_outcome(total@, currency@) is Ok ==> (period_outcome(
            start@,
            end@,
        ) matches Err(m) ==> (r matches Err(x) && x@ == m)),
        offers(options@, selected@) && money_outcome(total@, currency@) is Ok && period_outcome(
            start@,
            end@,
        ) is Ok ==> (r matches Ok(d) && picks(options@, selected@, d.category) && money_outcome(
            total@,
            currency@,
        ) == Ok::<((int, int), Seq<char>), Seq<char>>((d.total.amount@, d.total.currency@))
            && period_outcome(start@, end@) == Ok::<(i32, i32), Seq<char>>(
            (d.period.start.days, d.period.end.days),
        )),
{
    let category = match find_category(options, selected) {
        Some(c) => c,
        None => return Err("Choose a category".to_owned()),
    };
    let total = match parse_money(total, currency) {
        Ok(m) => m,
        Err(failure) => return Err(failure.message().to_owned()),
    };
    let period = parse_period(start, end)?;
    Ok(BudgetDraft { category, total, period })
}

/// What pressing submit on a form leads to.
pub enum Submission<T> {
    /// The form is already sending: the press is ignored.
    Ignored,
    /// Nothing is sent, and the form shows this sentence.
    Refused(String),
    /// What the form read, sent on behalf of this session.
    Ready(T, Session),
}

/// What a session the form was given amounts to: it is sent on, or the form is refused
/// because nobody is signed in.
fn with_session<T>(read: T, session: Option<&Session>) -> (r: Submission<T>)
    ensures
        match session {
            Some(s) => r matches Submission::Ready(x, t) && x == read && t == *s,
            None => r matches Submission::Refused(m) && m@ == NOT_SIGNED_IN@,
        },
{
    match session {
        Some(s) => Submission::Ready(read, s.duplicate()),
        None => Submission::Refused(NOT_SIGNED_IN.to_owned()),
    }
}

/// Pressing submit on the expense form: ignored while a previous submission is in flight,
/// refused with the form's sentence when a field does not read, refused when nobody is
/// signed in, and otherwise the expense, ready to send for the session.
pub fn submit_expense(
    busy: bool,
    session: Option<&Session>,
    options: &[CategoryDto],
    selected: &str,
    amount: &str,
    currency: &str,
    date: &str,
    description: &str,
) -> (r: Submission<NewExpense>)
    ensures
        busy ==> r is Ignored,
        !busy ==> match read_expense_form_outcome(options@, selected@, amount@, currency@, date@) {
            Err(m) => r matches Submission::Refused(x) && x@ == m,
            Ok(()) => match session {
                None => r matches Submission::Refused(x) && x@ == NOT_SIGNED_IN@,
                Some(s) => r matches Submission::Ready(e, t) && t == *s && picks(
                    options@,
                    selected@,
                    e.category,
                ) && money_outcome(amount@, currency@) == Ok::<((int, int), Seq<char>), Seq<char>>(
                    (e.amount.amount@, e.amount.currency@),
                ) && Some(e.date.days) == chrono_parse_date(date@) && e.description@
                    == description@,
            },
        },
{
    if busy {
        return Submission::Ignored;
    }
    match read_expense_form(options, selected, amount, currency, date, description) {
        Err(m) => Submission::Refused(m),
        Ok(e) => with_session(e, session),
    }
}

/// Which field of the expense form stops it, and with what sentence, in the form's order.
pub open spec fn read_expense_form_outcome(
    options: Seq<CategoryDto>,
    selected: Seq<char>,
    amount: Seq<char>,
    currency: Seq<char>,
    date: Seq<char>,
) -> Result<(), Seq<char>> {
    if !offers(options, selected) {
        Err("Choose a category"@)
    } else if money_outcome(amount, currency) is Err {
        Err(money_outcome(amount, currency)->Err_0)
    } else if chrono_parse_date(date) is None {
        Err("The date is invalid"@)
    } else {
        Ok(())
    }
}

/// Pressing submit on the budget form: ignored while a previous submission is in flight,
/// refused with the form's sentence when a field does not read, refused when nobody is
/// signed in, and otherwise the budget, ready to send for the session.
pub fn submit_budget(
    busy: bool,
    session: Option<&Session>,
    options: &[CategoryDto],
    selected: &str,
    total: &str,
    currency: &str,
    start: &str,
    end: &str,
) -> (r: Submission<BudgetDraft>)
    ensures
        busy ==> r is Ignored,
        !busy ==> match read_budget_form_outcome(options@, selected@, total@, currency@, start@, end@) {
            Err(m) => r matches Submission::Refused(x) && x@ == m,
            Ok(()) => match session {
                None => r matches Submission::Refused(x) && x@ == NOT_SIGNED_IN@,
                Some(s) => r matches Submission::Ready(d, t) && t == *s && picks(
                    options@,
                    selected@,
                    d.category,
                ) && money_outcome(total@, currency@) == Ok::<((int, int), Seq<char>), Seq<char>>(
                    (d.total.amount@, d.total.currency@),
                ) && period_outcome(start@, end@) == Ok::<(i32, i32), Seq<char>>(
                    (d.period.start.days, d.period.end.days),
                ),
            },
        },
{
    if busy {
        return Submission::Ignored;
    }
    match read_budget_form(options, selected, total, currency, start, end) {
        Err(m) => Submission::Refused(m),
        Ok(d) => with_session(d, session),
    }
}

/// Which field of the budget form stops it, and with what sentence, in the form's order.
pub open spec fn read_budget_form_outcome(
    options: Seq<CategoryDto>,
    selected: Seq<char>,
    total: Seq<char>,
    currency: Seq<char>,
    start: Seq<char>,
    end: Seq<char>,
) -> Result<(), Seq<char>> {
    if !offers(options, selected) {
        Err("Choose a category"@)
    } else if money_outcome(total, currency) is Err {
        Err(money_outcome(total, currency)->Err_0)
    } else if period_outcome(start, end) is Err {
        Err(period_outcome(start, end)->Err_0)
    } else {
        Ok(())
    }
}

} // verus!
