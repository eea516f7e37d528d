//! Wallet decisions: wallets hold money in one currency; expenses move it. Every rule here
//! is one the server also enforces; this layer catches it in the form.
use vstd::prelude::*;

use crate::date::Date;
use crate::dto::{CategoryRef, ExpenseInputRequest, UpdateExpenseRequest, UpdateWalletRequest, WalletDto};
use crate::error::{bad_request, ClientError, ErrorKind};
use crate::money::{
    mismatch_message, negative_message, require_non_negative, require_same_currency, Money,
};
use crate::session::{authorise, may_act, mismatch_refusal, Session};
use crate::text::{is_blank, trim, trimmed};

verus! {

/// A wallet name: trimmed and non-empty.
pub fn require_name(name: &str) -> (r: Result<String, ClientError>)
    ensures
        is_blank(name@) ==> (r matches Err(e) && e@ == (
            ErrorKind::BadRequest,
            "A wallet name is required"@,
        )),
        !is_blank(name@) ==> (r matches Ok(n) && n@ == trim(name@)),
{
    let t = trimmed(name);
    if t.as_str().unicode_len() == 0 {
        return Err(bad_request("A wallet name is required"));
    }
    Ok(t)
}

/// The refusal a session gets for acting on another account, when it is not allowed to.
pub open spec fn access_refusal(session: Session, login: Seq<char>) -> Option<(ErrorKind, Seq<char>)> {
    if may_act(session.user.login@, session.user.admin, login) {
        None
    } else {
        Some((ErrorKind::Forbidden, mismatch_refusal(login, session.user.login@)))
    }
}

/// What opening a wallet sends: no id (the server assigns it), the trimmed name and the
/// opening balance, which may not be negative.
pub fn plan_create(session: &Session, login: &str, name: &str, amount: Money) -> (r: Result<
    WalletDto,
    ClientError,
>)
    ensures
        access_refusal(*session, login@) matches Some(e) ==> (r matches Err(x) && x@ == e),
        access_refusal(*session, login@) is None && is_blank(name@) ==> (r matches Err(x) && x@
            == (ErrorKind::BadRequest, "A wallet name is required"@)),
        access_refusal(*session, login@) is None && !is_blank(name@) && amount.amount@.0 < 0 ==> (
        r matches Err(x) && x@ == (ErrorKind::BadRequest, negative_message())),
        access_refusal(*session, login@) is None && !is_blank(name@) && amount.amount@.0 >= 0 ==> (
        r matches Ok(w) && w.id is None && w.name@ == trim(name@) && w.amount == amount),
{
    authorise(session, login)?;
    let name = require_name(name)?;
    require_non_negative(&amount)?;
    Ok(WalletDto { id: None, name, amount })
}

/// What renaming a wallet sends: the trimmed name and no balance, so a stale form value
/// cannot overwrite spending that happened meanwhile.
pub fn plan_rename(session: &Session, login: &str, name: &str) -> (r: Result<
    UpdateWalletRequest,
    ClientError,
>)
    ensures
        access_refusal(*session, login@) matches Some(e) ==> (r matches Err(x) && x@ == e),
        access_refusal(*session, login@) is None && is_blank(name@) ==> (r matches Err(x) && x@
            == (ErrorKind::BadRequest, "A wallet name is required"@)),
        access_refusal(*session, login@) is None && !is_blank(name@) ==> (r matches Ok(p)
            && p.name matches Some(n) && n@ == trim(name@) && p.amount is None),
{
    authorise(session, login)?;
    let name = require_name(name)?;
    Ok(UpdateWalletRequest { name: Some(name), amount: None })
}

/// The wallet with id `wallet_id` among `wallets`: the first one carrying it, or `None`
/// when the list holds no such wallet, which a screen shows differently from a failure.
pub fn find_wallet(wallets: &Vec<WalletDto>, wallet_id: i32) -> (r: Option<&WalletDto>)
    ensures
        r matches Some(w) ==> exists|i: int|
            0 <= i < wallets@.len() && #[trigger] wallets@[i] == *w && w.id == Some(wallet_id) && (
            forall|j: int| 0 <= j < i ==> (#[trigger] wallets@[j]).id != Some(wallet_id)),
        r is None ==> forall|i: int|
            0 <= i < wallets@.len() ==> (#[trigger] wallets@[i]).id != Some(wallet_id),
{
    let mut i: usize = 0;
    while i < wallets.len()
        invariant
            i <= wallets@.len(),
            forall|j: int| 0 <= j < i ==> (#[trigger] wallets@[j]).id != Some(wallet_id),
        decreases wallets.len() - i,
    {
        let hit = match wallets[i].id {
            Some(id) => id == wallet_id,
            None => false,
        };
        if hit {
            return Some(&wallets[i]);
        }
        i = i + 1;
    }
    None
}

/// What the form collects before an expense exists.
#[derive(Debug, Clone, PartialEq, Eq)]
pub struct NewExpense {
    pub amount: Money,
    pub date: Date,
    pub description: String,
    pub category: CategoryRef,
}

/// Why recording `expense` against a wallet holding `balance` would be refused, checking in
/// turn who may act, the sign of the amount, the currency and the description.
pub open spec fn expense_refusal(session: Session, login: Seq<char>, balance: Money, expense: NewExpense) -> Option<
    (ErrorKind, Seq<char>),
> {
    if !may_act(session.user.login@, session.user.admin, login) {
        Some((ErrorKind::Forbidden, mismatch_refusal(login, session.user.login@)))
    } else if expense.amount.amount@.0 < 0 {
        Some((ErrorKind::BadRequest, negative_message()))
    } else if balance.currency@ != expense.amount.currency@ {
        Some((ErrorKind::BadRequest, mismatch_message(balance.currency@, expense.amount.currency@)))
    } else if is_blank(expense.description@) {
        Some((ErrorKind::BadRequest, "A description is required"@))
    } else {
        None
    }
}

/// What recording an expense sends, or why it is refused before the network.
///
/// The wallet's balance is passed in so the currency rule is checked without a second
/// fetch: an expense in a currency the wallet does not hold is refused.
pub fn plan_record_expense(session: &Session, login: &str, wallet_balance: &Money, expense: NewExpense) -> (r:
    Result<ExpenseInputRequest, ClientError>)
    ensures
        expense_refusal(*session, login@, *wallet_balance, expense) matches Some(e) ==> (
        r matches Err(x) && x@ == e),
        expense_refusal(*session, login@, *wallet_balance, expense) is None ==> (r matches Ok(q)
            && q.amount == expense.amount && q.date == expense.date && q.description@ == trim(
            expense.description@,
        ) && q.category == expense.category),
{
    authorise(session, login)?;
    require_non_negative(&expense.amount)?;
    require_same_currency(wallet_balance, &expense.amount)?;
    let description = trimmed(expense.description.as_str());
    if description.as_str().unicode_len() == 0 {
        return Err(bad_request("A description is required"));
    }
    Ok(ExpenseInputRequest {
        amount: expense.amount,
        date: expense.date,
        description,
        category: expense.category,
    })
}

/// Checks an expense update before it is sent: who may act, and a new amount's sign.
pub fn check_expense_update(session: &Session, login: &str, patch: &UpdateExpenseRequest) -> (r:
    Result<(), ClientError>)
    ensures
        access_refusal(*session, login@) matches Some(e) ==> (r matches Err(x) && x@ == e),
        access_refusal(*session, login@) is None ==> match patch.amount {
            Some(a) => if a.amount@.0 < 0 {
                r matches Err(x) && x@ == (ErrorKind::BadRequest, negative_message())
            } else {
                r is Ok
            },
            None => r is Ok,
        },
{
    authorise(session, login)?;
    if let Some(amount) = &patch.amount {
        require_non_negative(amount)?;
    }
    Ok(())
}

} // verus!
