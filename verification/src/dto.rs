//! The request and response shapes of the API that the client's decisions read or build.
use vstd::prelude::*;

use crate::date::{Date, DateRange};
use crate::money::Money;

verus! {

/// A category is keyed by `(name, profit)` on the server, so every reference carries both.
#[derive(Debug, Clone, PartialEq, Eq)]
pub struct CategoryRef {
    pub name: String,
    pub profit: bool,
}

/// A category as the server lists it.
#[derive(Debug, Clone, PartialEq, Eq)]
pub struct CategoryDto {
    pub name: String,
    pub profit: bool,
}

#[derive(Debug, Clone, PartialEq, Eq)]
pub struct CreateCategoryRequest {
    pub name: String,
    pub profit: bool,
}

#[derive(Debug, Clone, PartialEq, Eq)]
pub struct LoginRequest {
    pub login: String,
    pub password: String,
}

#[derive(Debug, Clone, PartialEq, Eq)]
pub struct RegisterRequest {
    pub login: String,
    pub first_name: Option<String>,
    pub last_name: Option<String>,
    pub password: String,
    pub admin: Option<bool>,
}

/// A wallet. The server assigns the id, so a wallet being created has none.
#[derive(Debug, Clone, PartialEq, Eq)]
pub struct WalletDto {
    pub id: Option<i32>,
    pub name: String,
    pub amount: Money,
}

/// A partial update of a wallet; an absent field is left as it is.
#[derive(Debug, Clone, PartialEq, Eq)]
pub struct UpdateWalletRequest {
    pub name: Option<String>,
    pub amount: Option<Money>,
}

/// An expense about to be recorded.
#[derive(Debug, Clone, PartialEq, Eq)]
pub struct ExpenseInputRequest {
    pub amount: Money,
    pub date: Date,
    pub description: String,
    pub category: CategoryRef,
}

/// A partial update of an expense; an absent field is left as it is.
#[derive(Debug, Clone, PartialEq, Eq)]
pub struct UpdateExpenseRequest {
    pub amount: Option<Money>,
    pub date: Option<Date>,
    pub description: Option<String>,
    pub category: Option<CategoryRef>,
}

/// A budget about to be created: a category, an amount and a period.
#[derive(Debug, Clone, PartialEq, Eq)]
pub struct BudgetInputRequest {
    pub category: CategoryRef,
    pub total: Money,
    pub date_range: DateRange,
}

/// A partial update of a budget; an absent field is left as it is.
#[derive(Debug, Clone, PartialEq, Eq)]
pub struct UpdateBudgetRequest {
    pub category: Option<CategoryRef>,
    pub total: Option<Money>,
    pub date_range: Option<DateRange>,
}

/// A budget as the server stores it.
#[derive(Debug, Clone, PartialEq, Eq)]
pub struct BudgetDto {
    pub id: Option<i32>,
    pub category: CategoryRef,
    pub total: Money,
    pub date_range: DateRange,
}

/// A budget with what has been spent inside its period and what is left, both computed by
/// the server.
#[derive(Debug, Clone, PartialEq, Eq)]
pub struct BudgetOutputDto {
    pub id: Option<i32>,
    pub category: CategoryRef,
    pub total: Money,
    pub date_range: DateRange,
    pub spent: Money,
    pub left: Money,
}

} // verus!
