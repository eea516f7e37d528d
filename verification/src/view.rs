//! Presentation decisions shared by every client: what a category picker offers, how a
//! picked value resolves, and which state a budget screen is in.
use vstd::prelude::*;
use vstd::string::*;

use crate::dto::{BudgetOutputDto, CategoryDto, CategoryRef};
use crate::error::{description, describe, ClientError};
use crate::text::{concat, same_text};

verus! {

broadcast use vstd::string::group_string_axioms;

/// A category as plain text: its name and whether it is income.
pub open spec fn category_view(c: CategoryDto) -> (Seq<char>, bool) {
    (c.name@, c.profit)
}

/// What a category picker can offer, given how far its load has got.
#[derive(Debug, Clone, PartialEq, Eq)]
pub struct Picker {
    pub options: Vec<CategoryDto>,
    /// Set when the load failed, so the form can say why the list is empty.
    pub error: Option<String>,
    /// Submit stays disabled until this is true.
    pub ready: bool,
}

/// A copy of `options`, category by category.
fn copy_categories(options: &Vec<CategoryDto>) -> (r: Vec<CategoryDto>)
    ensures
        r@.map_values(|c: CategoryDto| category_view(c)) == options@.map_values(
            |c: CategoryDto| category_view(c),
        ),
{
    let mut r: Vec<CategoryDto> = Vec::new();
    let mut i: usize = 0;
    while i < options.len()
        invariant
            i <= options.len(),
            r@.len() == i,
            forall|k: int|
                0 <= k < i ==> category_view(#[trigger] r@[k]) == category_view(options@[k]),
        decreases options.len() - i,
    {
        let c = &options[i];
        r.push(CategoryDto { name: c.name.as_str().to_owned(), profit: c.profit });
        i = i + 1;
    }
    assert(r@.map_values(|c: CategoryDto| category_view(c)) =~= options@.map_values(
        |c: CategoryDto| category_view(c),
    ));
    r
}

/// The message shown when the categories could not be loaded.
pub open spec fn load_failure_message(error: (crate::error::ErrorKind, Seq<char>)) -> Seq<char> {
    "Categories could not be loaded: "@ + description(error)
}

/// What a picker offers: the loaded categories once they are in, an explanation when the
/// load failed, and nothing (and not ready) while it is still loading.
pub fn picker(loaded: Option<&Result<Vec<CategoryDto>, ClientError>>) -> (r: Picker)
    ensures
        match loaded {
            Some(Ok(options)) => {
                &&& r.options@.map_values(|c: CategoryDto| category_view(c)) == options@.map_values(
                    |c: CategoryDto| category_view(c),
                )
                &&& r.error is None
                &&& r.ready
            },
            Some(Err(failure)) => {
                &&& r.options@.len() == 0
                &&& r.error matches Some(m) && m@ == load_failure_message(failure@)
                &&& !r.ready
            },
            None => r.options@.len() == 0 && r.error is None && !r.ready,
        },
{
    match loaded {
        Some(Ok(options)) => Picker { options: copy_categories(options), error: None, ready: true },
        Some(Err(failure)) => {
            let reason = describe(failure);
            Picker {
                options: Vec::new(),
                error: Some(concat("Categories could not be loaded: ", reason.as_str())),
                ready: false,
            }
        },
        None => Picker { options: Vec::new(), error: None, ready: false },
    }
}

/// The value a picker option carries: `profit|name`, so two categories sharing a name but
/// not a side stay apart.
pub open spec fn option_text(c: (Seq<char>, bool)) -> Seq<char> {
    (if c.1 {
        "true"@
    } else {
        "false"@
    }) + "|"@ + c.0
}

/// The value a picker option carries for `category`.
pub fn option_value(category: &CategoryDto) -> (r: String)
    ensures
        r@ == option_text(category_view(*category)),
{
    let side = if category.profit {
        "true|"
    } else {
        "false|"
    };
    proof {
        reveal_strlit("true|");
        reveal_strlit("false|");
        reveal_strlit("true");
        reveal_strlit("false");
        reveal_strlit("|");
        assert("true|"@ =~= "true"@ + "|"@);
        assert("false|"@ =~= "false"@ + "|"@);
    }
    concat(side, category.name.as_str())
}

/// Whether some option of `options` carries the value `value`.
pub open spec fn offers(options: Seq<CategoryDto>, value: Seq<char>) -> bool {
    exists|i: int| 0 <= i < options.len() && option_text(category_view(#[trigger] options[i])) == value
}

/// Whether `c` is the category of the first option of `options` carrying the value `value`.
pub open spec fn picks(options: Seq<CategoryDto>, value: Seq<char>, c: CategoryRef) -> bool {
    exists|i: int|
        0 <= i < options.len() && option_text(category_view(#[trigger] options[i])) == value
            && c.name@ == options[i].name@ && c.profit == options[i].profit && (forall|j: int|
            0 <= j < i ==> option_text(category_view(#[trigger] options[j])) != value)
}

/// The category a picked `value` names: the first option whose value it is.
pub fn find_category(options: &[CategoryDto], value: &str) -> (r: Option<CategoryRef>)
    ensures
        r matches Some(c) ==> picks(options@, value@, c),
        r is None ==> !offers(options@, value@),
{
    let mut i: usize = 0;
    while i < options.len()
        invariant
            i <= options@.len(),
            forall|j: int|
                0 <= j < i ==> option_text(category_view(#[trigger] options@[j])) != value@,
        decreases options.len() - i,
    {
        let v = option_value(&options[i]);
        if same_text(v.as_str(), value) {
            let c = &options[i];
            return Some(CategoryRef { name: c.name.as_str().to_owned(), profit: c.profit });
        }
        i = i + 1;
    }
    None
}

/// Which of its four states a budget screen is in.
pub enum BudgetScreenState<'a> {
    Loading,
    Error(&'a ClientError),
    Empty,
    Ready(&'a [BudgetOutputDto]),
}

/// The state of a budget screen given its load: loading until a result arrives, then the
/// failure, an empty notice, or the budgets themselves.
pub fn budget_screen_state(snapshot: &Option<Result<Vec<BudgetOutputDto>, ClientError>>) -> (r:
    BudgetScreenState<'_>)
    ensures
        match snapshot {
            None => r is Loading,
            Some(Err(e)) => r matches BudgetScreenState::Error(x) && *x == *e,
            Some(Ok(list)) => if list@.len() == 0 {
                r is Empty
            } else {
                r matches BudgetScreenState::Ready(l) && l@ == list@
            },
        },
{
    match snapshot {
        None => BudgetScreenState::Loading,
        Some(Err(error)) => BudgetScreenState::Error(error),
        Some(Ok(list)) => {
            if list.len() == 0 {
                BudgetScreenState::Empty
            } else {
                BudgetScreenState::Ready(list.as_slice())
            }
        },
    }
}

} // verus!
