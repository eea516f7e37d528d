use fingest_client::date::{parse_iso_date, BudgetFilter, Date, DateRange};
use fingest_client::dto::{CategoryRef, UpdateBudgetRequest, UpdateExpenseRequest, WalletDto};
use fingest_client::error::ClientError;
use fingest_client::events::{announce_on_success, ClientEvent};
use fingest_client::money::{parse_money, Money};
use fingest_client::session::{authorise, Session, UserDto};
use fingest_client::{planning, wallets};

fn session(login: &str, admin: bool) -> Session {
    Session {
        token: "t".into(),
        user: UserDto { login: login.into(), first_name: None, last_name: None, admin },
    }
}

fn category() -> CategoryRef {
    CategoryRef { name: "Food".into(), profit: false }
}

fn money(amount: i64) -> Money {
    parse_money(&amount.to_string(), "PLN").unwrap()
}

fn day(n: u32) -> Date {
    parse_iso_date(&format!("2026-09-{n:02}")).expect("a valid date")
}

fn period() -> DateRange {
    DateRange::new(Some(day(1)), Some(day(30)))
}

#[test]
fn creating_announces_that_budgets_are_stale() {
    let sent = planning::plan_create(&session("bob", false), "bob", category(), money(500), period());
    assert!(sent.is_ok());

    assert_eq!(announce_on_success(&sent, ClientEvent::BudgetChanged), vec![ClientEvent::BudgetChanged]);
}

#[test]
fn a_negative_total_never_reaches_the_network() {
    let err = planning::plan_create(&session("bob", false), "bob", category(), money(-1), period())
        .unwrap_err();

    assert!(matches!(err, ClientError::BadRequest(_)));
}

#[test]
fn an_inverted_period_never_reaches_the_network() {
    let backwards = DateRange::new(Some(day(30)), Some(day(1)));
    let err = planning::plan_create(&session("bob", false), "bob", category(), money(500), backwards)
        .unwrap_err();

    assert!(err.message().contains("Invalid date range"));
    assert_eq!(err.message(), "Invalid date range: start 2026-09-30 is after end 2026-09-01");
}

#[test]
fn budgets_belong_to_one_account() {
    let err = authorise(&session("bob", false), "alice").unwrap_err();

    assert!(matches!(err, ClientError::Forbidden(_)));
}

#[test]
fn an_admin_may_read_another_accounts_budgets() {
    assert!(authorise(&session("root", true), "bob").is_ok());
}

#[test]
fn a_failed_delete_announces_nothing() {
    let failed: Result<(), ClientError> = Err(ClientError::NotFound("budget not found".into()));

    assert!(announce_on_success(&failed, ClientEvent::BudgetChanged).is_empty());
}

#[test]
fn the_default_filter_constrains_nothing() {
    let filter = BudgetFilter::unfiltered();

    assert_eq!(filter.start, DateRange::new(None, None));
    assert_eq!(filter.end, DateRange::new(None, None));
}

#[test]
fn a_budget_update_is_checked_field_by_field() {
    let bob = session("bob", false);
    let empty = UpdateBudgetRequest { category: None, total: None, date_range: None };
    assert!(planning::check_update(&bob, "bob", &empty).is_ok());
    assert!(matches!(planning::check_update(&bob, "alice", &empty), Err(ClientError::Forbidden(_))));

    let negative = UpdateBudgetRequest { category: None, total: Some(money(-1)), date_range: None };
    assert_eq!(
        planning::check_update(&bob, "bob", &negative),
        Err(ClientError::BadRequest("The amount must not be negative".into()))
    );

    let inverted = UpdateBudgetRequest {
        category: None,
        total: None,
        date_range: Some(DateRange::new(Some(day(2)), Some(day(1)))),
    };
    assert!(planning::check_update(&bob, "bob", &inverted).is_err());
    assert!(planning::require_valid_period(&period()).is_ok());
}

fn expense(amount: &str, currency: &str) -> wallets::NewExpense {
    wallets::NewExpense {
        amount: parse_money(amount, currency).unwrap(),
        date: parse_iso_date("2026-01-15").unwrap(),
        description: "Lunch".into(),
        category: category(),
    }
}

#[test]
fn creating_a_wallet_announces_the_list_is_stale() {
    let sent =
        wallets::plan_create(&session("bob", false), "bob", "Main", parse_money("100", "USD").unwrap());
    let sent = sent.unwrap();
    assert_eq!(sent.id, None);
    assert_eq!(sent.name, "Main");

    let created: Result<WalletDto, ClientError> = Ok(sent);
    assert_eq!(announce_on_success(&created, ClientEvent::WalletChanged), vec![ClientEvent::WalletChanged]);
}

#[test]
fn a_wallet_cannot_be_opened_with_a_negative_balance() {
    let result =
        wallets::plan_create(&session("bob", false), "bob", "Main", parse_money("-5", "USD").unwrap());

    assert!(result.is_err());
}

#[test]
fn a_blank_wallet_name_never_reaches_the_network() {
    assert!(wallets::plan_create(&session("bob", false), "bob", "   ", parse_money("1", "USD").unwrap())
        .is_err());
    assert_eq!(wallets::require_name("  "), Err(ClientError::BadRequest("A wallet name is required".into())));
}

#[test]
fn acting_on_someone_elses_wallets_is_refused_before_the_network() {
    let err = wallets::plan_create(&session("bob", false), "alice", "Main", money(1)).unwrap_err();

    assert!(matches!(err, ClientError::Forbidden(_)));
}

fn listed() -> Vec<WalletDto> {
    vec![WalletDto { id: Some(1), name: "Stub".into(), amount: money(0) }]
}

#[test]
fn finding_a_listed_wallet_returns_it() {
    let list = listed();
    let found = wallets::find_wallet(&list, 1);

    assert_eq!(found.and_then(|w| w.id), Some(1));
}

#[test]
fn an_unknown_wallet_id_is_absent_rather_than_an_error() {
    assert_eq!(wallets::find_wallet(&listed(), 999), None);
}

#[test]
fn the_first_wallet_with_the_id_is_the_one_found() {
    let list = vec![
        WalletDto { id: None, name: "Draft".into(), amount: money(0) },
        WalletDto { id: Some(3), name: "First".into(), amount: money(1) },
        WalletDto { id: Some(3), name: "Second".into(), amount: money(2) },
    ];

    assert_eq!(wallets::find_wallet(&list, 3).map(|w| w.name.as_str()), Some("First"));
}

#[test]
fn an_admin_may_act_on_another_account() {
    assert!(wallets::plan_create(&session("root", true), "bob", "Main", money(1)).is_ok());
}

#[test]
fn spending_in_the_wrong_currency_is_refused_before_the_network() {
    let balance = parse_money("100", "USD").unwrap();

    let err = wallets::plan_record_expense(&session("bob", false), "bob", &balance, expense("10", "EUR"))
        .unwrap_err();

    assert!(err.message().contains("Currency mismatch"));
}

#[test]
fn a_matching_currency_is_recorded_and_announced() {
    let balance = parse_money("100", "USD").unwrap();

    let sent = wallets::plan_record_expense(&session("bob", false), "bob", &balance, expense("10", "USD"));
    assert_eq!(sent.as_ref().unwrap().description, "Lunch");

    assert_eq!(
        announce_on_success(&sent, ClientEvent::ExpenseChanged { wallet_id: 7 }),
        vec![ClientEvent::ExpenseChanged { wallet_id: 7 }]
    );
}

#[test]
fn an_expense_needs_a_description() {
    let balance = parse_money("100", "USD").unwrap();
    let mut blank = expense("10", "USD");
    blank.description = "   ".into();

    assert_eq!(
        wallets::plan_record_expense(&session("bob", false), "bob", &balance, blank),
        Err(ClientError::BadRequest("A description is required".into()))
    );
}

#[test]
fn a_negative_expense_is_refused() {
    let balance = parse_money("100", "USD").unwrap();

    assert!(wallets::plan_record_expense(&session("bob", false), "bob", &balance, expense("-10", "USD"))
        .is_err());
}

#[test]
fn deleting_an_expense_announces_the_wallet_is_stale() {
    let deleted: Result<(), ClientError> = Ok(());

    assert_eq!(
        announce_on_success(&deleted, ClientEvent::ExpenseChanged { wallet_id: 7 }),
        vec![ClientEvent::ExpenseChanged { wallet_id: 7 }]
    );
}

#[test]
fn lib_a_failed_delete_announces_nothing() {
    let failed: Result<(), ClientError> = Err(ClientError::NotFound("expense not found".into()));

    assert!(announce_on_success(&failed, ClientEvent::ExpenseChanged { wallet_id: 7 }).is_empty());
}

#[test]
fn renaming_leaves_the_balance_alone() {
    let patch = wallets::plan_rename(&session("bob", false), "bob", "Holiday").unwrap();

    assert_eq!(patch.name.as_deref(), Some("Holiday"));
    assert!(patch.amount.is_none());
}

#[test]
fn an_expense_update_is_checked_before_it_is_sent() {
    let bob = session("bob", false);
    let negative = UpdateExpenseRequest {
        amount: Some(money(-3)),
        date: None,
        description: None,
        category: None,
    };

    assert!(wallets::check_expense_update(&bob, "bob", &negative).is_err());
    assert!(wallets::check_expense_update(&session("root", true), "bob", &UpdateExpenseRequest {
        amount: Some(money(3)),
        date: None,
        description: None,
        category: None,
    })
    .is_ok());
}
