use fingest_client::date::{parse_iso_date, parse_period, DateRange};
use fingest_client::dto::{BudgetOutputDto, CategoryDto, CategoryRef};
use fingest_client::error::ClientError;
use fingest_client::money::{format_money, parse_money, Money};
use fingest_client::view::{budget_screen_state, find_category, option_value, picker, BudgetScreenState};

fn money(amount: &str) -> Money {
    parse_money(amount, "PLN").unwrap()
}

fn budget(total: &str, spent: &str, left: &str) -> BudgetOutputDto {
    BudgetOutputDto {
        id: Some(1),
        category: CategoryRef { name: "Food".into(), profit: false },
        total: money(total),
        date_range: DateRange::new(None, None),
        spent: money(spent),
        left: money(left),
    }
}

#[test]
fn loading_state_is_reported_before_data_arrives() {
    let snapshot: Option<Result<Vec<BudgetOutputDto>, ClientError>> = None;
    assert!(matches!(budget_screen_state(&snapshot), BudgetScreenState::Loading));
}

#[test]
fn empty_state_is_reported_for_an_empty_list() {
    let snapshot = Some(Ok(Vec::<BudgetOutputDto>::new()));
    assert!(matches!(budget_screen_state(&snapshot), BudgetScreenState::Empty));
}

#[test]
fn ready_state_exposes_the_received_rows() {
    let snapshot = Some(Ok(vec![budget("100", "10", "90")]));
    match budget_screen_state(&snapshot) {
        BudgetScreenState::Ready(list) => assert_eq!(list.len(), 1),
        _ => panic!("expected ready state"),
    }
}

#[test]
fn budgets_loading_state_is_reported_before_data_arrives() {
    let snapshot: Option<Result<Vec<BudgetOutputDto>, ClientError>> = None;
    assert!(matches!(budget_screen_state(&snapshot), BudgetScreenState::Loading));
}

#[test]
fn budgets_empty_state_is_reported_for_an_empty_list() {
    let snapshot = Some(Ok(Vec::<BudgetOutputDto>::new()));
    assert!(matches!(budget_screen_state(&snapshot), BudgetScreenState::Empty));
}

#[test]
fn ready_state_exposes_the_received_cards() {
    let snapshot = Some(Ok(vec![budget("500", "100", "400")]));
    match budget_screen_state(&snapshot) {
        BudgetScreenState::Ready(list) => assert_eq!(list.len(), 1),
        _ => panic!("expected ready state"),
    }
}

#[test]
fn a_failed_load_is_its_own_state() {
    let snapshot: Option<Result<Vec<BudgetOutputDto>, ClientError>> =
        Some(Err(ClientError::Network("offline".into())));
    match budget_screen_state(&snapshot) {
        BudgetScreenState::Error(e) => assert_eq!(*e, ClientError::Network("offline".into())),
        _ => panic!("expected error state"),
    }
}

#[test]
fn an_overspent_budget_shows_its_figures() {
    let over = budget("500", "750", "-250");

    assert_eq!(format_money(&over.left), "-250.00 PLN");
}

#[test]
fn invalid_date_strings_are_rejected_before_submit() {
    let failure = parse_period("2026-02-31", "2026-03-01").unwrap_err();
    assert_eq!(failure, "The dates are invalid");
}

#[test]
fn an_inverted_period_is_rejected_before_submit() {
    let failure = parse_period("2026-03-02", "2026-03-01").unwrap_err();
    assert_eq!(failure, "The period end must be on or after the start");
}

#[test]
fn a_valid_period_is_accepted() {
    let period = parse_period("2026-03-01", "2026-03-31").unwrap();
    assert_eq!(period.start.iso(), "2026-03-01");
    assert_eq!(period.end.iso(), "2026-03-31");
}

#[test]
fn a_one_day_period_is_accepted() {
    let period = parse_period("2026-03-01", "2026-03-01").unwrap();
    assert_eq!(period.start, period.end);
    assert!(period.is_valid());
}

#[test]
fn dates_are_day_numbers_from_the_common_era() {
    assert_eq!(parse_iso_date("0001-01-01").unwrap().days, 1);
    assert_eq!(parse_iso_date("9999-12-31").unwrap().days, 3652059);
    assert_eq!(DateRange::min_date().iso(), "0001-01-01");
    assert_eq!(DateRange::max_date().iso(), "9999-12-31");
    assert!(parse_iso_date("2026-13-01").is_none());
}

#[test]
fn an_open_range_is_the_full_range() {
    assert_eq!(DateRange::new(None, None), DateRange::new(Some(DateRange::min_date()), Some(DateRange::max_date())));
    let march = parse_period("2026-03-01", "2026-03-31").unwrap();
    assert!(march.contains_date(parse_iso_date("2026-03-15").unwrap()));
    assert!(!march.contains_date(parse_iso_date("2026-04-01").unwrap()));
}

fn options() -> Vec<CategoryDto> {
    vec![
        CategoryDto { name: "Food".into(), profit: false },
        CategoryDto { name: "Other".into(), profit: false },
        CategoryDto { name: "Other".into(), profit: true },
    ]
}

#[test]
fn the_same_name_with_different_profit_resolves_distinctly() {
    let spending = find_category(&options(), "false|Other").unwrap();
    let income = find_category(&options(), "true|Other").unwrap();

    assert_eq!(spending.name, "Other");
    assert!(!spending.profit);
    assert!(income.profit);
}

#[test]
fn an_unselected_category_resolves_to_nothing() {
    assert!(find_category(&options(), "").is_none());
}

#[test]
fn an_unknown_value_resolves_to_nothing() {
    assert!(find_category(&options(), "false|Nope").is_none());
}

#[test]
fn a_name_containing_the_separator_does_not_collide() {
    let tricky = vec![CategoryDto { name: "a|b".into(), profit: false }];

    assert!(find_category(&tricky, "false|a|b").is_some());
    assert!(find_category(&tricky, "false|a").is_none());
}

#[test]
fn a_picker_is_not_ready_while_loading() {
    let state = picker(None);
    assert!(!state.ready);
    assert!(state.error.is_none());
}

#[test]
fn a_failed_load_explains_the_empty_picker() {
    let failed = Err(ClientError::Network("offline".into()));
    let state = picker(Some(&failed));

    assert!(!state.ready);
    assert!(state.options.is_empty());
    assert!(state.error.unwrap().contains("Could not reach the server"));
}

#[test]
fn a_loaded_picker_offers_its_options() {
    let state = picker(Some(&Ok(options())));
    assert!(state.ready);
    assert_eq!(state.options.len(), 3);
}

#[test]
fn an_option_value_is_the_profit_flag_then_the_name() {
    assert_eq!(option_value(&CategoryDto { name: "Food".into(), profit: false }), "false|Food");
    assert_eq!(option_value(&CategoryDto { name: "a|b".into(), profit: true }), "true|a|b");
}

#[test]
fn every_option_resolves_to_itself() {
    for option in options() {
        let found = find_category(&options(), &option_value(&option)).unwrap();
        assert_eq!((found.name, found.profit), (option.name, option.profit));
    }
}
