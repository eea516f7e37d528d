use fingest_client::date::parse_iso_date;
use fingest_client::dto::CategoryDto;
use fingest_client::forms::{read_budget_form, read_expense_form, submit_budget, submit_expense, Submission};
use fingest_client::session::{Session, UserDto};
use fingest_client::money::parse_money;

fn options() -> Vec<CategoryDto> {
    vec![
        CategoryDto { name: "Food".into(), profit: false },
        CategoryDto { name: "Salary".into(), profit: true },
    ]
}

#[test]
fn an_expense_needs_a_category_first() {
    assert_eq!(read_expense_form(&options(), "", "abc", "USD", "nope", "Lunch").err(), Some("Choose a category".to_owned()));
}

#[test]
fn an_unreadable_amount_is_explained_in_the_servers_words() {
    assert_eq!(
        read_expense_form(&options(), "false|Food", "abc", "USD", "2026-01-15", "Lunch").err(),
        Some("The amount is invalid".to_owned())
    );
    assert_eq!(
        read_expense_form(&options(), "false|Food", " ", "USD", "2026-01-15", "Lunch").err(),
        Some("An amount is required".to_owned())
    );
}

#[test]
fn an_unreadable_date_is_refused() {
    assert_eq!(
        read_expense_form(&options(), "false|Food", "12.50", "USD", "2026-02-30", "Lunch").err(),
        Some("The date is invalid".to_owned())
    );
}

#[test]
fn a_complete_expense_form_reads_into_an_expense() {
    let expense = read_expense_form(&options(), "false|Food", "12.50", "usd", "2026-01-15", "Lunch").unwrap();

    assert_eq!(expense.category.name, "Food");
    assert!(!expense.category.profit);
    assert_eq!(expense.amount, parse_money("12.50", "USD").unwrap());
    assert_eq!(expense.date, parse_iso_date("2026-01-15").unwrap());
    assert_eq!(expense.description, "Lunch");
}

#[test]
fn a_budget_form_checks_category_total_then_period() {
    assert_eq!(read_budget_form(&options(), "true|Food", "500", "PLN", "x", "y").err(), Some("Choose a category".to_owned()));
    assert_eq!(
        read_budget_form(&options(), "true|Salary", "500", "PL", "x", "y").err(),
        Some("Invalid currency code: PL".to_owned())
    );
    assert_eq!(
        read_budget_form(&options(), "true|Salary", "500", "PLN", "2026-03-02", "2026-03-01").err(),
        Some("The period end must be on or after the start".to_owned())
    );
}

#[test]
fn a_complete_budget_form_reads_into_a_draft() {
    let draft = read_budget_form(&options(), "true|Salary", "500", "PLN", "2026-03-01", "2026-03-31").unwrap();

    assert_eq!(draft.category.name, "Salary");
    assert!(draft.category.profit);
    assert_eq!(draft.total, parse_money("500", "PLN").unwrap());
    assert_eq!(draft.period.start.iso(), "2026-03-01");
    assert_eq!(draft.period.end.iso(), "2026-03-31");
}

fn signed_in() -> Session {
    Session { token: "t".into(), user: UserDto { login: "bob".into(), first_name: None, last_name: None, admin: false } }
}

#[test]
fn a_press_while_sending_is_ignored() {
    let s = signed_in();
    let r = submit_expense(true, Some(&s), &options(), "false|Food", "12.50", "usd", "2026-01-15", "Lunch");
    assert!(matches!(r, Submission::Ignored));
    let r = submit_budget(true, None, &options(), "x", "x", "x", "x", "x");
    assert!(matches!(r, Submission::Ignored));
}

#[test]
fn a_submission_is_refused_with_the_forms_sentence_or_for_want_of_a_session() {
    let s = signed_in();
    let r = submit_expense(false, Some(&s), &options(), "false|Food", "abc", "usd", "2026-01-15", "Lunch");
    assert!(matches!(r, Submission::Refused(m) if m == "The amount is invalid"));
    let r = submit_expense(false, None, &options(), "false|Food", "12.50", "usd", "2026-01-15", "Lunch");
    assert!(matches!(r, Submission::Refused(m) if m == "You are not signed in"));
    let r = submit_budget(false, Some(&s), &options(), "true|Salary", "500", "PLN", "2026-03-02", "2026-03-01");
    assert!(matches!(r, Submission::Refused(m) if m == "The period end must be on or after the start"));
}

#[test]
fn a_complete_submission_is_ready_for_the_session() {
    let s = signed_in();
    match submit_expense(false, Some(&s), &options(), "false|Food", "12.50", "usd", "2026-01-15", "Lunch") {
        Submission::Ready(e, t) => {
            assert_eq!(e.amount, parse_money("12.50", "USD").unwrap());
            assert_eq!(t, s);
        }
        _ => panic!("the expense should be ready"),
    }
    match submit_budget(false, Some(&s), &options(), "true|Salary", "500", "PLN", "2026-03-01", "2026-03-31") {
        Submission::Ready(d, t) => {
            assert_eq!(d.total, parse_money("500", "PLN").unwrap());
            assert_eq!(t, s);
        }
        _ => panic!("the budget should be ready"),
    }
}
