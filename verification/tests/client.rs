use ifit_client::IfitError;
use ifit_client::Pagination;
use ifit_client::WorkoutSummary;
use ifit_client::client::export_payload;
use ifit_client::client::fetch_outcome;
use ifit_client::client::list_from_pages;
use ifit_client::client::login_outcome;

fn ws(id: &str) -> WorkoutSummary {
    WorkoutSummary {
        id: id.to_string(),
        title: "Manual Workout".to_string(),
        date: "Feb 13, 2021".to_string(),
        distance: "3.6".to_string(),
    }
}

#[test]
fn login_401_yields_invalid_credentials() {
    assert_eq!(login_outcome(401), Err(IfitError::InvalidUsernamePassword));
}

#[test]
fn login_200_yields_success() {
    assert_eq!(login_outcome(200), Ok(()));
}

#[test]
fn login_success_statuses_yield_success() {
    assert_eq!(login_outcome(204), Ok(()));
    assert_eq!(login_outcome(299), Ok(()));
}

#[test]
fn login_non_auth_failure_statuses_are_transport_errors() {
    assert_eq!(login_outcome(500), Err(IfitError::UnexpectedStatus(500)));
    assert_eq!(login_outcome(429), Err(IfitError::UnexpectedStatus(429)));
    assert_eq!(login_outcome(302), Err(IfitError::UnexpectedStatus(302)));
    assert_eq!(login_outcome(403), Err(IfitError::UnexpectedStatus(403)));
}

#[test]
fn fetch_accepts_success_statuses_only() {
    assert_eq!(fetch_outcome(200), Ok(()));
    assert_eq!(fetch_outcome(204), Ok(()));
    assert_eq!(fetch_outcome(404), Err(IfitError::UnexpectedStatus(404)));
    assert_eq!(fetch_outcome(500), Err(IfitError::UnexpectedStatus(500)));
    assert_eq!(fetch_outcome(401), Err(IfitError::UnexpectedStatus(401)));
}

#[test]
fn error_messages() {
    assert_eq!(IfitError::InvalidUsernamePassword.message(), "invalid username/password");
    assert_eq!(IfitError::UnexpectedStatus(500).message(), "unexpected response status");
}

#[test]
fn export_returns_the_body_verbatim() {
    let body = "<TrainingCenterDatabase>\u{e9}\n\tnot even valid xml <".to_string();
    assert_eq!(export_payload(body.clone()), body);
    assert_eq!(export_payload(String::new()), "");
}

#[test]
fn listing_stops_at_the_first_empty_page() {
    let pages = vec![
        vec![ws("a1"), ws("a2")],
        vec![ws("b1")],
        Vec::new(),
        vec![ws("c1")],
    ];
    let collected = list_from_pages(pages);
    let ids: Vec<&str> = collected.iter().map(|w| w.id.as_str()).collect();
    assert_eq!(ids, vec!["a1", "a2", "b1"]);
}

#[test]
fn listing_concatenates_all_pages_when_none_is_empty() {
    let pages = vec![vec![ws("a1")], vec![ws("b1"), ws("b2")]];
    let collected = list_from_pages(pages);
    let ids: Vec<&str> = collected.iter().map(|w| w.id.as_str()).collect();
    assert_eq!(ids, vec!["a1", "b1", "b2"]);
}

#[test]
fn listing_with_an_empty_first_page_is_empty() {
    let pages = vec![Vec::new(), vec![ws("a1")]];
    assert_eq!(list_from_pages(pages), Vec::new());
}

#[test]
fn listing_twice_over_the_same_pages_is_equal() {
    let pages = vec![vec![ws("a1"), ws("a2")], vec![ws("b1")], Vec::new()];
    let first_run = list_from_pages(pages.clone());
    let second_run = list_from_pages(pages);
    assert_eq!(first_run, second_run);
}

#[test]
fn pagination_requests_successive_pages_and_stops_on_empty() {
    let mut st = Pagination::new();
    assert_eq!(st.page_to_fetch(), Some(1));
    st.feed_page(vec![ws("a1")]);
    assert_eq!(st.page_to_fetch(), Some(2));
    st.feed_page(vec![ws("b1"), ws("b2")]);
    assert_eq!(st.page_to_fetch(), Some(3));
    st.feed_page(Vec::new());
    assert_eq!(st.page_to_fetch(), None);
    assert!(st.finished);
    let ids: Vec<&str> = st.summaries.iter().map(|w| w.id.as_str()).collect();
    assert_eq!(ids, vec!["a1", "b1", "b2"]);
}
