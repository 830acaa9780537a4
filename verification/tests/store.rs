use zero2prod::http::{route, RouteTarget};
use zero2prod::intake::{complete_intake, handle_request, make_row, subscriptions_decision, IntakeStep};
use zero2prod::form::decode_form;
use zero2prod::outbound::{ClientError, EmailClient};
use zero2prod::store::{StoreError, SubscriptionTable};

#[test]
fn two_distinct_submissions_are_both_persisted() {
    let mut table = SubscriptionTable::new();
    let first = subscriptions_decision(&b"name=Ann&email=ann@example.org".to_vec());
    let second = subscriptions_decision(&b"name=Ben&email=ben@example.org".to_vec());
    for step in [first, second] {
        match step {
            IntakeStep::Persist(_ctx, row) => {
                let outcome = complete_intake(table.insert(row));
                assert_eq!(outcome.status, 200);
                assert_eq!(outcome.body.len(), 0);
            }
            IntakeStep::Respond(_) => panic!("valid bodies must be accepted"),
        }
    }
    assert_eq!(table.len(), 2);
    assert_eq!(table.count_by_email(&"ann@example.org".to_string()), 1);
    assert_eq!(table.count_by_email(&"ben@example.org".to_string()), 1);
    let first_id = table.get(0).id;
    let second_id = table.get(1).id;
    assert_ne!(first_id, second_id);
}

#[test]
fn an_insert_under_a_present_id_is_refused_and_changes_nothing() {
    let mut table = SubscriptionTable::new();
    let form = decode_form(&b"name=Ann&email=ann@example.org".to_vec()).unwrap();
    let row = make_row(&form, 7, 1000);
    let again = make_row(&form, 7, 2000);
    assert_eq!(table.insert(row), Ok(()));
    assert_eq!(table.insert(again), Err(StoreError::DuplicateId));
    assert_eq!(table.len(), 1);
    assert_eq!(table.get(0).subscribed_at_ms, 1000);
}

#[test]
fn make_row_carries_the_fields_unchanged() {
    let form = decode_form(&b"name=le%20guin&email=ursula_le_guin%40gmail.com".to_vec()).unwrap();
    let row = make_row(&form, 42, 12345);
    assert_eq!(row.id, 42);
    assert_eq!(row.email, "ursula_le_guin@gmail.com");
    assert_eq!(row.name, "le guin");
    assert_eq!(row.subscribed_at_ms, 12345);
}

#[test]
fn route_table_matches_the_two_registered_routes() {
    assert_eq!(
        route(&b"GET".to_vec(), &b"/health_check".to_vec()),
        RouteTarget::HealthCheck
    );
    assert_eq!(
        route(&b"POST".to_vec(), &b"/subscriptions".to_vec()),
        RouteTarget::Subscriptions
    );
    assert_eq!(
        route(&b"POST".to_vec(), &b"/health_check".to_vec()),
        RouteTarget::NotFound
    );
    assert_eq!(
        route(&b"GET".to_vec(), &b"/missing".to_vec()),
        RouteTarget::NotFound
    );
}

#[test]
fn health_check_answers_200_whatever_the_body() {
    let step = handle_request(
        &b"GET".to_vec(),
        &b"/health_check".to_vec(),
        &b"name=&&&%%%garbage".to_vec(),
    );
    match step {
        IntakeStep::Respond(resp) => {
            assert_eq!(resp.status, 200);
            assert_eq!(resp.body.len(), 0);
        }
        IntakeStep::Persist(_, _) => panic!("a health check never persists"),
    }
}

#[test]
fn unknown_routes_answer_404() {
    match handle_request(&b"GET".to_vec(), &b"/nowhere".to_vec(), &b"".to_vec()) {
        IntakeStep::Respond(resp) => assert_eq!(resp.status, 404),
        IntakeStep::Persist(_, _) => panic!("an unknown route never persists"),
    }
}

#[test]
fn email_client_requires_a_valid_sender() {
    let client = EmailClient::new(
        "https://api.example.org".to_string(),
        "newsletter@example.org".to_string(),
        "SECRET-REDACTED".to_string(),
        10_000,
    )
    .expect("a valid sender must be accepted");
    assert_eq!(client.sender, "newsletter@example.org");
    assert_eq!(client.timeout_ms, 10_000);

    let invalid = EmailClient::new(
        "https://api.example.org".to_string(),
        "not_an_email".to_string(),
        "SECRET-REDACTED".to_string(),
        10_000,
    );
    assert_eq!(invalid.unwrap_err(), ClientError::InvalidSender);
}
