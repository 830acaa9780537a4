use zero2prod::form::{decode_form, parse_form, FormError, IntakeError};
use zero2prod::http::health_check;
use zero2prod::intake::{complete_intake, subscriptions_decision, IntakeStep};
use zero2prod::store::{StoreError, SubscriptionTable};

#[test]
fn test_health_check_ok() {
    let response = health_check();
    assert!(response.status == 200);
    assert_eq!(0, response.body.len());
}

#[test]
fn test_subscribe_returns_200_for_valid_form_data() {
    let body = b"name=le%20guin&email=ursula_le_guin%40gmail.com".to_vec();
    let mut table = SubscriptionTable::new();
    let step = subscriptions_decision(&body);
    let outcome = match step {
        IntakeStep::Respond(resp) => resp,
        IntakeStep::Persist(_ctx, row) => {
            let stored = table.insert(row);
            complete_intake(stored)
        }
    };
    assert_eq!(outcome.status.to_string(), "200");
    assert_eq!(table.count_by_email(&"ursula_le_guin@gmail.com".to_string()), 1);
    let saved = table
        .find_by_email(&"ursula_le_guin@gmail.com".to_string())
        .expect("Failed to retrieve saved user from database");
    let row = table.get(saved);
    assert_eq!(row.email, "ursula_le_guin@gmail.com");
    assert_eq!(row.name, "le guin");
}

#[test]
fn test_subscribe_returns_400_for_invalid_empty_fields() {
    let cases: Vec<(&[u8], &str)> = vec![
        (b"name=&email=paulg@yc.com", "empty name"),
        (b"name=Paul%20Henschel&email=", "empty email"),
        (b"name=Danny&email=not_an_email", "invalid email"),
    ];
    for (body, description) in cases {
        let step = subscriptions_decision(&body.to_vec());
        let status = match step {
            IntakeStep::Respond(resp) => resp.status,
            IntakeStep::Persist(_, _) => 200,
        };
        assert_eq!(
            status, 400,
            "The API did not fail with 400 when the payload was {}",
            description
        );
    }
}

#[test]
fn test_subscribe_returns_400_for_invalid_form_data() {
    let cases: Vec<(&[u8], &str)> = vec![
        (b"name=le%20guin", "missing the email"),
        (b"email=ursula_le_guin%40gmail.com", "missing the name"),
        (b"", "missing both name and email"),
    ];
    for (body, description) in cases {
        let step = subscriptions_decision(&body.to_vec());
        let status = match step {
            IntakeStep::Respond(resp) => resp.status,
            IntakeStep::Persist(_, _) => 200,
        };
        assert_eq!(
            status, 400,
            "The API did not fail with 400 when the payload was {}",
            description
        );
    }
}

#[test]
fn percent_decoding_handles_escapes_and_plus() {
    let body = b"name=a%2Bb+c&email=x%40y.z".to_vec();
    let form = decode_form(&body).expect("body should decode");
    assert_eq!(form.name, "a+b c");
    assert_eq!(form.email, "x@y.z");
}

#[test]
fn unknown_keys_are_ignored() {
    let body = b"extra=1&name=Jane&email=jane@doe.org&more=2".to_vec();
    let form = decode_form(&body).expect("body should decode");
    assert_eq!(form.name, "Jane");
    assert_eq!(form.email, "jane@doe.org");
}

#[test]
fn segment_without_equals_is_a_key_with_empty_value() {
    let body = b"name&email=a@b".to_vec();
    assert_eq!(decode_form(&body), Err(IntakeError::EmptyName));
}

#[test]
fn duplicate_keys_are_refused() {
    let body = b"name=a&name=b&email=a@b".to_vec();
    assert_eq!(
        decode_form(&body),
        Err(IntakeError::BadForm(FormError::DuplicateName))
    );
    let body = b"email=a@b&name=a&email=c@d".to_vec();
    assert_eq!(
        decode_form(&body),
        Err(IntakeError::BadForm(FormError::DuplicateEmail))
    );
}

#[test]
fn bad_percent_escape_is_refused() {
    let body = b"name=%zz&email=a@b".to_vec();
    assert_eq!(
        decode_form(&body),
        Err(IntakeError::BadForm(FormError::InvalidEncoding))
    );
    let body = b"name=x%2&email=a@b".to_vec();
    assert_eq!(
        decode_form(&body),
        Err(IntakeError::BadForm(FormError::InvalidEncoding))
    );
}

#[test]
fn email_without_interior_at_is_refused() {
    assert_eq!(
        decode_form(&b"name=x&email=@domain".to_vec()),
        Err(IntakeError::InvalidEmail)
    );
    assert_eq!(
        decode_form(&b"name=x&email=local@".to_vec()),
        Err(IntakeError::InvalidEmail)
    );
    let accepted = decode_form(&b"name=x&email=a@b".to_vec()).expect("interior @ is enough");
    assert_eq!(accepted.email, "a@b");
    assert_eq!(accepted.name, "x");
}

#[test]
fn non_utf8_value_is_refused() {
    let body = b"name=%ff&email=a@b".to_vec();
    assert_eq!(decode_form(&body), Err(IntakeError::NotUtf8));
}

#[test]
fn missing_keys_yield_their_errors() {
    assert_eq!(
        parse_form(&b"email=a@b".to_vec()).unwrap_err(),
        FormError::MissingName
    );
    assert_eq!(
        parse_form(&b"name=x".to_vec()).unwrap_err(),
        FormError::MissingEmail
    );
    let parsed = parse_form(&b"name=x&email=y".to_vec()).unwrap();
    assert_eq!(parsed.0, b"x".to_vec());
    assert_eq!(parsed.1, b"y".to_vec());
}

#[test]
fn persistence_failure_maps_to_500_with_empty_body() {
    let outcome = complete_intake(Err(StoreError::Unavailable));
    assert_eq!(outcome.status, 500);
    assert_eq!(outcome.body.len(), 0);
}

#[test]
fn minted_row_carries_a_version_4_id() {
    let body = b"name=le%20guin&email=ursula_le_guin%40gmail.com".to_vec();
    match subscriptions_decision(&body) {
        IntakeStep::Persist(ctx, row) => {
            assert_eq!((row.id >> 76) & 0xf, 4);
            assert_eq!((row.id >> 62) & 0x3, 2);
            assert_eq!((ctx.request_id >> 76) & 0xf, 4);
            assert_eq!(ctx.email, "ursula_le_guin@gmail.com");
            assert_eq!(ctx.name, "le guin");
        }
        IntakeStep::Respond(_) => panic!("a valid body must be accepted"),
    }
}
