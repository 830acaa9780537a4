//! The subscription-intake handler, as a state machine over plain values.
//!
//! One inbound `POST /subscriptions` is handled in two decisions. First,
//! [`subscriptions_decision`] reads the body and either refuses it with
//! HTTP 400 or produces the row to persist together with the request's
//! correlation context; minting the row identifier, the request identifier
//! and the timestamp happens here, once per request. Second, after the
//! caller has carried out the single insert, [`complete_intake`] maps its
//! outcome to HTTP 200 or HTTP 500, always with an empty body. No state is
//! shared between requests: everything either decision touches is an
//! argument or a result.
use vstd::prelude::*;
use crate::form::{
    decode_form, email_key, form_segments, intake_decision, name_key, pair_of, percent_decoded,
    scan_segments, FormData, IntakeError,
};
use crate::http::{health_check, route, route_spec, HttpOutcome, RouteTarget};
use crate::ids::{is_uuid_v4, mint_uuid_v4, now_utc_millis};
use crate::store::{
    count_with_email, has_id, lemma_count_push, spec_insert, StoreError, SubscriberRow,
};

verus! {

/// Correlation data for one inbound request: a freshly minted request
/// identifier and the submitted fields, attached to every log or trace
/// event emitted while the request is handled, across every suspension.
pub struct RequestContext {
    /// Identifier minted for this request alone.
    pub request_id: u128,
    /// Submitted email address.
    pub email: String,
    /// Submitted name.
    pub name: String,
}

/// What the handler decided about one submission body.
pub enum IntakeStep {
    /// Answer with this response at once; nothing is persisted.
    Respond(HttpOutcome),
    /// The body was accepted; persist the row, under a span carrying the
    /// context, then answer as [`complete_intake`] says.
    Persist(RequestContext, SubscriberRow),
}

/// Builds the row to persist from a decoded submission: the caller's
/// fields, the given fresh identifier, and the given clock reading.
pub fn make_row(form: &FormData, id: u128, now_ms: i64) -> (r: SubscriberRow)
    ensures
        r.id == id,
        r.email@ == form.email@,
        r.name@ == form.name@,
        r.subscribed_at_ms == now_ms,
{
    SubscriberRow {
        id,
        email: form.email.clone(),
        name: form.name.clone(),
        subscribed_at_ms: now_ms,
    }
}

/// Decides one submission, as [`intake_decision`] describes: a refused
/// body is answered with 400 and an empty body, and nothing is persisted
/// for it; an accepted body yields the row to persist, carrying the
/// decoded fields, a version-4 identifier and the clock reading, and the
/// request context, carrying the same fields and its own identifier.
pub fn subscriptions_decision(body: &Vec<u8>) -> (r: IntakeStep)
    ensures
        intake_decision(body@) is Err <==> r is Respond,
        r matches IntakeStep::Respond(resp) ==> resp.status == 400 && resp.body@
            == Seq::<char>::empty(),
        r matches IntakeStep::Persist(ctx, row) ==> {
            let decoded = intake_decision(body@).unwrap();
            &&& row.name@ == decoded.0
            &&& row.email@ == decoded.1
            &&& ctx.name@ == decoded.0
            &&& ctx.email@ == decoded.1
            &&& is_uuid_v4(row.id)
            &&& is_uuid_v4(ctx.request_id)
        },
{
    let request_id = mint_uuid_v4();
    match decode_form(body) {
        Err(_) => IntakeStep::Respond(HttpOutcome::empty(400)),
        Ok(form) => {
            let id = mint_uuid_v4();
            let now_ms = now_utc_millis();
            let row = make_row(&form, id, now_ms);
            let ctx = RequestContext { request_id, email: form.email, name: form.name };
            IntakeStep::Persist(ctx, row)
        },
    }
}

/// The status owed to a persistence outcome: 200 on success, 500 on any
/// store failure.
pub open spec fn status_for_outcome(outcome: Result<(), StoreError>) -> u16 {
    if outcome is Ok {
        200
    } else {
        500
    }
}

/// Maps the outcome of the single insert to the response: 200 with an
/// empty body on success, 500 with an empty body on any store failure —
/// the insert is all-or-nothing, so nothing partial is ever committed.
pub fn complete_intake(outcome: Result<(), StoreError>) -> (r: HttpOutcome)
    ensures
        r.status == status_for_outcome(outcome),
        r.body@ == Seq::<char>::empty(),
{
    match outcome {
        Ok(_) => HttpOutcome::empty(200),
        Err(_) => HttpOutcome::empty(500),
    }
}

/// True when some segment of the body carries the given key.
pub open spec fn body_has_key(body: Seq<u8>, key: Seq<u8>) -> bool {
    exists|i: int|
        0 <= i < form_segments(body).len() && form_segments(body)[i].len() > 0 && percent_decoded(
            pair_of(form_segments(body)[i]).0,
        ) == Some(key)
}

proof fn lemma_scan_missing_name(segs: Seq<Seq<u8>>, email: Option<Seq<u8>>)
    requires
        forall|i: int|
            0 <= i < segs.len() ==> !(#[trigger] segs[i].len() > 0 && percent_decoded(
                pair_of(segs[i]).0,
            ) == Some(name_key())),
    ensures
        scan_segments(segs, None, email) is Err,
    decreases segs.len(),
{
    if segs.len() > 0 {
        assert(forall|i: int| 0 <= i < segs.skip(1).len() ==> segs.skip(1)[i] == segs[i + 1]);
        if segs[0].len() == 0 {
            lemma_scan_missing_name(segs.skip(1), email);
        } else {
            let kv = pair_of(segs[0]);
            match (percent_decoded(kv.0), percent_decoded(kv.1)) {
                (Some(kd), Some(vd)) => {
                    if kd == email_key() && email is None {
                        lemma_scan_missing_name(segs.skip(1), Some(vd));
                    } else if kd != email_key() {
                        lemma_scan_missing_name(segs.skip(1), email);
                    }
                },
                _ => {},
            }
        }
    }
}

proof fn lemma_scan_missing_email(segs: Seq<Seq<u8>>, name: Option<Seq<u8>>)
    requires
        forall|i: int|
            0 <= i < segs.len() ==> !(#[trigger] segs[i].len() > 0 && percent_decoded(
                pair_of(segs[i]).0,
            ) == Some(email_key())),
    ensures
        scan_segments(segs, name, None) is Err,
    decreases segs.len(),
{
    if segs.len() > 0 {
        assert(forall|i: int| 0 <= i < segs.skip(1).len() ==> segs.skip(1)[i] == segs[i + 1]);
        if segs[0].len() == 0 {
            lemma_scan_missing_email(segs.skip(1), name);
        } else {
            let kv = pair_of(segs[0]);
            match (percent_decoded(kv.0), percent_decoded(kv.1)) {
                (Some(kd), Some(vd)) => {
                    if kd == name_key() && name is None {
                        lemma_scan_missing_email(segs.skip(1), Some(vd));
                    } else if kd != name_key() {
                        lemma_scan_missing_email(segs.skip(1), name);
                    }
                },
                _ => {},
            }
        }
    }
}

/// A body with no `name` key, or no `email` key — the empty body among
/// them — is refused, so it is answered with 400 and nothing is persisted
/// for it.
pub proof fn lemma_missing_key_rejected(body: Seq<u8>)
    requires
        !body_has_key(body, name_key()) || !body_has_key(body, email_key()),
    ensures
        intake_decision(body) is Err,
{
    if !body_has_key(body, name_key()) {
        lemma_scan_missing_name(form_segments(body), None);
    } else {
        lemma_scan_missing_email(form_segments(body), None);
    }
}

/// The pinned validation policy: a body whose `name` decodes to the empty
/// string is refused — answered with 400 — even though both keys are
/// present.
pub proof fn lemma_empty_name_rejected(body: Seq<u8>)
    requires
        crate::form::parse_form_spec(body) matches Ok(p) && p.0.len() == 0,
    ensures
        intake_decision(body) == Err::<(Seq<char>, Seq<char>), _>(IntakeError::EmptyName),
{
}

/// A submission that passes the intake policy is accepted and persisted:
/// the insert of its row under a fresh identifier succeeds, the row with
/// the submitted fields is present afterwards — the count of its email
/// rises by exactly one — and the successful outcome is answered with 200.
pub proof fn lemma_valid_submission_persists(
    body: Seq<u8>,
    rows: Seq<SubscriberRow>,
    row: SubscriberRow,
)
    requires
        intake_decision(body) matches Ok(p) && row.name@ == p.0 && row.email@ == p.1,
        !has_id(rows, row.id),
    ensures
        spec_insert(rows, row) == Ok::<_, StoreError>(rows.push(row)),
        rows.push(row).contains(row),
        count_with_email(rows.push(row), row.email@) == count_with_email(rows, row.email@) + 1,
        status_for_outcome(Ok(())) == 200,
{
    lemma_count_push(rows, row, row.email@);
    assert(rows.push(row)[rows.len() as int] == row);
}

/// One inbound request, decided. A health check is answered 200 with an
/// empty body at once, whatever the body and whatever the state of the
/// store — this decision touches neither. An unknown route is answered
/// 404. A subscription is decided as [`subscriptions_decision`] says.
pub fn handle_request(method: &Vec<u8>, path: &Vec<u8>, body: &Vec<u8>) -> (r: IntakeStep)
    ensures
        route_spec(method@, path@) == RouteTarget::HealthCheck ==> (r matches IntakeStep::Respond(
            resp,
        ) && resp.status == 200 && resp.body@ == Seq::<char>::empty()),
        route_spec(method@, path@) == RouteTarget::NotFound ==> (r matches IntakeStep::Respond(
            resp,
        ) && resp.status == 404 && resp.body@ == Seq::<char>::empty()),
        route_spec(method@, path@) == RouteTarget::Subscriptions ==> {
            &&& (intake_decision(body@) is Err <==> r is Respond)
            &&& (r matches IntakeStep::Respond(resp) ==> resp.status == 400 && resp.body@
                == Seq::<char>::empty())
            &&& (r matches IntakeStep::Persist(ctx, row) ==> {
                let decoded = intake_decision(body@).unwrap();
                &&& row.name@ == decoded.0
                &&& row.email@ == decoded.1
                &&& ctx.name@ == decoded.0
                &&& ctx.email@ == decoded.1
                &&& is_uuid_v4(row.id)
                &&& is_uuid_v4(ctx.request_id)
            })
        },
{
    match route(method, path) {
        RouteTarget::HealthCheck => IntakeStep::Respond(health_check()),
        RouteTarget::Subscriptions => subscriptions_decision(body),
        RouteTarget::NotFound => IntakeStep::Respond(HttpOutcome::empty(404)),
    }
}

} // verus!

