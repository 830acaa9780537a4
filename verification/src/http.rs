//! HTTP-level outcomes of the service's two routes.
use vstd::prelude::*;

verus! {

/// Status line and body of a finished HTTP response.
pub struct HttpOutcome {
    /// HTTP status code.
    pub status: u16,
    /// Response body; the service only ever answers with an empty one.
    pub body: String,
}

impl HttpOutcome {
    /// An empty-bodied response with the given status code.
    pub fn empty(status: u16) -> (r: HttpOutcome)
        ensures
            r.status == status,
            r.body@ == Seq::<char>::empty(),
    {
        HttpOutcome { status, body: String::new() }
    }
}

/// `GET /health_check`: always succeeds with an empty body, touches no
/// shared state, and does not depend on the store being reachable.
pub fn health_check() -> (r: HttpOutcome)
    ensures
        r.status == 200,
        r.body@ == Seq::<char>::empty(),
{
    HttpOutcome::empty(200)
}

/// The bytes of the method `GET`.
pub open spec fn get_method() -> Seq<u8> {
    seq![71u8, 69u8, 84u8]
}

/// The bytes of the method `POST`.
pub open spec fn post_method() -> Seq<u8> {
    seq![80u8, 79u8, 83u8, 84u8]
}

/// The bytes of the path `/health_check`.
pub open spec fn health_check_path() -> Seq<u8> {
    seq![47u8, 104u8, 101u8, 97u8, 108u8, 116u8, 104u8, 95u8, 99u8, 104u8, 101u8, 99u8, 107u8]
}

/// The bytes of the path `/subscriptions`.
pub open spec fn subscriptions_path() -> Seq<u8> {
    seq![
        47u8,
        115u8,
        117u8,
        98u8,
        115u8,
        99u8,
        114u8,
        105u8,
        112u8,
        116u8,
        105u8,
        111u8,
        110u8,
        115u8,
    ]
}

/// The two registered routes, and everything else.
#[derive(Clone, Copy, Debug, PartialEq, Eq, Structural)]
pub enum RouteTarget {
    /// `GET /health_check`.
    HealthCheck,
    /// `POST /subscriptions`.
    Subscriptions,
    /// Any other method or path; answered with 404.
    NotFound,
}

/// The route table: which handler a method and path reach.
pub open spec fn route_spec(method: Seq<u8>, path: Seq<u8>) -> RouteTarget {
    if method == get_method() && path == health_check_path() {
        RouteTarget::HealthCheck
    } else if method == post_method() && path == subscriptions_path() {
        RouteTarget::Subscriptions
    } else {
        RouteTarget::NotFound
    }
}

fn get_method_vec() -> (r: Vec<u8>)
    ensures
        r@ == get_method(),
{
    let mut v: Vec<u8> = Vec::new();
    v.push(71);
    v.push(69);
    v.push(84);
    proof {
        assert(v@ =~= get_method());
    }
    v
}

fn post_method_vec() -> (r: Vec<u8>)
    ensures
        r@ == post_method(),
{
    let mut v: Vec<u8> = Vec::new();
    v.push(80);
    v.push(79);
    v.push(83);
    v.push(84);
    proof {
        assert(v@ =~= post_method());
    }
    v
}

fn health_check_path_vec() -> (r: Vec<u8>)
    ensures
        r@ == health_check_path(),
{
    let mut v: Vec<u8> = Vec::new();
    v.push(47);
    v.push(104);
    v.push(101);
    v.push(97);
    v.push(108);
    v.push(116);
    v.push(104);
    v.push(95);
    v.push(99);
    v.push(104);
    v.push(101);
    v.push(99);
    v.push(107);
    proof {
        assert(v@ =~= health_check_path());
    }
    v
}

fn subscriptions_path_vec() -> (r: Vec<u8>)
    ensures
        r@ == subscriptions_path(),
{
    let mut v: Vec<u8> = Vec::new();
    v.push(47);
    v.push(115);
    v.push(117);
    v.push(98);
    v.push(115);
    v.push(99);
    v.push(114);
    v.push(105);
    v.push(112);
    v.push(116);
    v.push(105);
    v.push(111);
    v.push(110);
    v.push(115);
    proof {
        assert(v@ =~= subscriptions_path());
    }
    v
}

/// Resolves a method and path against the route table.
pub fn route(method: &Vec<u8>, path: &Vec<u8>) -> (r: RouteTarget)
    ensures
        r == route_spec(method@, path@),
{
    let get_m = get_method_vec();
    let health_p = health_check_path_vec();
    if crate::form::bytes_eq(method, &get_m) && crate::form::bytes_eq(path, &health_p) {
        return RouteTarget::HealthCheck;
    }
    let post_m = post_method_vec();
    let subs_p = subscriptions_path_vec();
    if crate::form::bytes_eq(method, &post_m) && crate::form::bytes_eq(path, &subs_p) {
        return RouteTarget::Subscriptions;
    }
    RouteTarget::NotFound
}

} // verus!
