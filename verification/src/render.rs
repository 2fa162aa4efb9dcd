//! Human-readable rendering of deny reasons and admission messages.

use vstd::prelude::*;

use crate::objects::{view_seq, HttpRoute, HttpRouteView};
use crate::status::{DenyReason, DenyReasonView, Parted, Status, StatusView};
use crate::strings::str_eq;

verus! {

/// The decimal digit for one value below ten.
pub open spec fn spec_digit(d: int) -> char {
    if d == 0 {
        '0'
    } else if d == 1 {
        '1'
    } else if d == 2 {
        '2'
    } else if d == 3 {
        '3'
    } else if d == 4 {
        '4'
    } else if d == 5 {
        '5'
    } else if d == 6 {
        '6'
    } else if d == 7 {
        '7'
    } else if d == 8 {
        '8'
    } else {
        '9'
    }
}

/// The decimal rendering of a non-negative number.
pub open spec fn spec_decimal(n: int) -> Seq<char>
    decreases n,
{
    if n < 10 {
        seq![spec_digit(n)]
    } else {
        spec_decimal(n / 10) + seq![spec_digit(n % 10)]
    }
}

/// One decimal digit as a string.
fn digit_string(d: usize) -> (r: String)
    requires
        d < 10,
    ensures
        r@ == seq![spec_digit(d as int)],
{
    let s: &'static str = if d == 0 {
        "0"
    } else if d == 1 {
        "1"
    } else if d == 2 {
        "2"
    } else if d == 3 {
        "3"
    } else if d == 4 {
        "4"
    } else if d == 5 {
        "5"
    } else if d == 6 {
        "6"
    } else if d == 7 {
        "7"
    } else if d == 8 {
        "8"
    } else {
        "9"
    };
    proof {
        reveal_strlit("0");
        reveal_strlit("1");
        reveal_strlit("2");
        reveal_strlit("3");
        reveal_strlit("4");
        reveal_strlit("5");
        reveal_strlit("6");
        reveal_strlit("7");
        reveal_strlit("8");
        reveal_strlit("9");
        assert(s@ =~= seq![spec_digit(d as int)]);
    }
    s.to_owned()
}

/// Renders a number in decimal.
pub fn decimal_string(n: usize) -> (r: String)
    ensures
        r@ == spec_decimal(n as int),
    decreases n,
{
    if n < 10 {
        digit_string(n)
    } else {
        let high = decimal_string(n / 10);
        let low = digit_string(n % 10);
        let r = high.concat(low.as_str());
        proof {
            assert(r@ =~= spec_decimal(n as int));
        }
        r
    }
}

/// Lines joined by a newline, in the order given.
pub open spec fn spec_join_lines(lines: Seq<Seq<char>>) -> Seq<char>
    decreases lines.len(),
{
    if lines.len() == 0 {
        Seq::<char>::empty()
    } else if lines.len() == 1 {
        lines[0]
    } else {
        spec_join_lines(lines.drop_last()) + seq!['\n'] + lines.last()
    }
}

/// Joins string lines with newlines.
pub fn join_lines(lines: &Vec<String>) -> (r: String)
    ensures
        r@ == spec_join_lines(view_seq(lines@)),
{
    let ghost lv = view_seq(lines@);
    let mut r = String::new();
    if lines.len() == 0 {
        proof {
            assert(r@ =~= spec_join_lines(lv));
        }
        return r;
    }
    let mut r = lines[0].clone();
    let mut i: usize = 1;
    proof {
        assert(lv.take(1) =~= seq![lv[0]]);
        assert(r@ == spec_join_lines(lv.take(1)));
    }
    while i < lines.len()
        invariant
            1 <= i <= lines@.len(),
            lv == view_seq(lines@),
            r@ == spec_join_lines(lv.take(i as int)),
        decreases lines@.len() - i,
    {
        r.append("\n");
        r.append(lines[i].as_str());
        proof {
            reveal_strlit("\n");
            assert("\n"@ =~= seq!['\n']);
            assert(lv.take(i as int + 1).drop_last() =~= lv.take(i as int));
            assert(lv.take(i as int + 1).last() == lines@[i as int]@);
            assert(r@ =~= spec_join_lines(lv.take(i as int + 1)));
        }
        i += 1;
    }
    proof {
        assert(lv.take(lv.len() as int) =~= lv);
    }
    r
}

/// The identity a route is listed under: its name and namespace.
pub open spec fn spec_route_key(rt: HttpRouteView) -> (Option<Seq<char>>, Option<Seq<char>>) {
    (rt.metadata.name, rt.metadata.namespace)
}

/// The routes of a list with duplicate identities removed, first
/// occurrences kept in order.
pub open spec fn spec_unique_routes(rs: Seq<HttpRouteView>) -> Seq<HttpRouteView>
    decreases rs.len(),
{
    if rs.len() == 0 {
        Seq::<HttpRouteView>::empty()
    } else {
        let r = spec_unique_routes(rs.drop_last());
        if r.map_values(|x: HttpRouteView| spec_route_key(x)).contains(
            spec_route_key(rs.last()),
        ) {
            r
        } else {
            r.push(rs.last())
        }
    }
}

/// All substantive routes of a Gateway audit, in listener order.
pub open spec fn spec_all_bad_routes(
    pl: Seq<(crate::objects::ListenerView, Parted<Seq<HttpRouteView>>)>,
) -> Seq<HttpRouteView>
    decreases pl.len(),
{
    if pl.len() == 0 {
        Seq::<HttpRouteView>::empty()
    } else {
        spec_all_bad_routes(pl.drop_last()) + pl.last().1.bad
    }
}

/// The `namespace/name` line of one object, with `CLUSTERED` standing in
/// for an absent namespace and nothing for an absent name.
pub open spec fn spec_ns_name_line(
    ns: Option<Seq<char>>,
    name: Option<Seq<char>>,
) -> Seq<char> {
    let nss = match ns {
        Some(s) => s,
        None => "CLUSTERED"@,
    };
    let names = match name {
        Some(s) => s,
        None => Seq::<char>::empty(),
    };
    nss + "/"@ + names
}

/// Builds the `namespace/name` line of one object.
fn ns_name_line(ns: &Option<String>, name: &Option<String>) -> (r: String)
    ensures
        r@ == spec_ns_name_line(crate::objects::view_opt(*ns), crate::objects::view_opt(*name)),
{
    let mut r = match ns {
        Some(s) => s.clone(),
        None => String::from_str("CLUSTERED"),
    };
    r.append("/");
    match name {
        Some(s) => {
            r.append(s.as_str());
        },
        None => {},
    }
    proof {
        assert(r@ =~= spec_ns_name_line(
            crate::objects::view_opt(*ns),
            crate::objects::view_opt(*name),
        ));
    }
    r
}

/// Whether two optional strings agree character for character.
fn opt_str_eq(a: &Option<String>, b: &Option<String>) -> (r: bool)
    ensures
        r == (crate::objects::view_opt(*a) == crate::objects::view_opt(*b)),
{
    match (a, b) {
        (Some(x), Some(y)) => str_eq(x.as_str(), y.as_str()),
        (None, None) => true,
        _ => false,
    }
}

/// Whether a collected route list already lists this identity.
fn key_seen(seen: &Vec<HttpRoute>, rt: &HttpRoute) -> (r: bool)
    ensures
        r == view_seq(seen@).map_values(|x: HttpRouteView| spec_route_key(x)).contains(
            spec_route_key(rt@),
        ),
{
    let ghost keys = view_seq(seen@).map_values(|x: HttpRouteView| spec_route_key(x));
    let mut i: usize = 0;
    while i < seen.len()
        invariant
            i <= seen@.len(),
            keys == view_seq(seen@).map_values(|x: HttpRouteView| spec_route_key(x)),
            forall|j: int| 0 <= j < i ==> keys[j] != spec_route_key(rt@),
        decreases seen@.len() - i,
    {
        let same = opt_str_eq(&seen[i].metadata.name, &rt.metadata.name) && opt_str_eq(
            &seen[i].metadata.namespace,
            &rt.metadata.namespace,
        );
        proof {
            assert(keys[i as int] == spec_route_key(seen@[i as int]@));
        }
        if same {
            return true;
        }
        i += 1;
    }
    false
}

/// Collects each offending route once, in order of first appearance.
fn unique_bad_routes(payload: &Vec<(crate::objects::Listener, Parted<Vec<HttpRoute>>)>) -> (r:
    Vec<HttpRoute>)
    ensures
        view_seq(r@) == spec_unique_routes(
            spec_all_bad_routes(crate::status::view_listener_parted(payload@)),
        ),
{
    let ghost pl = crate::status::view_listener_parted(payload@);
    let mut all: Vec<HttpRoute> = Vec::new();
    let mut i: usize = 0;
    proof {
        assert(pl.take(0) =~= Seq::<
            (crate::objects::ListenerView, Parted<Seq<HttpRouteView>>),
        >::empty());
        assert(view_seq(all@) =~= Seq::<HttpRouteView>::empty());
    }
    while i < payload.len()
        invariant
            i <= payload@.len(),
            pl == crate::status::view_listener_parted(payload@),
            view_seq(all@) == spec_all_bad_routes(pl.take(i as int)),
        decreases payload@.len() - i,
    {
        proof {
            assert(pl.take(i as int + 1).drop_last() =~= pl.take(i as int));
            assert(pl.take(i as int + 1).last() == pl[i as int]);
            assert(pl[i as int].1.bad == view_seq(payload@[i as int].1.bad@));
        }
        let bad = &payload[i].1.bad;
        let ghost base = view_seq(all@);
        let ghost badv = view_seq(bad@);
        let mut j: usize = 0;
        while j < bad.len()
            invariant
                j <= bad@.len(),
                badv == view_seq(bad@),
                view_seq(all@) == base + badv.take(j as int),
            decreases bad@.len() - j,
        {
            let ghost old_all = view_seq(all@);
            all.push(bad[j].clone());
            proof {
                assert(view_seq(all@) =~= old_all.push(bad@[j as int]@));
                assert(base + badv.take(j as int + 1) =~= (base + badv.take(j as int)).push(
                    badv[j as int],
                ));
            }
            j += 1;
        }
        proof {
            assert(badv.take(badv.len() as int) =~= badv);
            assert(view_seq(all@) =~= spec_all_bad_routes(pl.take(i as int + 1)));
        }
        i += 1;
    }
    proof {
        assert(pl.take(pl.len() as int) =~= pl);
    }
    let ghost allv = view_seq(all@);
    let mut out: Vec<HttpRoute> = Vec::new();
    let mut k: usize = 0;
    proof {
        assert(allv.take(0) =~= Seq::<HttpRouteView>::empty());
        assert(view_seq(out@) =~= Seq::<HttpRouteView>::empty());
    }
    while k < all.len()
        invariant
            k <= all@.len(),
            allv == view_seq(all@),
            view_seq(out@) == spec_unique_routes(allv.take(k as int)),
        decreases all@.len() - k,
    {
        proof {
            assert(allv.take(k as int + 1).drop_last() =~= allv.take(k as int));
            assert(allv.take(k as int + 1).last() == all@[k as int]@);
        }
        if !key_seen(&out, &all[k]) {
            let ghost old_out = view_seq(out@);
            out.push(all[k].clone());
            proof {
                assert(view_seq(out@) =~= old_out.push(all@[k as int]@));
            }
        }
        k += 1;
    }
    proof {
        assert(allv.take(allv.len() as int) =~= allv);
    }
    out
}

/// The text a deny reason renders to.
pub open spec fn spec_deny_message(d: DenyReasonView) -> Seq<char> {
    match d {
        DenyReasonView::InternalError(e) => "Internal Error occurred.\n"@ + e,
        DenyReasonView::IngressNoTLS => "The Ingress does not contain a TLS configuration."@,
        DenyReasonView::GatewayNoTLSListener => (
        "The Gateway does not contain a TLS configuration."@),
        DenyReasonView::GatewayNonRedirectHTTPRouteAttachedToHTTPListener(pl) => {
            let routes = spec_unique_routes(spec_all_bad_routes(pl));
            "There are "@ + spec_decimal(routes.len() as int)
                + " non-redirect HTTPRoutes (listed below) attaching to HTTP listeners of this Gateway.\n"@
                + spec_join_lines(
                routes.map_values(
                    |rt: HttpRouteView| spec_ns_name_line(rt.metadata.namespace, rt.metadata.name),
                ),
            )
        },
        DenyReasonView::HTTPRouteNonRedirectAttachedToHTTPListener(pairs) => (
        "This non-redirect HTTPRoute is attaching to HTTP listeners of Gateways: "@
            + spec_join_lines(
            pairs.map_values(
                |p: (crate::objects::ParentRefView, crate::status::GatewayListenerPairView)|
                    spec_ns_name_line(
                        p.1.gateway.metadata.namespace,
                        p.1.gateway.metadata.name,
                    ),
            ),
        )),
        DenyReasonView::CannotInferenceMutation => (
        "There is not enough information to make the mutation"@),
    }
}

impl DenyReason {
    /// Renders this reason as its user-visible message.
    pub fn message(&self) -> (r: String)
        ensures
            r@ == spec_deny_message(self@),
    {
        match self {
            DenyReason::InternalError(e) => {
                let mut r = String::from_str("Internal Error occurred.\n");
                r.append(e.as_str());
                r
            },
            DenyReason::IngressNoTLS => String::from_str(
                "The Ingress does not contain a TLS configuration.",
            ),
            DenyReason::GatewayNoTLSListener => String::from_str(
                "The Gateway does not contain a TLS configuration.",
            ),
            DenyReason::GatewayNonRedirectHTTPRouteAttachedToHTTPListener(payload) => {
                let routes = unique_bad_routes(payload);
                let mut lines: Vec<String> = Vec::new();
                let ghost rv = view_seq(routes@);
                let mut i: usize = 0;
                while i < routes.len()
                    invariant
                        i <= routes@.len(),
                        rv == view_seq(routes@),
                        view_seq(lines@) =~= rv.take(i as int).map_values(
                            |rt: HttpRouteView| spec_ns_name_line(
                                rt.metadata.namespace,
                                rt.metadata.name,
                            ),
                        ),
                    decreases routes@.len() - i,
                {
                    let ghost old_lines = view_seq(lines@);
                    lines.push(
                        ns_name_line(&routes[i].metadata.namespace, &routes[i].metadata.name),
                    );
                    proof {
                        let f = |rt: HttpRouteView| spec_ns_name_line(
                            rt.metadata.namespace,
                            rt.metadata.name,
                        );
                        assert(view_seq(lines@) =~= old_lines.push(f(rv[i as int])));
                        assert(rv.take(i as int + 1).map_values(f) =~= rv.take(
                            i as int,
                        ).map_values(f).push(f(rv[i as int])));
                    }
                    i += 1;
                }
                proof {
                    assert(rv.take(rv.len() as int) =~= rv);
                }
                let mut r = String::from_str("There are ");
                let count = decimal_string(routes.len());
                r.append(count.as_str());
                r.append(
                    " non-redirect HTTPRoutes (listed below) attaching to HTTP listeners of this Gateway.\n",
                );
                let joined = join_lines(&lines);
                r.append(joined.as_str());
                r
            },
            DenyReason::HTTPRouteNonRedirectAttachedToHTTPListener(pairs) => {
                let ghost pv = crate::status::view_ref_pairs(pairs@);
                let mut lines: Vec<String> = Vec::new();
                let mut i: usize = 0;
                while i < pairs.len()
                    invariant
                        i <= pairs@.len(),
                        pv == crate::status::view_ref_pairs(pairs@),
                        view_seq(lines@) =~= pv.take(i as int).map_values(
                            |p: (
                                crate::objects::ParentRefView,
                                crate::status::GatewayListenerPairView,
                            )| spec_ns_name_line(
                                p.1.gateway.metadata.namespace,
                                p.1.gateway.metadata.name,
                            ),
                        ),
                    decreases pairs@.len() - i,
                {
                    let g = &pairs[i].1.gateway;
                    let ghost old_lines = view_seq(lines@);
                    lines.push(ns_name_line(&g.metadata.namespace, &g.metadata.name));
                    proof {
                        let f = |p: (
                            crate::objects::ParentRefView,
                            crate::status::GatewayListenerPairView,
                        )| spec_ns_name_line(
                            p.1.gateway.metadata.namespace,
                            p.1.gateway.metadata.name,
                        );
                        assert(pv[i as int] == (pairs@[i as int].0@, pairs@[i as int].1@));
                        assert(view_seq(lines@) =~= old_lines.push(f(pv[i as int])));
                        assert(pv.take(i as int + 1).map_values(f) =~= pv.take(
                            i as int,
                        ).map_values(f).push(f(pv[i as int])));
                    }
                    i += 1;
                }
                proof {
                    assert(pv.take(pv.len() as int) =~= pv);
                }
                let mut r = String::from_str(
                    "This non-redirect HTTPRoute is attaching to HTTP listeners of Gateways: ",
                );
                let joined = join_lines(&lines);
                r.append(joined.as_str());
                r
            },
            DenyReason::CannotInferenceMutation => String::from_str(
                "There is not enough information to make the mutation",
            ),
        }
    }
}

/// The full admission message: `namespace/name: text`.
pub open spec fn spec_admission_message(
    ns: Seq<char>,
    name: Seq<char>,
    text: Seq<char>,
) -> Seq<char> {
    ns + "/"@ + name + ": "@ + text
}

/// Builds the full admission message of a denial.
pub fn admission_message(ns: &str, name: &str, text: &str) -> (r: String)
    ensures
        r@ == spec_admission_message(ns@, name@, text@),
{
    let mut r = ns.to_owned();
    r.append("/");
    r.append(name);
    r.append(": ");
    r.append(text);
    r
}

impl<P: View> Status<P> {
    /// The message a non-allowing decision reports, if any: denials render
    /// their reason, invalid inputs their diagnosis.
    pub fn deny_text(&self) -> (r: Option<String>)
        ensures
            match self@ {
                StatusView::Denied(d) => r is Some && r->Some_0@ == spec_deny_message(d),
                StatusView::Invalid(m) => r is Some && r->Some_0@ == m,
                _ => r is None,
            },
    {
        match self {
            Status::Denied(d) => Some(d.message()),
            Status::Invalid(m) => Some(m.clone()),
            _ => None,
        }
    }
}

} // verus!
