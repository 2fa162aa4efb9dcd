//! The attachment resolver: which HTTPRoutes attach to which Gateway
//! listeners, through parent references, allowed-namespace policies and
//! label selectors.

use vstd::prelude::*;

use crate::classifier::{is_redirect_or_no_rule, spec_is_redirect_or_no_rule};
use crate::objects::{
    view_seq, Cluster, ClusterView, Gateway, GatewayView, HttpRoute, HttpRouteView,
    LabelSelectorView, Listener, ListenerView, NamespaceInfo, NamespaceInfoView, NamespacesFrom,
    ParentRef, ParentRefView, RouteNamespacesView,
};
use crate::selector::{
    filter_namespaces, selector_of_expression, spec_filter_namespaces, spec_selector_of_expression,
    Namespaces, NamespacesView, SelectorByLabel, SelectorByLabelView,
};
use crate::status::{GatewayListenerPair, GatewayListenerPairView, Parted};
use crate::strings::str_eq;

verus! {

/// An optional name, or the given default.
pub open spec fn spec_name_or(o: Option<Seq<char>>, d: Seq<char>) -> Seq<char> {
    match o {
        Some(n) => n,
        None => d,
    }
}

/// Whether a parent reference designates this listener of this Gateway: the
/// kind must be `Gateway`, name and namespace must agree (the route's own
/// namespace is the default), and section name and port, where given, must
/// match the listener.
pub open spec fn spec_parentref_matches(
    p: ParentRefView,
    l: ListenerView,
    gn: Seq<char>,
    gns: Seq<char>,
    hns: Seq<char>,
) -> bool {
    &&& p.kind == Some("Gateway"@)
    &&& p.name == gn
    &&& spec_name_or(p.namespace, hns) == gns
    &&& (p.section_name is None || p.section_name == Some(l.name))
    &&& (p.port is None || p.port == Some(l.port as int))
}

/// Decides whether a parent reference designates a listener.
pub fn does_parentref_listener_match(
    p: &ParentRef,
    l: &Listener,
    gn: &str,
    gns: &str,
    hns: &str,
) -> (r: bool)
    ensures
        r == spec_parentref_matches(p@, l@, gn@, gns@, hns@),
{
    let kind_ok = match &p.kind {
        Some(k) => str_eq(k.as_str(), "Gateway"),
        None => false,
    };
    let name_ok = str_eq(p.name.as_str(), gn);
    let ns_ok = match &p.namespace {
        Some(ns) => str_eq(ns.as_str(), gns),
        None => str_eq(hns, gns),
    };
    let section_ok = match &p.section_name {
        Some(sn) => str_eq(sn.as_str(), l.name.as_str()),
        None => true,
    };
    let port_ok = match p.port {
        Some(pp) => pp == l.port,
        None => true,
    };
    kind_ok && name_ok && ns_ok && section_ok && port_ok
}

/// The requirements of a selector's `matchExpressions`, converted in order;
/// the first malformed entry is the error.
pub open spec fn spec_convert_expressions(es: Seq<crate::objects::MatchExpressionView>) -> Result<
    Seq<SelectorByLabelView>,
    Seq<char>,
>
    decreases es.len(),
{
    if es.len() == 0 {
        Ok(Seq::<SelectorByLabelView>::empty())
    } else {
        match spec_convert_expressions(es.drop_last()) {
            Err(e) => Err(e),
            Ok(r) => match spec_selector_of_expression(es.last()) {
                Err(e) => Err(e),
                Ok(s) => Ok(r.push(s)),
            },
        }
    }
}

/// The full requirement list of a selector: converted `matchExpressions`
/// first, then each `matchLabels` entry as an equality requirement.
pub open spec fn spec_selectors_of(s: LabelSelectorView) -> Result<
    Seq<SelectorByLabelView>,
    Seq<char>,
> {
    let exprs = match s.match_expressions {
        Some(es) => es,
        None => Seq::<crate::objects::MatchExpressionView>::empty(),
    };
    let labels = match s.match_labels {
        Some(ls) => ls.map_values(
            |p: (Seq<char>, Seq<char>)| SelectorByLabelView::Is(p.0, p.1),
        ),
        None => Seq::<SelectorByLabelView>::empty(),
    };
    match spec_convert_expressions(exprs) {
        Err(e) => Err(e),
        Ok(cs) => Ok(cs + labels),
    }
}

/// Builds the requirement list of a selector.
pub fn selectors_of(s: &crate::objects::LabelSelector) -> (r: Result<Vec<SelectorByLabel>, String>)
    ensures
        match r {
            Ok(v) => spec_selectors_of(s@) == Ok::<Seq<SelectorByLabelView>, Seq<char>>(
                view_seq(v@),
            ),
            Err(e) => spec_selectors_of(s@) == Err::<Seq<SelectorByLabelView>, Seq<char>>(e@),
        },
{
    let mut out: Vec<SelectorByLabel> = Vec::new();
    let ghost exprs = match s@.match_expressions {
        Some(es) => es,
        None => Seq::<crate::objects::MatchExpressionView>::empty(),
    };
    match &s.match_expressions {
        Some(es) => {
            let mut i: usize = 0;
            proof {
                assert(exprs.take(0) =~= Seq::<crate::objects::MatchExpressionView>::empty());
                assert(view_seq(out@) =~= Seq::<SelectorByLabelView>::empty());
            }
            while i < es.len()
                invariant
                    i <= es@.len(),
                    exprs == view_seq(es@),
                    s@.match_expressions == Some(exprs),
                    spec_convert_expressions(exprs.take(i as int)) == Ok::<
                        Seq<SelectorByLabelView>,
                        Seq<char>,
                    >(view_seq(out@)),
                decreases es@.len() - i,
            {
                proof {
                    assert(exprs.take(i as int + 1).drop_last() =~= exprs.take(i as int));
                    assert(exprs.take(i as int + 1).last() == es@[i as int]@);
                }
                match selector_of_expression(&es[i]) {
                    Ok(sel) => {
                        let ghost old_out = view_seq(out@);
                        out.push(sel);
                        proof {
                            assert(view_seq(out@) =~= old_out.push(out@.last()@));
                        }
                    },
                    Err(e) => {
                        proof {
                            assert(exprs[i as int] == es@[i as int]@);
                            lemma_convert_expressions_error(exprs, i as int);
                            assert(spec_convert_expressions(exprs) == Err::<
                                Seq<SelectorByLabelView>,
                                Seq<char>,
                            >(e@));
                            assert(s@.match_expressions == Some(exprs));
                            assert(spec_selectors_of(s@) == Err::<
                                Seq<SelectorByLabelView>,
                                Seq<char>,
                            >(e@));
                        }
                        return Err(e);
                    },
                }
                i += 1;
            }
            proof {
                assert(exprs.take(exprs.len() as int) =~= exprs);
            }
        },
        None => {
            proof {
                assert(view_seq(out@) =~= Seq::<SelectorByLabelView>::empty());
            }
        },
    }
    let ghost converted = view_seq(out@);
    let ghost labels = match s@.match_labels {
        Some(ls) => ls.map_values(
            |p: (Seq<char>, Seq<char>)| SelectorByLabelView::Is(p.0, p.1),
        ),
        None => Seq::<SelectorByLabelView>::empty(),
    };
    match &s.match_labels {
        Some(ls) => {
            let mut i: usize = 0;
            while i < ls.len()
                invariant
                    i <= ls@.len(),
                    labels == crate::objects::view_pairs(ls@).map_values(
                        |p: (Seq<char>, Seq<char>)| SelectorByLabelView::Is(p.0, p.1),
                    ),
                    view_seq(out@) == converted + labels.take(i as int),
                decreases ls@.len() - i,
            {
                let ghost old_out = view_seq(out@);
                let p = &ls[i];
                out.push(SelectorByLabel::Is(p.0.clone(), p.1.clone()));
                proof {
                    assert(labels[i as int] == SelectorByLabelView::Is(
                        ls@[i as int].0@,
                        ls@[i as int].1@,
                    ));
                    assert(view_seq(out@) =~= old_out.push(labels[i as int]));
                    assert(converted + labels.take(i as int + 1) =~= (converted + labels.take(
                        i as int,
                    )).push(labels[i as int]));
                }
                i += 1;
            }
            proof {
                assert(labels.take(labels.len() as int) =~= labels);
            }
        },
        None => {
            proof {
                assert(view_seq(out@) =~= converted + labels);
            }
        },
    }
    Ok(out)
}

/// A prefix error decides the conversion of the whole expression list.
proof fn lemma_convert_expressions_error(es: Seq<crate::objects::MatchExpressionView>, i: int)
    requires
        0 <= i < es.len(),
        spec_convert_expressions(es.take(i)) is Ok,
        spec_selector_of_expression(es[i]) is Err,
    ensures
        spec_convert_expressions(es) == Err::<Seq<SelectorByLabelView>, Seq<char>>(
            spec_selector_of_expression(es[i])->Err_0,
        ),
    decreases es.len(),
{
    if es.len() == i + 1 {
        assert(es.drop_last() =~= es.take(i));
        assert(es.last() == es[i]);
    } else {
        assert(es.drop_last().take(i) =~= es.take(i));
        assert(es.drop_last()[i] == es[i]);
        lemma_convert_expressions_error(es.drop_last(), i);
    }
}

/// The namespaces a listener accepts routes from, resolved against the
/// namespace snapshot.  `None` means the listener carries a selector policy
/// without a selector and is not audited.
pub open spec fn spec_listener_namespaces(
    l: ListenerView,
    gns: Seq<char>,
    nss: Seq<NamespaceInfoView>,
) -> Option<Result<NamespacesView, Seq<char>>> {
    let block = match l.allowed_routes {
        Some(ar) => ar.namespaces,
        None => None,
    };
    let sel = match block {
        Some(b) => b,
        None => RouteNamespacesView { from: Some(NamespacesFrom::Same), selector: None },
    };
    match sel.from {
        Some(NamespacesFrom::All) => Some(Ok(NamespacesView::All)),
        Some(NamespacesFrom::Selector) => match sel.selector {
            None => None,
            Some(s) => match spec_selectors_of(s) {
                Err(e) => Some(Err(e)),
                Ok(cs) => Some(Ok(NamespacesView::These(spec_filter_namespaces(cs, nss)))),
            },
        },
        Some(NamespacesFrom::Same) => Some(Ok(NamespacesView::These(seq![gns]))),
        None => Some(Ok(NamespacesView::These(seq![gns]))),
    }
}

/// Resolves the allowed namespaces of one listener.
pub fn listener_namespaces(l: &Listener, gns: &str, nss: &Vec<NamespaceInfo>) -> (r: Option<
    Result<Namespaces, String>,
>)
    ensures
        match r {
            None => spec_listener_namespaces(l@, gns@, view_seq(nss@)) is None,
            Some(Ok(n)) => spec_listener_namespaces(l@, gns@, view_seq(nss@)) == Some(Ok::<
                NamespacesView,
                Seq<char>,
            >(n@)),
            Some(Err(e)) => spec_listener_namespaces(l@, gns@, view_seq(nss@)) == Some(Err::<
                NamespacesView,
                Seq<char>,
            >(e@)),
        },
{
    match &l.allowed_routes {
        Some(ar) => match &ar.namespaces {
            Some(b) => match b.from {
                Some(NamespacesFrom::All) => Some(Ok(Namespaces::All)),
                Some(NamespacesFrom::Selector) => match &b.selector {
                    None => None,
                    Some(s) => match selectors_of(s) {
                        Err(e) => Some(Err(e)),
                        Ok(cs) => {
                            let names = filter_namespaces(&cs, nss);
                            Some(Ok(Namespaces::These(names)))
                        },
                    },
                },
                Some(NamespacesFrom::Same) => Some(Ok(same_namespace(gns))),
                None => Some(Ok(same_namespace(gns))),
            },
            None => Some(Ok(same_namespace(gns))),
        },
        None => Some(Ok(same_namespace(gns))),
    }
}

/// The singleton namespace list holding the Gateway's own namespace.
fn same_namespace(gns: &str) -> (r: Namespaces)
    ensures
        r@ == NamespacesView::These(seq![gns@]),
{
    let r = Namespaces::These(vec![gns.to_owned()]);
    proof {
        match r@ {
            NamespacesView::These(v) => {
                assert(v =~= seq![gns@]);
            },
            _ => {},
        }
    }
    r
}

} // verus!

verus! {

/// Whether a route's namespace is in the allowed set.
pub open spec fn spec_ns_allowed(nsv: NamespacesView, ns: Option<Seq<char>>) -> bool {
    match nsv {
        NamespacesView::All => true,
        NamespacesView::These(names) => match ns {
            Some(n) => names.contains(n),
            None => false,
        },
    }
}

/// The routes of the snapshot that live in the allowed namespaces, in
/// snapshot order.
pub open spec fn spec_routes_in(nsv: NamespacesView, routes: Seq<HttpRouteView>) -> Seq<
    HttpRouteView,
>
    decreases routes.len(),
{
    if routes.len() == 0 {
        Seq::<HttpRouteView>::empty()
    } else {
        let r = spec_routes_in(nsv, routes.drop_last());
        if spec_ns_allowed(nsv, routes.last().metadata.namespace) {
            r.push(routes.last())
        } else {
            r
        }
    }
}

/// Restricts the route snapshot to the allowed namespaces.
pub fn get_httproutes(namespaces: &Namespaces, routes: &Vec<HttpRoute>) -> (r: Vec<HttpRoute>)
    ensures
        view_seq(r@) == spec_routes_in(namespaces@, view_seq(routes@)),
{
    let mut r: Vec<HttpRoute> = Vec::new();
    let mut i: usize = 0;
    proof {
        assert(view_seq(routes@).take(0) =~= Seq::<HttpRouteView>::empty());
        assert(view_seq(r@) =~= Seq::<HttpRouteView>::empty());
    }
    while i < routes.len()
        invariant
            i <= routes@.len(),
            view_seq(r@) == spec_routes_in(namespaces@, view_seq(routes@).take(i as int)),
        decreases routes@.len() - i,
    {
        let ghost pre = view_seq(routes@).take(i as int);
        proof {
            assert(view_seq(routes@).take(i as int + 1).drop_last() =~= pre);
            assert(view_seq(routes@).take(i as int + 1).last() == routes@[i as int]@);
        }
        let allowed = match namespaces {
            Namespaces::All => true,
            Namespaces::These(names) => match &routes[i].metadata.namespace {
                Some(n) => crate::strings::contains_string(names, n.as_str()),
                None => false,
            },
        };
        if allowed {
            let ghost old_r = view_seq(r@);
            r.push(routes[i].clone());
            proof {
                assert(view_seq(r@) =~= old_r.push(routes@[i as int]@));
            }
        }
        i += 1;
    }
    proof {
        assert(view_seq(routes@).take(routes@.len() as int) =~= view_seq(routes@));
    }
    r
}

/// Whether a route is attached to a listener: it has a namespace, it has
/// parent references, and every one of them designates the listener.
pub open spec fn spec_route_attached(
    l: ListenerView,
    gn: Seq<char>,
    gns: Seq<char>,
    rt: HttpRouteView,
) -> bool {
    &&& rt.metadata.namespace is Some
    &&& rt.spec.parent_refs is Some
    &&& forall|i: int|
        0 <= i < rt.spec.parent_refs->Some_0.len() ==> spec_parentref_matches(
            rt.spec.parent_refs->Some_0[i],
            l,
            gn,
            gns,
            rt.metadata.namespace->Some_0,
        )
}

/// The routes of a list that are attached to a listener, in order.
pub open spec fn spec_attached_filter(
    l: ListenerView,
    gn: Seq<char>,
    gns: Seq<char>,
    routes: Seq<HttpRouteView>,
) -> Seq<HttpRouteView>
    decreases routes.len(),
{
    if routes.len() == 0 {
        Seq::<HttpRouteView>::empty()
    } else {
        let r = spec_attached_filter(l, gn, gns, routes.drop_last());
        if spec_route_attached(l, gn, gns, routes.last()) {
            r.push(routes.last())
        } else {
            r
        }
    }
}

/// Decides whether one route is attached to a listener.
fn route_attached(l: &Listener, gn: &str, gns: &str, rt: &HttpRoute) -> (r: bool)
    ensures
        r == spec_route_attached(l@, gn@, gns@, rt@),
{
    match (&rt.metadata.namespace, &rt.spec.parent_refs) {
        (Some(hns), Some(prs)) => {
            let mut i: usize = 0;
            while i < prs.len()
                invariant
                    i <= prs@.len(),
                    rt@.metadata.namespace == Some(hns@),
                    rt@.spec.parent_refs == Some(view_seq(prs@)),
                    forall|j: int|
                        0 <= j < i ==> spec_parentref_matches(
                            view_seq(prs@)[j],
                            l@,
                            gn@,
                            gns@,
                            hns@,
                        ),
                decreases prs@.len() - i,
            {
                if !does_parentref_listener_match(&prs[i], l, gn, gns, hns.as_str()) {
                    proof {
                        assert(view_seq(prs@)[i as int] == prs@[i as int]@);
                        assert(rt@.spec.parent_refs->Some_0[i as int] == view_seq(prs@)[
                            i as int
                        ]);
                        assert(!spec_parentref_matches(
                            rt@.spec.parent_refs->Some_0[i as int],
                            l@,
                            gn@,
                            gns@,
                            rt@.metadata.namespace->Some_0,
                        ));
                        assert(!spec_route_attached(l@, gn@, gns@, rt@));
                    }
                    return false;
                }
                proof {
                    assert(view_seq(prs@)[i as int] == prs@[i as int]@);
                }
                i += 1;
            }
            true
        },
        _ => false,
    }
}

/// The routes attached to a listener, resolved against the cluster:
/// namespaces first, then the parent-reference test.
pub open spec fn spec_routes_for_listener(
    l: ListenerView,
    gn: Seq<char>,
    gns: Seq<char>,
    c: ClusterView,
) -> Option<Result<Seq<HttpRouteView>, Seq<char>>> {
    match spec_listener_namespaces(l, gns, c.namespaces) {
        None => None,
        Some(Err(e)) => Some(Err(e)),
        Some(Ok(nsv)) => Some(
            Ok(spec_attached_filter(l, gn, gns, spec_routes_in(nsv, c.httproutes))),
        ),
    }
}

/// Collects the routes attached to one listener.
pub fn get_httproutes_for_listener(l: &Listener, gn: &str, gns: &str, c: &Cluster) -> (r: Option<
    Result<Vec<HttpRoute>, String>,
>)
    ensures
        match r {
            None => spec_routes_for_listener(l@, gn@, gns@, c@) is None,
            Some(Ok(v)) => spec_routes_for_listener(l@, gn@, gns@, c@) == Some(Ok::<
                Seq<HttpRouteView>,
                Seq<char>,
            >(view_seq(v@))),
            Some(Err(e)) => spec_routes_for_listener(l@, gn@, gns@, c@) == Some(Err::<
                Seq<HttpRouteView>,
                Seq<char>,
            >(e@)),
        },
{
    match listener_namespaces(l, gns, &c.namespaces) {
        None => None,
        Some(Err(e)) => Some(Err(e)),
        Some(Ok(nsv)) => {
            let in_ns = get_httproutes(&nsv, &c.httproutes);
            let mut out: Vec<HttpRoute> = Vec::new();
            let ghost candidates = view_seq(in_ns@);
            let mut i: usize = 0;
            proof {
                assert(candidates.take(0) =~= Seq::<HttpRouteView>::empty());
                assert(view_seq(out@) =~= Seq::<HttpRouteView>::empty());
            }
            while i < in_ns.len()
                invariant
                    i <= in_ns@.len(),
                    candidates == view_seq(in_ns@),
                    view_seq(out@) == spec_attached_filter(
                        l@,
                        gn@,
                        gns@,
                        candidates.take(i as int),
                    ),
                decreases in_ns@.len() - i,
            {
                let ghost pre = candidates.take(i as int);
                proof {
                    assert(candidates.take(i as int + 1).drop_last() =~= pre);
                    assert(candidates.take(i as int + 1).last() == in_ns@[i as int]@);
                }
                if route_attached(l, gn, gns, &in_ns[i]) {
                    let ghost old_out = view_seq(out@);
                    out.push(in_ns[i].clone());
                    proof {
                        assert(view_seq(out@) =~= old_out.push(in_ns@[i as int]@));
                    }
                }
                i += 1;
            }
            proof {
                assert(candidates.take(candidates.len() as int) =~= candidates);
            }
            Some(Ok(out))
        },
    }
}

} // verus!

verus! {

/// Partition of a route list by the classifier: redirect-or-empty routes
/// are good, the rest are bad; relative order is kept.
pub open spec fn spec_partition_redirect(rs: Seq<HttpRouteView>) -> Parted<Seq<HttpRouteView>>
    decreases rs.len(),
{
    if rs.len() == 0 {
        Parted { good: Seq::<HttpRouteView>::empty(), bad: Seq::<HttpRouteView>::empty() }
    } else {
        let p = spec_partition_redirect(rs.drop_last());
        if spec_is_redirect_or_no_rule(rs.last()) {
            Parted { good: p.good.push(rs.last()), bad: p.bad }
        } else {
            Parted { good: p.good, bad: p.bad.push(rs.last()) }
        }
    }
}

/// Partitions routes into redirect-or-empty and substantive ones.
pub fn partition_by_redirect(rs: Vec<HttpRoute>) -> (p: Parted<Vec<HttpRoute>>)
    ensures
        view_seq(p.good@) == spec_partition_redirect(view_seq(rs@)).good,
        view_seq(p.bad@) == spec_partition_redirect(view_seq(rs@)).bad,
{
    let mut good: Vec<HttpRoute> = Vec::new();
    let mut bad: Vec<HttpRoute> = Vec::new();
    let mut i: usize = 0;
    proof {
        assert(view_seq(rs@).take(0) =~= Seq::<HttpRouteView>::empty());
        assert(view_seq(good@) =~= Seq::<HttpRouteView>::empty());
        assert(view_seq(bad@) =~= Seq::<HttpRouteView>::empty());
    }
    while i < rs.len()
        invariant
            i <= rs@.len(),
            view_seq(good@) == spec_partition_redirect(view_seq(rs@).take(i as int)).good,
            view_seq(bad@) == spec_partition_redirect(view_seq(rs@).take(i as int)).bad,
        decreases rs@.len() - i,
    {
        proof {
            assert(view_seq(rs@).take(i as int + 1).drop_last() =~= view_seq(rs@).take(i as int));
            assert(view_seq(rs@).take(i as int + 1).last() == rs@[i as int]@);
        }
        if is_redirect_or_no_rule(&rs[i]) {
            let ghost old_good = view_seq(good@);
            good.push(rs[i].clone());
            proof {
                assert(view_seq(good@) =~= old_good.push(rs@[i as int]@));
            }
        } else {
            let ghost old_bad = view_seq(bad@);
            bad.push(rs[i].clone());
            proof {
                assert(view_seq(bad@) =~= old_bad.push(rs@[i as int]@));
            }
        }
        i += 1;
    }
    proof {
        assert(view_seq(rs@).take(rs@.len() as int) =~= view_seq(rs@));
    }
    Parted { good, bad }
}

/// The audit of a Gateway's HTTP listeners: each HTTP listener with at
/// least one substantive route attached, paired with the partition of its
/// routes; the first cluster-data error wins.
pub open spec fn spec_bad_listeners(
    gn: Seq<char>,
    gns: Seq<char>,
    ls: Seq<ListenerView>,
    c: ClusterView,
) -> Result<Seq<(ListenerView, Parted<Seq<HttpRouteView>>)>, Seq<char>>
    decreases ls.len(),
{
    if ls.len() == 0 {
        Ok(Seq::<(ListenerView, Parted<Seq<HttpRouteView>>)>::empty())
    } else {
        let r = spec_bad_listeners(gn, gns, ls.drop_last(), c);
        let l = ls.last();
        if l.protocol != "HTTP"@ {
            r
        } else {
            match spec_routes_for_listener(l, gn, gns, c) {
                None => r,
                Some(Err(e)) => if r is Err {
                    r
                } else {
                    Err(e)
                },
                Some(Ok(routes)) => {
                    let parted = spec_partition_redirect(routes);
                    if parted.bad.len() == 0 {
                        r
                    } else {
                        match r {
                            Err(e) => Err(e),
                            Ok(v) => Ok(v.push((l, parted))),
                        }
                    }
                },
            }
        }
    }
}

/// The audit of a whole Gateway: `None` when its name or namespace is
/// missing.
pub open spec fn spec_bad_httproutes_for_gateway(g: GatewayView, c: ClusterView) -> Option<
    Result<Seq<(ListenerView, Parted<Seq<HttpRouteView>>)>, Seq<char>>,
> {
    match (g.metadata.name, g.metadata.namespace) {
        (Some(gn), Some(gns)) => Some(spec_bad_listeners(gn, gns, g.spec.listeners, c)),
        _ => None,
    }
}

/// An error at one listener decides the whole audit, once the prefix is
/// clean.
proof fn lemma_bad_listeners_error(
    gn: Seq<char>,
    gns: Seq<char>,
    ls: Seq<ListenerView>,
    c: ClusterView,
    i: int,
    e: Seq<char>,
)
    requires
        0 <= i < ls.len(),
        spec_bad_listeners(gn, gns, ls.take(i), c) is Ok,
        ls[i].protocol == "HTTP"@,
        spec_routes_for_listener(ls[i], gn, gns, c) == Some(
            Err::<Seq<HttpRouteView>, Seq<char>>(e),
        ),
    ensures
        spec_bad_listeners(gn, gns, ls, c) == Err::<
            Seq<(ListenerView, Parted<Seq<HttpRouteView>>)>,
            Seq<char>,
        >(e),
    decreases ls.len(),
{
    if ls.len() == i + 1 {
        assert(ls.drop_last() =~= ls.take(i));
        assert(ls.last() == ls[i]);
    } else {
        assert(ls.drop_last().take(i) =~= ls.take(i));
        assert(ls.drop_last()[i] == ls[i]);
        lemma_bad_listeners_error(gn, gns, ls.drop_last(), c, i, e);
    }
}

/// Runs the bad-listener audit of a Gateway against the cluster.
pub fn get_bad_httproutes_for_gateway(g: &Gateway, c: &Cluster) -> (r: Option<
    Result<Vec<(Listener, Parted<Vec<HttpRoute>>)>, String>,
>)
    ensures
        match r {
            None => spec_bad_httproutes_for_gateway(g@, c@) is None,
            Some(Ok(v)) => spec_bad_httproutes_for_gateway(g@, c@) == Some(Ok::<
                Seq<(ListenerView, Parted<Seq<HttpRouteView>>)>,
                Seq<char>,
            >(crate::status::view_listener_parted(v@))),
            Some(Err(e)) => spec_bad_httproutes_for_gateway(g@, c@) == Some(Err::<
                Seq<(ListenerView, Parted<Seq<HttpRouteView>>)>,
                Seq<char>,
            >(e@)),
        },
{
    let gn = match &g.metadata.name {
        Some(n) => n,
        None => {
            return None;
        },
    };
    let gns = match &g.metadata.namespace {
        Some(n) => n,
        None => {
            return None;
        },
    };
    let ls = &g.spec.listeners;
    let ghost lsv = view_seq(ls@);
    let mut out: Vec<(Listener, Parted<Vec<HttpRoute>>)> = Vec::new();
    let mut i: usize = 0;
    proof {
        assert(lsv.take(0) =~= Seq::<ListenerView>::empty());
        assert(crate::status::view_listener_parted(out@) =~= Seq::<
            (ListenerView, Parted<Seq<HttpRouteView>>),
        >::empty());
    }
    while i < ls.len()
        invariant
            i <= ls@.len(),
            lsv == view_seq(ls@),
            g@.metadata.name == Some(gn@),
            g@.metadata.namespace == Some(gns@),
            g@.spec.listeners == lsv,
            spec_bad_listeners(gn@, gns@, lsv.take(i as int), c@) == Ok::<
                Seq<(ListenerView, Parted<Seq<HttpRouteView>>)>,
                Seq<char>,
            >(crate::status::view_listener_parted(out@)),
        decreases ls@.len() - i,
    {
        proof {
            assert(lsv.take(i as int + 1).drop_last() =~= lsv.take(i as int));
            assert(lsv.take(i as int + 1).last() == ls@[i as int]@);
        }
        let l = &ls[i];
        if str_eq(l.protocol.as_str(), "HTTP") {
            match get_httproutes_for_listener(l, gn.as_str(), gns.as_str(), c) {
                None => {},
                Some(Err(e)) => {
                    proof {
                        lemma_bad_listeners_error(gn@, gns@, lsv, c@, i as int, e@);
                    }
                    return Some(Err(e));
                },
                Some(Ok(routes)) => {
                    let parted = partition_by_redirect(routes);
                    if parted.bad.len() > 0 {
                        let ghost old_out = crate::status::view_listener_parted(out@);
                        let ghost lv = ls@[i as int]@;
                        let ghost pv = Parted {
                            good: view_seq(parted.good@),
                            bad: view_seq(parted.bad@),
                        };
                        out.push((l.clone(), parted));
                        proof {
                            assert(crate::status::view_listener_parted(out@) =~= old_out.push(
                                (lv, pv),
                            ));
                        }
                    }
                },
            }
        }
        i += 1;
    }
    proof {
        assert(lsv.take(lsv.len() as int) =~= lsv);
    }
    Some(Ok(out))
}

} // verus!

verus! {

/// The first Gateway of the snapshot with the given namespace and name.
pub open spec fn spec_get_gateway(
    ns: Seq<char>,
    name: Seq<char>,
    gs: Seq<GatewayView>,
) -> Option<GatewayView>
    decreases gs.len(),
{
    if gs.len() == 0 {
        None
    } else if gs[0].metadata.namespace == Some(ns) && gs[0].metadata.name == Some(name) {
        Some(gs[0])
    } else {
        spec_get_gateway(ns, name, gs.drop_first())
    }
}

pub proof fn lemma_get_gateway_skip(ns: Seq<char>, name: Seq<char>, gs: Seq<GatewayView>, i: int)
    requires
        0 <= i <= gs.len(),
        forall|j: int|
            0 <= j < i ==> !(gs[j].metadata.namespace == Some(ns) && gs[j].metadata.name == Some(
                name,
            )),
    ensures
        spec_get_gateway(ns, name, gs) == spec_get_gateway(ns, name, gs.skip(i)),
    decreases i,
{
    if i > 0 {
        lemma_get_gateway_skip(ns, name, gs.drop_first(), i - 1);
        assert(gs.drop_first().skip(i - 1) =~= gs.skip(i));
    } else {
        assert(gs.skip(0) =~= gs);
    }
}

/// Looks a Gateway up in the snapshot by namespace and name.
pub fn get_gateway<'a>(namespace: &str, name: &str, c: &'a Cluster) -> (r: Option<&'a Gateway>)
    ensures
        match r {
            Some(g) => spec_get_gateway(namespace@, name@, view_seq(c.gateways@)) == Some(g@),
            None => spec_get_gateway(namespace@, name@, view_seq(c.gateways@)) is None,
        },
{
    let ghost gsv = view_seq(c.gateways@);
    let mut i: usize = 0;
    while i < c.gateways.len()
        invariant
            i <= c.gateways@.len(),
            gsv == view_seq(c.gateways@),
            forall|j: int|
                0 <= j < i ==> !(gsv[j].metadata.namespace == Some(namespace@)
                    && gsv[j].metadata.name == Some(name@)),
        decreases c.gateways@.len() - i,
    {
        let g = &c.gateways[i];
        let ns_ok = match &g.metadata.namespace {
            Some(n) => str_eq(n.as_str(), namespace),
            None => false,
        };
        let name_ok = match &g.metadata.name {
            Some(n) => str_eq(n.as_str(), name),
            None => false,
        };
        if ns_ok && name_ok {
            proof {
                lemma_get_gateway_skip(namespace@, name@, gsv, i as int);
                assert(gsv.skip(i as int)[0] == gsv[i as int]);
            }
            return Some(g);
        }
        proof {
            assert(gsv[i as int] == c.gateways@[i as int]@);
        }
        i += 1;
    }
    proof {
        lemma_get_gateway_skip(namespace@, name@, gsv, gsv.len() as int);
        assert(gsv.skip(gsv.len() as int) =~= Seq::<GatewayView>::empty());
    }
    None
}

/// The indices of a Gateway's HTTP listeners that a parent reference
/// designates.
pub open spec fn spec_http_match_indices(
    ls: Seq<ListenerView>,
    p: ParentRefView,
    gn: Seq<char>,
    gns: Seq<char>,
    hns: Seq<char>,
) -> Seq<int>
    decreases ls.len(),
{
    if ls.len() == 0 {
        Seq::<int>::empty()
    } else {
        let r = spec_http_match_indices(ls.drop_last(), p, gn, gns, hns);
        if ls.last().protocol == "HTTP"@ && spec_parentref_matches(p, ls.last(), gn, gns, hns) {
            r.push(ls.len() - 1)
        } else {
            r
        }
    }
}

/// The audit of one parent reference of a route: the Gateway it points at,
/// with the HTTP listeners it is attached to, if there are any.
pub open spec fn spec_ref_http_attachment(
    p: ParentRefView,
    hns: Seq<char>,
    c: ClusterView,
) -> Option<GatewayListenerPairView> {
    if p.kind != Some("Gateway"@) {
        None
    } else {
        match spec_get_gateway(spec_name_or(p.namespace, hns), p.name, c.gateways) {
            None => None,
            Some(g) => match (g.metadata.name, g.metadata.namespace) {
                (Some(gn), Some(gns)) => {
                    let idxs = spec_http_match_indices(g.spec.listeners, p, gn, gns, hns);
                    if idxs.len() == 0 {
                        None
                    } else {
                        Some(GatewayListenerPairView { gateway: g, listeners: idxs })
                    }
                },
                _ => None,
            },
        }
    }
}

/// Audits one parent reference of a route against the cluster.
pub fn filter_gateway_of_http_listener_attached_to(
    p: &ParentRef,
    httproute_namespace: &str,
    c: &Cluster,
) -> (r: Option<GatewayListenerPair>)
    ensures
        match r {
            Some(pair) => spec_ref_http_attachment(p@, httproute_namespace@, c@) == Some(pair@),
            None => spec_ref_http_attachment(p@, httproute_namespace@, c@) is None,
        },
{
    let kind_ok = match &p.kind {
        Some(k) => str_eq(k.as_str(), "Gateway"),
        None => false,
    };
    if !kind_ok {
        return None;
    }
    let lookup_ns = match &p.namespace {
        Some(ns) => ns.as_str(),
        None => httproute_namespace,
    };
    let gateway = match get_gateway(lookup_ns, p.name.as_str(), c) {
        Some(g) => g,
        None => {
            return None;
        },
    };
    let gn = match &gateway.metadata.name {
        Some(n) => n,
        None => {
            return None;
        },
    };
    let gns = match &gateway.metadata.namespace {
        Some(n) => n,
        None => {
            return None;
        },
    };
    let ls = &gateway.spec.listeners;
    let ghost lsv = view_seq(ls@);
    let mut idxs: Vec<usize> = Vec::new();
    let mut i: usize = 0;
    proof {
        assert(lsv.take(0) =~= Seq::<ListenerView>::empty());
        assert(idxs@.map_values(|k: usize| k as int) =~= Seq::<int>::empty());
    }
    while i < ls.len()
        invariant
            i <= ls@.len(),
            lsv == view_seq(ls@),
            idxs@.map_values(|k: usize| k as int) == spec_http_match_indices(
                lsv.take(i as int),
                p@,
                gn@,
                gns@,
                httproute_namespace@,
            ),
            forall|j: int| 0 <= j < idxs@.len() ==> idxs@[j] < i,
        decreases ls@.len() - i,
    {
        proof {
            assert(lsv.take(i as int + 1).drop_last() =~= lsv.take(i as int));
            assert(lsv.take(i as int + 1).last() == ls@[i as int]@);
        }
        let l = &ls[i];
        if str_eq(l.protocol.as_str(), "HTTP") && does_parentref_listener_match(
            p,
            l,
            gn.as_str(),
            gns.as_str(),
            httproute_namespace,
        ) {
            let ghost old_idxs = idxs@.map_values(|k: usize| k as int);
            idxs.push(i);
            proof {
                assert(idxs@.map_values(|k: usize| k as int) =~= old_idxs.push(i as int));
            }
        }
        i += 1;
    }
    proof {
        assert(lsv.take(lsv.len() as int) =~= lsv);
    }
    if idxs.len() == 0 {
        None
    } else {
        let pair = GatewayListenerPair { gateway: gateway.clone(), listeners: idxs };
        Some(pair)
    }
}

/// The bad parent references of a route: each reference attached to at
/// least one HTTP listener, paired with its Gateway and those listeners.
pub open spec fn spec_route_bad_pairs(
    prs: Seq<ParentRefView>,
    hns: Seq<char>,
    c: ClusterView,
) -> Seq<(ParentRefView, GatewayListenerPairView)>
    decreases prs.len(),
{
    if prs.len() == 0 {
        Seq::<(ParentRefView, GatewayListenerPairView)>::empty()
    } else {
        let r = spec_route_bad_pairs(prs.drop_last(), hns, c);
        match spec_ref_http_attachment(prs.last(), hns, c) {
            Some(pair) => r.push((prs.last(), pair)),
            None => r,
        }
    }
}

/// Collects the bad parent references of a route.
pub fn route_bad_pairs(prs: &Vec<ParentRef>, hns: &str, c: &Cluster) -> (r: Vec<
    (ParentRef, GatewayListenerPair),
>)
    ensures
        crate::status::view_ref_pairs(r@) == spec_route_bad_pairs(view_seq(prs@), hns@, c@),
{
    let ghost prsv = view_seq(prs@);
    let mut out: Vec<(ParentRef, GatewayListenerPair)> = Vec::new();
    let mut i: usize = 0;
    proof {
        assert(prsv.take(0) =~= Seq::<ParentRefView>::empty());
        assert(crate::status::view_ref_pairs(out@) =~= Seq::<
            (ParentRefView, GatewayListenerPairView),
        >::empty());
    }
    while i < prs.len()
        invariant
            i <= prs@.len(),
            prsv == view_seq(prs@),
            crate::status::view_ref_pairs(out@) == spec_route_bad_pairs(
                prsv.take(i as int),
                hns@,
                c@,
            ),
        decreases prs@.len() - i,
    {
        proof {
            assert(prsv.take(i as int + 1).drop_last() =~= prsv.take(i as int));
            assert(prsv.take(i as int + 1).last() == prs@[i as int]@);
        }
        match filter_gateway_of_http_listener_attached_to(&prs[i], hns, c) {
            Some(pair) => {
                let ghost old_out = crate::status::view_ref_pairs(out@);
                let ghost pv = pair@;
                out.push((prs[i].clone(), pair));
                proof {
                    assert(crate::status::view_ref_pairs(out@) =~= old_out.push(
                        (prs@[i as int]@, pv),
                    ));
                }
            },
            None => {},
        }
        i += 1;
    }
    proof {
        assert(prsv.take(prsv.len() as int) =~= prsv);
    }
    out
}

} // verus!
