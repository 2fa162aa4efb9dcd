//! The HTTPRoute policy: validation (skip, the classifier, parentless
//! routes, then the HTTP-listener audit) and mutation (detach from HTTP
//! listeners and re-attach to suitable HTTPS listeners).

use vstd::prelude::*;

use crate::annotations::{spec_skip_check, skip_check};
use crate::attachment::{route_bad_pairs, spec_route_bad_pairs};
use crate::classifier::{is_redirect_or_no_rule, spec_is_redirect_or_no_rule};
use crate::objects::{
    view_seq, Cluster, ClusterView,
    Gateway, GatewayView, HttpRoute, HttpRouteSpecView, HttpRouteView, Listener,
    ListenerView, ParentRef, ParentRefView,
};
use crate::status::{
    check_view, view_ref_pairs, CheckResult, CheckResultView, ControlFlow, DenyReason,
    DenyReasonView, GatewayListenerPair, GatewayListenerPairView, Status, StatusView,
};
use crate::strings::{dedup, dedup_strings, str_eq};

verus! {

/// The audit check: a route all of whose parent references sit on HTTP
/// listeners of real Gateways is denied with those attachments as payload.
pub open spec fn spec_attached_check(rt: HttpRouteView, c: ClusterView) -> CheckResultView<
    HttpRouteView,
> {
    match (rt.spec.parent_refs, rt.metadata.namespace) {
        (Some(prs), Some(hns)) => {
            let pairs = spec_route_bad_pairs(prs, hns, c);
            if pairs.len() == 0 {
                Some(Ok(StatusView::Allowed))
            } else {
                Some(
                    Ok(StatusView::Denied(
                        DenyReasonView::HTTPRouteNonRedirectAttachedToHTTPListener(pairs),
                    )),
                )
            }
        },
        _ => None,
    }
}

/// The HTTPRoute validation pipeline: skip, the classifier, parentless
/// routes, then the HTTP-listener audit.
pub open spec fn spec_validate_httproute(rt: HttpRouteView, c: ClusterView) -> CheckResultView<
    HttpRouteView,
> {
    let r1 = spec_skip_check::<HttpRouteView>(rt.metadata);
    if !crate::status::spec_is_continue(r1) {
        r1
    } else {
        let r2: CheckResultView<HttpRouteView> = if spec_is_redirect_or_no_rule(rt) {
            Some(Ok(StatusView::Allowed))
        } else {
            Some(Ok(StatusView::MoveOn))
        };
        if !crate::status::spec_is_continue(r2) {
            r2
        } else {
            let r3: CheckResultView<HttpRouteView> = if rt.spec.parent_refs is None {
                Some(Ok(StatusView::Allowed))
            } else {
                Some(Ok(StatusView::MoveOn))
            };
            if !crate::status::spec_is_continue(r3) {
                r3
            } else {
                spec_attached_check(rt, c)
            }
        }
    }
}

/// Validates an HTTPRoute against the cluster snapshot.
pub fn validate_httproute(httproute: &HttpRoute, cluster: &Cluster) -> (r: CheckResult<HttpRoute>)
    ensures
        check_view(r) == spec_validate_httproute(httproute@, cluster@),
{
    let r1: CheckResult<HttpRoute> = skip_check(httproute);
    if r1.is_break() {
        return r1;
    }
    if is_redirect_or_no_rule(httproute) {
        return Some(Ok(Status::Allowed));
    }
    if httproute.spec.parent_refs.is_none() {
        return Some(Ok(Status::Allowed));
    }
    let prs = match &httproute.spec.parent_refs {
        Some(prs) => prs,
        None => {
            return None;  // unreachable: the previous check allowed such routes
        },
    };
    let hns = match &httproute.metadata.namespace {
        Some(ns) => ns,
        None => {
            return None;
        },
    };
    let pairs = route_bad_pairs(prs, hns.as_str(), cluster);
    if pairs.len() == 0 {
        proof {
            assert(view_ref_pairs(pairs@).len() == 0);
        }
        Some(Ok(Status::Allowed))
    } else {
        proof {
            assert(view_ref_pairs(pairs@).len() != 0);
        }
        Some(Ok(Status::Denied(DenyReason::HTTPRouteNonRedirectAttachedToHTTPListener(pairs))))
    }
}

/// The parent reference pointing at one HTTPS listener of a Gateway.
pub open spec fn spec_ref_for(gn: Seq<char>, gns: Seq<char>, l: ListenerView) -> ParentRefView {
    ParentRefView {
        kind: Some("Gateway"@),
        name: gn,
        namespace: Some(gns),
        section_name: Some(l.name),
        port: Some(l.port),
    }
}

/// The HTTPS listeners of a Gateway, in order.
pub open spec fn spec_https_candidates(ls: Seq<ListenerView>) -> Seq<ListenerView>
    decreases ls.len(),
{
    if ls.len() == 0 {
        Seq::<ListenerView>::empty()
    } else {
        let r = spec_https_candidates(ls.drop_last());
        if ls.last().protocol == "HTTPS"@ {
            r.push(ls.last())
        } else {
            r
        }
    }
}

/// The hostnames of the listeners an attachment pair points at, absent
/// hostnames and out-of-range indices skipped.
pub open spec fn spec_indices_hostnames(g: GatewayView, idxs: Seq<int>) -> Seq<Seq<char>>
    decreases idxs.len(),
{
    if idxs.len() == 0 {
        Seq::<Seq<char>>::empty()
    } else {
        let r = spec_indices_hostnames(g, idxs.drop_last());
        let i = idxs.last();
        if 0 <= i < g.spec.listeners.len() && g.spec.listeners[i].hostname is Some {
            r.push(g.spec.listeners[i].hostname->Some_0)
        } else {
            r
        }
    }
}

/// The hostnames one attachment pair must keep serving: the route's own
/// hostnames, then the offending listeners' hostnames, de-duplicated.
pub open spec fn spec_pair_hostnames(
    rt: HttpRouteView,
    pair: GatewayListenerPairView,
) -> Seq<Seq<char>> {
    let own = match rt.spec.hostnames {
        Some(hs) => hs,
        None => Seq::<Seq<char>>::empty(),
    };
    dedup(own + spec_indices_hostnames(pair.gateway, pair.listeners))
}

/// Whether some candidate listener's hostname is exactly `h`.
pub open spec fn spec_served(h: Seq<char>, candidates: Seq<ListenerView>) -> bool {
    exists|j: int| 0 <= j < candidates.len() && #[trigger] candidates[j].hostname == Some(h)
}

/// Whether every hostname has a candidate listener serving it.
pub open spec fn spec_hosts_covered(
    hostnames: Seq<Seq<char>>,
    candidates: Seq<ListenerView>,
) -> bool {
    forall|i: int| 0 <= i < hostnames.len() ==> spec_served(#[trigger] hostnames[i], candidates)
}

/// The references appended for the covered-hostname branch: one per
/// candidate whose hostname is non-empty and among the hostnames.
pub open spec fn spec_matching_refs(
    gn: Seq<char>,
    gns: Seq<char>,
    candidates: Seq<ListenerView>,
    hostnames: Seq<Seq<char>>,
) -> Seq<ParentRefView>
    decreases candidates.len(),
{
    if candidates.len() == 0 {
        Seq::<ParentRefView>::empty()
    } else {
        let r = spec_matching_refs(gn, gns, candidates.drop_last(), hostnames);
        let c = candidates.last();
        if c.hostname is Some && c.hostname->Some_0.len() > 0 && hostnames.contains(
            c.hostname->Some_0,
        ) {
            r.push(spec_ref_for(gn, gns, c))
        } else {
            r
        }
    }
}

/// The references one attachment pair contributes: the single candidate if
/// there is exactly one, else the hostname-matching candidates when every
/// hostname is covered.  The outer `None` is a Gateway without name or
/// namespace; the inner `None` means the mutation cannot be inferred.
pub open spec fn spec_refs_for_pair(
    rt: HttpRouteView,
    pair: GatewayListenerPairView,
) -> Option<Option<Seq<ParentRefView>>> {
    match (pair.gateway.metadata.name, pair.gateway.metadata.namespace) {
        (Some(gn), Some(gns)) => {
            let candidates = spec_https_candidates(pair.gateway.spec.listeners);
            if candidates.len() == 1 {
                Some(Some(seq![spec_ref_for(gn, gns, candidates[0])]))
            } else {
                let hostnames = spec_pair_hostnames(rt, pair);
                if spec_hosts_covered(hostnames, candidates) {
                    Some(Some(spec_matching_refs(gn, gns, candidates, hostnames)))
                } else {
                    Some(None)
                }
            }
        },
        _ => None,
    }
}

/// The references all pairs contribute, in order; the first failing pair
/// decides the outcome.
pub open spec fn spec_collect_refs(
    rt: HttpRouteView,
    pairs: Seq<(ParentRefView, GatewayListenerPairView)>,
) -> Option<Option<Seq<ParentRefView>>>
    decreases pairs.len(),
{
    if pairs.len() == 0 {
        Some(Some(Seq::<ParentRefView>::empty()))
    } else {
        match spec_refs_for_pair(rt, pairs[0].1) {
            None => None,
            Some(None) => Some(None),
            Some(Some(refs)) => match spec_collect_refs(rt, pairs.drop_first()) {
                None => None,
                Some(None) => Some(None),
                Some(Some(rest)) => Some(Some(refs + rest)),
            },
        }
    }
}

/// The parent references kept by the mutation: those not named in the deny
/// payload.
pub open spec fn spec_retain_good(
    prs: Seq<ParentRefView>,
    bad: Seq<ParentRefView>,
) -> Seq<ParentRefView>
    decreases prs.len(),
{
    if prs.len() == 0 {
        Seq::<ParentRefView>::empty()
    } else {
        let r = spec_retain_good(prs.drop_last(), bad);
        if bad.contains(prs.last()) {
            r
        } else {
            r.push(prs.last())
        }
    }
}

/// The repaired route: the bad references removed, the computed ones
/// appended; everything else untouched.
pub open spec fn spec_route_target(
    rt: HttpRouteView,
    pairs: Seq<(ParentRefView, GatewayListenerPairView)>,
    appended: Seq<ParentRefView>,
) -> HttpRouteView {
    let kept = match rt.spec.parent_refs {
        Some(prs) => spec_retain_good(prs, pairs.map_values(
            |p: (ParentRefView, GatewayListenerPairView)| p.0,
        )),
        None => Seq::<ParentRefView>::empty(),
    };
    HttpRouteView {
        metadata: rt.metadata,
        spec: HttpRouteSpecView {
            parent_refs: Some(kept + appended),
            hostnames: rt.spec.hostnames,
            rules: rt.spec.rules,
        },
    }
}

/// The re-attachment mutation of a denied route.
pub open spec fn spec_mutate_route(
    rt: HttpRouteView,
    pairs: Seq<(ParentRefView, GatewayListenerPairView)>,
) -> CheckResultView<HttpRouteView> {
    match spec_collect_refs(rt, pairs) {
        None => None,
        Some(None) => Some(
            Ok(StatusView::Denied(
                DenyReasonView::HTTPRouteNonRedirectAttachedToHTTPListener(pairs),
            )),
        ),
        Some(Some(appended)) => Some(
            Ok(StatusView::Patch(spec_route_target(rt, pairs, appended))),
        ),
    }
}

/// The HTTPRoute mutation pipeline: re-attach on the audit denial, forward
/// anything else.
pub open spec fn spec_mutate_httproute(rt: HttpRouteView, c: ClusterView) -> CheckResultView<
    HttpRouteView,
> {
    let v = spec_validate_httproute(rt, c);
    match v {
        Some(
            Ok(
                StatusView::Denied(
                    DenyReasonView::HTTPRouteNonRedirectAttachedToHTTPListener(pairs),
                ),
            ),
        ) => spec_mutate_route(rt, pairs),
        _ => v,
    }
}

/// Compares two parent references field for field.
fn parent_ref_eq(a: &ParentRef, b: &ParentRef) -> (r: bool)
    ensures
        r == (a@ == b@),
{
    let kind_eq = match (&a.kind, &b.kind) {
        (Some(x), Some(y)) => str_eq(x.as_str(), y.as_str()),
        (None, None) => true,
        _ => false,
    };
    let name_eq = str_eq(a.name.as_str(), b.name.as_str());
    let ns_eq = match (&a.namespace, &b.namespace) {
        (Some(x), Some(y)) => str_eq(x.as_str(), y.as_str()),
        (None, None) => true,
        _ => false,
    };
    let section_eq = match (&a.section_name, &b.section_name) {
        (Some(x), Some(y)) => str_eq(x.as_str(), y.as_str()),
        (None, None) => true,
        _ => false,
    };
    let port_eq = match (a.port, b.port) {
        (Some(x), Some(y)) => x == y,
        (None, None) => true,
        _ => false,
    };
    let r = kind_eq && name_eq && ns_eq && section_eq && port_eq;
    proof {
        if r {
            assert(a@ =~= b@);
        }
    }
    r
}

/// Whether a reference is named in the deny payload.
fn ref_in_payload(payload: &Vec<(ParentRef, GatewayListenerPair)>, p: &ParentRef) -> (r: bool)
    ensures
        r == view_ref_pairs(payload@).map_values(
            |q: (ParentRefView, GatewayListenerPairView)| q.0,
        ).contains(p@),
{
    let ghost bad = view_ref_pairs(payload@).map_values(
        |q: (ParentRefView, GatewayListenerPairView)| q.0,
    );
    let mut i: usize = 0;
    while i < payload.len()
        invariant
            i <= payload@.len(),
            bad == view_ref_pairs(payload@).map_values(
                |q: (ParentRefView, GatewayListenerPairView)| q.0,
            ),
            forall|j: int| 0 <= j < i ==> bad[j] != p@,
        decreases payload@.len() - i,
    {
        if parent_ref_eq(&payload[i].0, p) {
            proof {
                assert(bad[i as int] == payload@[i as int].0@);
            }
            return true;
        }
        proof {
            assert(bad[i as int] == payload@[i as int].0@);
        }
        i += 1;
    }
    proof {
        assert(forall|j: int| 0 <= j < bad.len() ==> bad[j] != p@);
    }
    false
}

} // verus!

verus! {

/// Builds the parent reference for one HTTPS listener.
fn make_ref(gn: &str, gns: &str, l: &Listener) -> (r: ParentRef)
    ensures
        r@ == spec_ref_for(gn@, gns@, l@),
{
    let r = ParentRef {
        kind: Some(String::from_str("Gateway")),
        name: gn.to_owned(),
        namespace: Some(gns.to_owned()),
        section_name: Some(l.name.clone()),
        port: Some(l.port),
    };
    proof {
        assert(r@ =~= spec_ref_for(gn@, gns@, l@));
    }
    r
}

/// Collects the HTTPS listeners of a Gateway.
fn https_candidates(g: &Gateway) -> (r: Vec<Listener>)
    ensures
        view_seq(r@) == spec_https_candidates(view_seq(g.spec.listeners@)),
{
    let ls = &g.spec.listeners;
    let ghost lsv = view_seq(ls@);
    let mut r: Vec<Listener> = Vec::new();
    let mut i: usize = 0;
    proof {
        assert(lsv.take(0) =~= Seq::<ListenerView>::empty());
        assert(view_seq(r@) =~= Seq::<ListenerView>::empty());
    }
    while i < ls.len()
        invariant
            i <= ls@.len(),
            lsv == view_seq(ls@),
            view_seq(r@) == spec_https_candidates(lsv.take(i as int)),
        decreases ls@.len() - i,
    {
        proof {
            assert(lsv.take(i as int + 1).drop_last() =~= lsv.take(i as int));
            assert(lsv.take(i as int + 1).last() == ls@[i as int]@);
        }
        if str_eq(ls[i].protocol.as_str(), "HTTPS") {
            let ghost old_r = view_seq(r@);
            r.push(ls[i].clone());
            proof {
                assert(view_seq(r@) =~= old_r.push(ls@[i as int]@));
            }
        }
        i += 1;
    }
    proof {
        assert(lsv.take(lsv.len() as int) =~= lsv);
    }
    r
}

/// Collects the hostnames of the listeners an attachment pair points at.
fn indices_hostnames(pair: &GatewayListenerPair) -> (r: Vec<String>)
    ensures
        view_seq(r@) == spec_indices_hostnames(pair.gateway@, pair@.listeners),
{
    let g = &pair.gateway;
    let idxs = &pair.listeners;
    let ghost iv = pair@.listeners;
    let mut r: Vec<String> = Vec::new();
    let mut i: usize = 0;
    proof {
        assert(iv.take(0) =~= Seq::<int>::empty());
        assert(view_seq(r@) =~= Seq::<Seq<char>>::empty());
    }
    while i < idxs.len()
        invariant
            i <= idxs@.len(),
            iv == pair@.listeners,
            pair@.gateway == g@,
            iv.len() == idxs@.len(),
            forall|j: int| 0 <= j < iv.len() ==> iv[j] == idxs@[j] as int,
            view_seq(r@) == spec_indices_hostnames(g@, iv.take(i as int)),
        decreases idxs@.len() - i,
    {
        proof {
            assert(iv.take(i as int + 1).drop_last() =~= iv.take(i as int));
            assert(iv.take(i as int + 1).last() == idxs@[i as int] as int);
        }
        let k = idxs[i];
        if k < g.spec.listeners.len() {
            match &g.spec.listeners[k].hostname {
                Some(h) => {
                    let ghost old_r = view_seq(r@);
                    r.push(h.clone());
                    proof {
                        assert(g@.spec.listeners[k as int] == g.spec.listeners@[k as int]@);
                        assert(view_seq(r@) =~= old_r.push(h@));
                    }
                },
                None => {
                    proof {
                        assert(g@.spec.listeners[k as int] == g.spec.listeners@[k as int]@);
                    }
                },
            }
        } else {
            proof {
                assert(!(0 <= iv[i as int] < g@.spec.listeners.len()));
            }
        }
        i += 1;
    }
    proof {
        assert(iv.take(iv.len() as int) =~= iv);
    }
    r
}

/// Whether some candidate's hostname is exactly `h`.
fn candidate_serves(candidates: &Vec<Listener>, h: &str) -> (r: bool)
    ensures
        r == spec_served(h@, view_seq(candidates@)),
{
    let ghost cv = view_seq(candidates@);
    let mut j: usize = 0;
    while j < candidates.len()
        invariant
            j <= candidates@.len(),
            cv == view_seq(candidates@),
            forall|k: int| 0 <= k < j ==> cv[k].hostname != Some(h@),
        decreases candidates@.len() - j,
    {
        let found = match &candidates[j].hostname {
            Some(ch) => str_eq(ch.as_str(), h),
            None => false,
        };
        proof {
            assert(cv[j as int] == candidates@[j as int]@);
        }
        if found {
            proof {
                assert(spec_served(h@, cv));
            }
            return true;
        }
        j += 1;
    }
    proof {
        assert(!spec_served(h@, cv));
    }
    false
}

/// Whether every hostname is served by some candidate.
fn hosts_covered(hostnames: &Vec<String>, candidates: &Vec<Listener>) -> (r: bool)
    ensures
        r == spec_hosts_covered(view_seq(hostnames@), view_seq(candidates@)),
{
    let ghost hv = view_seq(hostnames@);
    let ghost cv = view_seq(candidates@);
    let mut i: usize = 0;
    while i < hostnames.len()
        invariant
            i <= hostnames@.len(),
            hv == view_seq(hostnames@),
            cv == view_seq(candidates@),
            forall|k: int| 0 <= k < i ==> spec_served(#[trigger] hv[k], cv),
        decreases hostnames@.len() - i,
    {
        if !candidate_serves(candidates, hostnames[i].as_str()) {
            proof {
                assert(hv[i as int] == hostnames@[i as int]@);
                assert(!spec_hosts_covered(hv, cv));
            }
            return false;
        }
        proof {
            assert(hv[i as int] == hostnames@[i as int]@);
            assert(spec_served(hv[i as int], cv));
        }
        i += 1;
    }
    true
}

/// Collects the references for the covered-hostname branch.
fn matching_refs(
    gn: &str,
    gns: &str,
    candidates: &Vec<Listener>,
    hostnames: &Vec<String>,
) -> (r: Vec<ParentRef>)
    ensures
        view_seq(r@) == spec_matching_refs(
            gn@,
            gns@,
            view_seq(candidates@),
            view_seq(hostnames@),
        ),
{
    let ghost cv = view_seq(candidates@);
    let ghost hv = view_seq(hostnames@);
    let mut r: Vec<ParentRef> = Vec::new();
    let mut i: usize = 0;
    proof {
        assert(cv.take(0) =~= Seq::<ListenerView>::empty());
        assert(view_seq(r@) =~= Seq::<ParentRefView>::empty());
    }
    while i < candidates.len()
        invariant
            i <= candidates@.len(),
            cv == view_seq(candidates@),
            hv == view_seq(hostnames@),
            view_seq(r@) == spec_matching_refs(gn@, gns@, cv.take(i as int), hv),
        decreases candidates@.len() - i,
    {
        proof {
            assert(cv.take(i as int + 1).drop_last() =~= cv.take(i as int));
            assert(cv.take(i as int + 1).last() == candidates@[i as int]@);
        }
        let c = &candidates[i];
        let keep = match &c.hostname {
            Some(ch) => ch.as_str().unicode_len() > 0 && crate::strings::contains_string(
                hostnames,
                ch.as_str(),
            ),
            None => false,
        };
        if keep {
            let ghost old_r = view_seq(r@);
            r.push(make_ref(gn, gns, c));
            proof {
                assert(view_seq(r@) =~= old_r.push(spec_ref_for(gn@, gns@, cv[i as int])));
            }
        }
        i += 1;
    }
    proof {
        assert(cv.take(cv.len() as int) =~= cv);
    }
    r
}

/// Computes the references one attachment pair contributes.
fn refs_for_pair(rt: &HttpRoute, pair: &GatewayListenerPair) -> (r: Option<
    Option<Vec<ParentRef>>,
>)
    ensures
        match r {
            None => spec_refs_for_pair(rt@, pair@) is None,
            Some(None) => spec_refs_for_pair(rt@, pair@) == Some(None::<Seq<ParentRefView>>),
            Some(Some(v)) => spec_refs_for_pair(rt@, pair@) == Some(
                Some(view_seq(v@)),
            ),
        },
{
    let gn = match &pair.gateway.metadata.name {
        Some(n) => n,
        None => {
            return None;
        },
    };
    let gns = match &pair.gateway.metadata.namespace {
        Some(n) => n,
        None => {
            return None;
        },
    };
    let candidates = https_candidates(&pair.gateway);
    if candidates.len() == 1 {
        let r = vec![make_ref(gn.as_str(), gns.as_str(), &candidates[0])];
        proof {
            assert(view_seq(candidates@)[0] == candidates@[0]@);
            assert(view_seq(r@) =~= seq![
                spec_ref_for(gn@, gns@, spec_https_candidates(
                    view_seq(pair.gateway.spec.listeners@),
                )[0]),
            ]);
        }
        return Some(Some(r));
    }
    let mut hostnames: Vec<String> = match &rt.spec.hostnames {
        Some(hs) => crate::objects::clone_strings(hs),
        None => Vec::new(),
    };
    let ghost own = match rt@.spec.hostnames {
        Some(hs) => hs,
        None => Seq::<Seq<char>>::empty(),
    };
    proof {
        match rt@.spec.hostnames {
            Some(hs) => {
                assert(view_seq(hostnames@) == hs);
            },
            None => {
                assert(view_seq(hostnames@) =~= Seq::<Seq<char>>::empty());
            },
        }
    }
    let from_listeners = indices_hostnames(pair);
    let ghost flv = view_seq(from_listeners@);
    let mut j: usize = 0;
    proof {
        assert(view_seq(hostnames@) =~= own + flv.take(0));
    }
    while j < from_listeners.len()
        invariant
            j <= from_listeners@.len(),
            flv == view_seq(from_listeners@),
            view_seq(hostnames@) == own + flv.take(j as int),
        decreases from_listeners@.len() - j,
    {
        let ghost old_h = view_seq(hostnames@);
        hostnames.push(from_listeners[j].clone());
        proof {
            assert(view_seq(hostnames@) =~= old_h.push(from_listeners@[j as int]@));
            assert(own + flv.take(j as int + 1) =~= (own + flv.take(j as int)).push(
                flv[j as int],
            ));
        }
        j += 1;
    }
    proof {
        assert(flv.take(flv.len() as int) =~= flv);
    }
    let hostnames = dedup_strings(hostnames);
    proof {
        assert(view_seq(hostnames@) == spec_pair_hostnames(rt@, pair@));
    }
    if hosts_covered(&hostnames, &candidates) {
        let r = matching_refs(gn.as_str(), gns.as_str(), &candidates, &hostnames);
        Some(Some(r))
    } else {
        Some(None)
    }
}

/// Repairs a route denied by the HTTP-listener audit.
fn mutate_route(
    httproute: &HttpRoute,
    payload: Vec<(ParentRef, GatewayListenerPair)>,
) -> (r: CheckResult<HttpRoute>)
    ensures
        check_view(r) == spec_mutate_route(httproute@, view_ref_pairs(payload@)),
{
    let ghost pv = view_ref_pairs(payload@);
    let ghost bad = pv.map_values(|q: (ParentRefView, GatewayListenerPairView)| q.0);
    let mut kept: Vec<ParentRef> = Vec::new();
    match &httproute.spec.parent_refs {
        Some(prs) => {
            let ghost prsv = view_seq(prs@);
            let mut i: usize = 0;
            proof {
                assert(prsv.take(0) =~= Seq::<ParentRefView>::empty());
                assert(view_seq(kept@) =~= Seq::<ParentRefView>::empty());
            }
            while i < prs.len()
                invariant
                    i <= prs@.len(),
                    prsv == view_seq(prs@),
                    pv == view_ref_pairs(payload@),
                    bad == pv.map_values(
                        |q: (ParentRefView, GatewayListenerPairView)| q.0,
                    ),
                    view_seq(kept@) == spec_retain_good(prsv.take(i as int), bad),
                decreases prs@.len() - i,
            {
                proof {
                    assert(prsv.take(i as int + 1).drop_last() =~= prsv.take(i as int));
                    assert(prsv.take(i as int + 1).last() == prs@[i as int]@);
                }
                if !ref_in_payload(&payload, &prs[i]) {
                    let ghost old_k = view_seq(kept@);
                    kept.push(prs[i].clone());
                    proof {
                        assert(view_seq(kept@) =~= old_k.push(prs@[i as int]@));
                    }
                }
                i += 1;
            }
            proof {
                assert(prsv.take(prsv.len() as int) =~= prsv);
            }
        },
        None => {
            proof {
                assert(view_seq(kept@) =~= Seq::<ParentRefView>::empty());
            }
        },
    }
    let mut appended: Vec<ParentRef> = Vec::new();
    let mut i: usize = 0;
    proof {
        assert(pv.skip(0) =~= pv);
        assert(view_seq(appended@) =~= Seq::<ParentRefView>::empty());
    }
    while i < payload.len()
        invariant
            i <= payload@.len(),
            pv == view_ref_pairs(payload@),
            spec_collect_refs(httproute@, pv) == (match spec_collect_refs(
                httproute@,
                pv.skip(i as int),
            ) {
                None => None::<Option<Seq<ParentRefView>>>,
                Some(None) => Some(None::<Seq<ParentRefView>>),
                Some(Some(rest)) => Some(Some(view_seq(appended@) + rest)),
            }),
        decreases payload@.len() - i,
    {
        proof {
            assert(pv.skip(i as int)[0] == pv[i as int]);
            assert(pv.skip(i as int).drop_first() =~= pv.skip(i as int + 1));
            assert(pv[i as int].1 == payload@[i as int].1@);
        }
        match refs_for_pair(httproute, &payload[i].1) {
            None => {
                return None;
            },
            Some(None) => {
                return Some(
                    Ok(Status::Denied(
                        DenyReason::HTTPRouteNonRedirectAttachedToHTTPListener(payload),
                    )),
                );
            },
            Some(Some(refs)) => {
                let ghost refsv = view_seq(refs@);
                let ghost old_app = view_seq(appended@);
                let mut refs = refs;
                let mut j: usize = 0;
                while j < refs.len()
                    invariant
                        j <= refs@.len(),
                        refsv == view_seq(refs@),
                        view_seq(appended@) == old_app + refsv.take(j as int),
                    decreases refs@.len() - j,
                {
                    let ghost old_a = view_seq(appended@);
                    appended.push(refs[j].clone());
                    proof {
                        assert(view_seq(appended@) =~= old_a.push(refs@[j as int]@));
                        assert(old_app + refsv.take(j as int + 1) =~= (old_app + refsv.take(
                            j as int,
                        )).push(refsv[j as int]));
                    }
                    j += 1;
                }
                proof {
                    assert(refsv.take(refsv.len() as int) =~= refsv);
                    assert(view_seq(appended@) == old_app + refsv);
                    assert forall|rest: Seq<ParentRefView>| true implies (old_app + (refsv
                        + rest)) =~= ((old_app + refsv) + rest) by {}
                }
            },
        }
        i += 1;
    }
    proof {
        assert(pv.skip(pv.len() as int) =~= Seq::<(ParentRefView, GatewayListenerPairView)>::empty());
        assert(spec_collect_refs(httproute@, pv) == Some(Some(view_seq(appended@))));
    }
    let mut combined = kept;
    let ghost keptv = view_seq(combined@);
    let ghost appendedv = view_seq(appended@);
    let mut k: usize = 0;
    let mut appended = appended;
    while k < appended.len()
        invariant
            k <= appended@.len(),
            appendedv == view_seq(appended@),
            view_seq(combined@) == keptv + appendedv.take(k as int),
        decreases appended@.len() - k,
    {
        let ghost old_c = view_seq(combined@);
        combined.push(appended[k].clone());
        proof {
            assert(view_seq(combined@) =~= old_c.push(appended@[k as int]@));
            assert(keptv + appendedv.take(k as int + 1) =~= (keptv + appendedv.take(
                k as int,
            )).push(appendedv[k as int]));
        }
        k += 1;
    }
    proof {
        assert(appendedv.take(appendedv.len() as int) =~= appendedv);
    }
    let mut new_spec = httproute.spec.clone();
    new_spec.parent_refs = Some(combined);
    let target = HttpRoute { metadata: httproute.metadata.clone(), spec: new_spec };
    proof {
        let goal = spec_route_target(httproute@, pv, appendedv);
        assert(target@.spec.parent_refs == Some(keptv + appendedv));
        assert(target@.spec =~= goal.spec);
        assert(target@ =~= goal);
    }
    Some(Ok(Status::Patch(target)))
}

/// Mutates an HTTPRoute.
pub fn mutate_httproute(httproute: &HttpRoute, cluster: &Cluster) -> (r: CheckResult<HttpRoute>)
    ensures
        check_view(r) == spec_mutate_httproute(httproute@, cluster@),
{
    let validate_result = validate_httproute(httproute, cluster);
    match validate_result {
        Some(Ok(Status::Denied(DenyReason::HTTPRouteNonRedirectAttachedToHTTPListener(
            payload,
        )))) => mutate_route(httproute, payload),
        r => r,
    }
}

} // verus!
