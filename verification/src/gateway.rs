//! The Gateway policy: validation (skip, the bad-route audit, then TLS
//! listener presence) and the two mutation branches (add HTTPS listeners,
//! or convert offending HTTP listeners in place).

use vstd::prelude::*;

use crate::annotations::{spec_external_dns_hostnames, spec_skip_check, skip_check};
use crate::attachment::{get_bad_httproutes_for_gateway, spec_bad_httproutes_for_gateway};
use crate::config::{Cli, CliView};
use crate::ingress::{patch_cert_manager, spec_patch_cert_manager};
use crate::objects::{
    clone_listeners, clone_opt_string, view_pairs, view_seq, CertificateRef, CertificateRefView,
    Cluster, Gateway, GatewaySpec, GatewaySpecView, GatewayView, HttpRoute, HttpRouteView,
    Listener, ListenerTls, ListenerTlsView, ListenerView, Metadata, NamespacesFrom, AllowedRoutes,
    AllowedRoutesView, RouteNamespaces, RouteNamespacesView, TlsMode,
};
use crate::status::{
    check_view, view_listener_parted, CheckResult, CheckResultView, ControlFlow, DenyReason,
    DenyReasonView, Parted, Status, StatusView,
};
use crate::strings::{dedup, dedup_strings, str_eq};

verus! {

/// Whether any listener terminates TLS over HTTPS.
pub open spec fn spec_has_https_listener(g: GatewayView) -> bool {
    exists|i: int|
        0 <= i < g.spec.listeners.len() && g.spec.listeners[i].protocol == "HTTPS"@
}

/// Decides whether the Gateway has an HTTPS listener.
fn has_https_listener(g: &Gateway) -> (r: bool)
    ensures
        r == spec_has_https_listener(g@),
{
    let ls = &g.spec.listeners;
    let ghost lsv = view_seq(ls@);
    let mut i: usize = 0;
    while i < ls.len()
        invariant
            i <= ls@.len(),
            lsv == view_seq(ls@),
            g@.spec.listeners == lsv,
            forall|j: int| 0 <= j < i ==> lsv[j].protocol != "HTTPS"@,
        decreases ls@.len() - i,
    {
        if str_eq(ls[i].protocol.as_str(), "HTTPS") {
            proof {
                assert(lsv[i as int] == ls@[i as int]@);
                assert(lsv[i as int].protocol == "HTTPS"@);
            }
            return true;
        }
        proof {
            assert(lsv[i as int] == ls@[i as int]@);
        }
        i += 1;
    }
    false
}

/// The TLS check: a Gateway without any HTTPS listener is denied.
pub open spec fn spec_tls_check(g: GatewayView) -> CheckResultView<GatewayView> {
    if spec_has_https_listener(g) {
        Some(Ok(StatusView::MoveOn))
    } else {
        Some(Ok(StatusView::Denied(DenyReasonView::GatewayNoTLSListener)))
    }
}

/// The bad-route check: an HTTP listener with a substantive route attached
/// is denied, with the audit as payload.
pub open spec fn spec_bad_routes_check(g: GatewayView, c: crate::objects::ClusterView) -> (
CheckResultView<GatewayView>) {
    match spec_bad_httproutes_for_gateway(g, c) {
        None => None,
        Some(Err(e)) => Some(Err(e)),
        Some(Ok(v)) => if v.len() == 0 {
            Some(Ok(StatusView::MoveOn))
        } else {
            Some(
                Ok(StatusView::Denied(
                    DenyReasonView::GatewayNonRedirectHTTPRouteAttachedToHTTPListener(v),
                )),
            )
        },
    }
}

/// The Gateway validation pipeline: skip, the bad-route audit, then TLS
/// listener presence.  Bad routes outrank the missing listener: they are
/// more actionable and may themselves imply it.
pub open spec fn spec_validate_gateway(g: GatewayView, c: crate::objects::ClusterView) -> (
CheckResultView<GatewayView>) {
    let r1 = spec_skip_check::<GatewayView>(g.metadata);
    if !crate::status::spec_is_continue(r1) {
        r1
    } else {
        let r2 = spec_bad_routes_check(g, c);
        if !crate::status::spec_is_continue(r2) {
            r2
        } else {
            spec_tls_check(g)
        }
    }
}

/// Validates a Gateway against the cluster snapshot.
pub fn validate_gateway(gateway: &Gateway, cluster: &Cluster) -> (r: CheckResult<Gateway>)
    ensures
        check_view(r) == spec_validate_gateway(gateway@, cluster@),
{
    let r1: CheckResult<Gateway> = skip_check(gateway);
    if r1.is_break() {
        return r1;
    }
    let r2: CheckResult<Gateway> = match get_bad_httproutes_for_gateway(gateway, cluster) {
        None => None,
        Some(Err(e)) => Some(Err(e)),
        Some(Ok(v)) => if v.len() == 0 {
            proof {
                assert(view_listener_parted(v@).len() == 0);
            }
            Some(Ok(Status::MoveOn))
        } else {
            proof {
                assert(view_listener_parted(v@).len() != 0);
            }
            Some(Ok(Status::Denied(
                DenyReason::GatewayNonRedirectHTTPRouteAttachedToHTTPListener(v),
            )))
        },
    };
    if r2.is_break() {
        return r2;
    }
    if has_https_listener(gateway) {
        Some(Ok(Status::MoveOn))
    } else {
        Some(Ok(Status::Denied(DenyReason::GatewayNoTLSListener)))
    }
}

/// The HTTPS port the class convention picks: the alternate port for the
/// Traefik class, the standard one otherwise.
pub open spec fn spec_https_port(g: GatewayView) -> int {
    if g.spec.gateway_class_name == "traefik"@ {
        8443
    } else {
        443
    }
}

/// The hostnames of the existing listeners, in order, absent ones skipped.
pub open spec fn spec_listener_hostnames(ls: Seq<ListenerView>) -> Seq<Seq<char>>
    decreases ls.len(),
{
    if ls.len() == 0 {
        Seq::<Seq<char>>::empty()
    } else {
        let r = spec_listener_hostnames(ls.drop_last());
        match ls.last().hostname {
            Some(h) => r.push(h),
            None => r,
        }
    }
}

/// The hostnames an added-listener mutation serves: listener hostnames,
/// then the external-dns ones, de-duplicated.
pub open spec fn spec_gateway_hosts(g: GatewayView) -> Seq<Seq<char>> {
    let from_listeners = spec_listener_hostnames(g.spec.listeners);
    let with_edns = match spec_external_dns_hostnames(g.metadata) {
        Some(e) => from_listeners + e,
        None => from_listeners,
    };
    dedup(with_edns)
}

/// The HTTPS listener synthesised for one hostname: named after the
/// Gateway, restricted to its own namespace, terminating TLS with a
/// synthesised certificate reference.
pub open spec fn spec_new_listener(
    gn: Seq<char>,
    gns: Seq<char>,
    port: int,
    h: Seq<char>,
) -> ListenerView {
    ListenerView {
        name: gn + "-https"@,
        port: port,
        protocol: "HTTPS"@,
        hostname: Some(h),
        tls: Some(
            ListenerTlsView {
                mode: Some(TlsMode::Terminate),
                certificate_refs: Some(
                    seq![
                        CertificateRefView { name: gn + "-https-tls"@, namespace: Some(gns) }
                    ],
                ),
            },
        ),
        allowed_routes: Some(
            AllowedRoutesView {
                namespaces: Some(
                    RouteNamespacesView { from: Some(NamespacesFrom::Same), selector: None },
                ),
            },
        ),
    }
}

/// Builds the HTTPS listener for one hostname.
fn make_new_listener(gn: &str, gns: &str, port: i32, h: &String) -> (r: Listener)
    ensures
        r@ == spec_new_listener(gn@, gns@, port as int, h@),
{
    let mut lname = gn.to_owned();
    lname.append("-https");
    let mut cert = gn.to_owned();
    cert.append("-https-tls");
    let r = Listener {
        name: lname,
        port: port,
        protocol: String::from_str("HTTPS"),
        hostname: Some(h.clone()),
        tls: Some(
            ListenerTls {
                mode: Some(TlsMode::Terminate),
                certificate_refs: Some(
                    vec![CertificateRef { name: cert, namespace: Some(gns.to_owned()) }],
                ),
            },
        ),
        allowed_routes: Some(
            AllowedRoutes {
                namespaces: Some(
                    RouteNamespaces { from: Some(NamespacesFrom::Same), selector: None },
                ),
            },
        ),
    };
    proof {
        assert(r@.tls->Some_0.certificate_refs->Some_0 =~= spec_new_listener(
            gn@,
            gns@,
            port as int,
            h@,
        ).tls->Some_0.certificate_refs->Some_0);
        assert(r@.tls->Some_0 =~= spec_new_listener(gn@, gns@, port as int, h@).tls->Some_0);
        assert(r@ =~= spec_new_listener(gn@, gns@, port as int, h@));
    }
    r
}

/// The repaired Gateway of the added-listener branch: one new HTTPS
/// listener per collected hostname, and the cert-manager annotations.
pub open spec fn spec_add_listeners_target(g: GatewayView, conf: CliView) -> GatewayView {
    let gn = g.metadata.name->Some_0;
    let gns = g.metadata.namespace->Some_0;
    let port = spec_https_port(g);
    let hosts = spec_gateway_hosts(g);
    GatewayView {
        metadata: crate::objects::MetadataView {
            name: g.metadata.name,
            namespace: g.metadata.namespace,
            annotations: Some(
                spec_patch_cert_manager(
                    match g.metadata.annotations {
                        Some(a) => a,
                        None => Seq::<(Seq<char>, Seq<char>)>::empty(),
                    },
                    conf,
                ),
            ),
        },
        spec: GatewaySpecView {
            gateway_class_name: g.spec.gateway_class_name,
            listeners: g.spec.listeners + hosts.map_values(
                |h: Seq<char>| spec_new_listener(gn, gns, port, h),
            ),
        },
    }
}

/// The added-listener mutation: inapplicable without a name and namespace.
pub open spec fn spec_mutate_gateway_add_listeners(g: GatewayView, conf: CliView) -> (
CheckResultView<GatewayView>) {
    match (g.metadata.name, g.metadata.namespace) {
        (Some(gn), Some(gns)) => Some(
            Ok(StatusView::Patch(spec_add_listeners_target(g, conf))),
        ),
        _ => None,
    }
}

/// Repairs a Gateway that lacks a TLS listener.
fn mutate_gateway_add_listeners(gateway: &Gateway, conf: &Cli) -> (r: CheckResult<Gateway>)
    ensures
        check_view(r) == spec_mutate_gateway_add_listeners(gateway@, conf@),
{
    let port: i32 = if str_eq(gateway.spec.gateway_class_name.as_str(), "traefik") {
        8443
    } else {
        443
    };
    let gn = match &gateway.metadata.name {
        Some(n) => n,
        None => {
            return None;
        },
    };
    let gns = match &gateway.metadata.namespace {
        Some(n) => n,
        None => {
            return None;
        },
    };
    let ls = &gateway.spec.listeners;
    let ghost lsv = view_seq(ls@);
    let mut hostnames: Vec<String> = Vec::new();
    let mut i: usize = 0;
    proof {
        assert(lsv.take(0) =~= Seq::<ListenerView>::empty());
        assert(view_seq(hostnames@) =~= Seq::<Seq<char>>::empty());
    }
    while i < ls.len()
        invariant
            i <= ls@.len(),
            lsv == view_seq(ls@),
            view_seq(hostnames@) == spec_listener_hostnames(lsv.take(i as int)),
        decreases ls@.len() - i,
    {
        proof {
            assert(lsv.take(i as int + 1).drop_last() =~= lsv.take(i as int));
            assert(lsv.take(i as int + 1).last() == ls@[i as int]@);
        }
        match &ls[i].hostname {
            Some(h) => {
                let ghost old_h = view_seq(hostnames@);
                hostnames.push(h.clone());
                proof {
                    assert(view_seq(hostnames@) =~= old_h.push(h@));
                }
            },
            None => {},
        }
        i += 1;
    }
    proof {
        assert(lsv.take(lsv.len() as int) =~= lsv);
    }
    match crate::annotations::get_external_dns_hostname(gateway) {
        Some(edns) => {
            let mut j: usize = 0;
            let ghost base = view_seq(hostnames@);
            let ghost ednsv = view_seq(edns@);
            while j < edns.len()
                invariant
                    j <= edns@.len(),
                    ednsv == view_seq(edns@),
                    view_seq(hostnames@) == base + ednsv.take(j as int),
                decreases edns@.len() - j,
            {
                let ghost old_h = view_seq(hostnames@);
                hostnames.push(edns[j].clone());
                proof {
                    assert(view_seq(hostnames@) =~= old_h.push(edns@[j as int]@));
                    assert(base + ednsv.take(j as int + 1) =~= (base + ednsv.take(
                        j as int,
                    )).push(ednsv[j as int]));
                }
                j += 1;
            }
            proof {
                assert(ednsv.take(ednsv.len() as int) =~= ednsv);
            }
        },
        None => {},
    }
    let hostnames = dedup_strings(hostnames);
    let ghost hosts = view_seq(hostnames@);
    proof {
        assert(hosts == spec_gateway_hosts(gateway@));
    }
    let mut new_listeners = clone_listeners(ls);
    let ghost added = Seq::<ListenerView>::empty();
    let mut k: usize = 0;
    proof {
        assert(hosts.take(0).map_values(
            |h: Seq<char>| spec_new_listener(gn@, gns@, port as int, h),
        ) =~= Seq::<ListenerView>::empty());
        assert(view_seq(new_listeners@) =~= lsv + hosts.take(0).map_values(
            |h: Seq<char>| spec_new_listener(gn@, gns@, port as int, h),
        ));
    }
    while k < hostnames.len()
        invariant
            k <= hostnames@.len(),
            hosts == view_seq(hostnames@),
            lsv == view_seq(ls@),
            view_seq(new_listeners@) == lsv + hosts.take(k as int).map_values(
                |h: Seq<char>| spec_new_listener(gn@, gns@, port as int, h),
            ),
        decreases hostnames@.len() - k,
    {
        let nl = make_new_listener(gn.as_str(), gns.as_str(), port, &hostnames[k]);
        let ghost old_nl = view_seq(new_listeners@);
        new_listeners.push(nl);
        proof {
            let f = |h: Seq<char>| spec_new_listener(gn@, gns@, port as int, h);
            assert(view_seq(new_listeners@) =~= old_nl.push(
                spec_new_listener(gn@, gns@, port as int, hosts[k as int]),
            ));
            assert(hosts.take(k as int + 1).map_values(f) =~= hosts.take(k as int).map_values(
                f,
            ).push(f(hosts[k as int])));
            assert(view_seq(new_listeners@) =~= lsv + hosts.take(k as int + 1).map_values(f));
        }
        k += 1;
    }
    proof {
        assert(hosts.take(hosts.len() as int) =~= hosts);
    }
    let mut annotations: Vec<(String, String)> = match &gateway.metadata.annotations {
        Some(a) => crate::objects::clone_pairs(a),
        None => Vec::new(),
    };
    proof {
        match gateway@.metadata.annotations {
            Some(a) => {
                assert(view_pairs(annotations@) == a);
            },
            None => {
                assert(view_pairs(annotations@) =~= Seq::<(Seq<char>, Seq<char>)>::empty());
            },
        }
    }
    patch_cert_manager(&mut annotations, conf);
    let target = Gateway {
        metadata: Metadata {
            name: clone_opt_string(&gateway.metadata.name),
            namespace: clone_opt_string(&gateway.metadata.namespace),
            annotations: Some(annotations),
        },
        spec: GatewaySpec {
            gateway_class_name: gateway.spec.gateway_class_name.clone(),
            listeners: new_listeners,
        },
    };
    proof {
        let goal = spec_add_listeners_target(gateway@, conf@);
        assert(target@.metadata =~= goal.metadata);
        assert(target@.spec.listeners == goal.spec.listeners);
        assert(target@.spec =~= goal.spec);
        assert(target@ =~= goal);
    }
    Some(Ok(Status::Patch(target)))
}

} // verus!

verus! {

/// The first listener with the given name, as an in-place lookup.
pub open spec fn spec_first_listener_by_name(ls: Seq<ListenerView>, n: Seq<char>) -> Option<
    ListenerView,
>
    decreases ls.len(),
{
    if ls.len() == 0 {
        None
    } else if ls[0].name == n {
        Some(ls[0])
    } else {
        spec_first_listener_by_name(ls.drop_first(), n)
    }
}

proof fn lemma_first_listener_skip(ls: Seq<ListenerView>, n: Seq<char>, i: int)
    requires
        0 <= i <= ls.len(),
        forall|j: int| 0 <= j < i ==> ls[j].name != n,
    ensures
        spec_first_listener_by_name(ls, n) == spec_first_listener_by_name(ls.skip(i), n),
    decreases i,
{
    if i > 0 {
        lemma_first_listener_skip(ls.drop_first(), n, i - 1);
        assert(ls.drop_first().skip(i - 1) =~= ls.skip(i));
    } else {
        assert(ls.skip(0) =~= ls);
    }
}

/// Finds the first listener with the given name.
fn first_listener_by_name<'a>(ls: &'a Vec<Listener>, n: &str) -> (r: Option<&'a Listener>)
    ensures
        match r {
            Some(l) => spec_first_listener_by_name(view_seq(ls@), n@) == Some(l@),
            None => spec_first_listener_by_name(view_seq(ls@), n@) is None,
        },
{
    let ghost lsv = view_seq(ls@);
    let mut i: usize = 0;
    while i < ls.len()
        invariant
            i <= ls@.len(),
            lsv == view_seq(ls@),
            forall|j: int| 0 <= j < i ==> lsv[j].name != n@,
        decreases ls@.len() - i,
    {
        if str_eq(ls[i].name.as_str(), n) {
            proof {
                lemma_first_listener_skip(lsv, n@, i as int);
                assert(lsv.skip(i as int)[0] == lsv[i as int]);
            }
            return Some(&ls[i]);
        }
        proof {
            assert(lsv[i as int] == ls@[i as int]@);
        }
        i += 1;
    }
    proof {
        lemma_first_listener_skip(lsv, n@, lsv.len() as int);
        assert(lsv.skip(lsv.len() as int) =~= Seq::<ListenerView>::empty());
    }
    None
}

/// Whether an offending listener can be converted in place: no redirect
/// route shares it, and the listener (as found by name on the Gateway)
/// carries a non-empty hostname.
pub open spec fn spec_pair_convertible(
    p: (ListenerView, Parted<Seq<HttpRouteView>>),
    ls: Seq<ListenerView>,
) -> bool {
    &&& p.1.good.len() == 0
    &&& match spec_first_listener_by_name(ls, p.0.name) {
        Some(l) => match l.hostname {
            Some(h) => h.len() > 0,
            None => false,
        },
        None => false,
    }
}

/// Whether every offending listener is convertible.
pub open spec fn spec_all_convertible(
    payload: Seq<(ListenerView, Parted<Seq<HttpRouteView>>)>,
    ls: Seq<ListenerView>,
) -> bool {
    forall|i: int| 0 <= i < payload.len() ==> spec_pair_convertible(payload[i], ls)
}

/// Whether some offending listener has the given name.
pub open spec fn spec_name_in_payload(
    payload: Seq<(ListenerView, Parted<Seq<HttpRouteView>>)>,
    n: Seq<char>,
) -> bool {
    exists|i: int| 0 <= i < payload.len() && payload[i].0.name == n
}

/// A listener converted in place: HTTPS, the class-convention port, and a
/// terminating TLS block with a synthesised certificate reference; name,
/// hostname and allowed routes are kept.
pub open spec fn spec_convert_one(
    l: ListenerView,
    gn: Seq<char>,
    gns: Seq<char>,
    port: int,
) -> ListenerView {
    ListenerView {
        name: l.name,
        port: port,
        protocol: "HTTPS"@,
        hostname: l.hostname,
        tls: Some(
            ListenerTlsView {
                mode: Some(TlsMode::Terminate),
                certificate_refs: Some(
                    seq![
                        CertificateRefView {
                            name: gn + "-"@ + l.name + "-tls"@,
                            namespace: Some(gns),
                        }
                    ],
                ),
            },
        ),
        allowed_routes: l.allowed_routes,
    }
}

/// The listener list after conversion: every listener named in the payload
/// is converted, the rest are untouched.
pub open spec fn spec_converted_listeners(
    ls: Seq<ListenerView>,
    payload: Seq<(ListenerView, Parted<Seq<HttpRouteView>>)>,
    gn: Seq<char>,
    gns: Seq<char>,
    port: int,
) -> Seq<ListenerView> {
    ls.map_values(
        |l: ListenerView|
            if spec_name_in_payload(payload, l.name) {
                spec_convert_one(l, gn, gns, port)
            } else {
                l
            },
    )
}

/// The convert-listeners mutation: if any offending listener is
/// inconvertible the denial is re-emitted; otherwise the repaired clone is
/// returned.  Inapplicable without a name and namespace.
pub open spec fn spec_mutate_gateway_convert_listeners(
    payload: Seq<(ListenerView, Parted<Seq<HttpRouteView>>)>,
    g: GatewayView,
) -> CheckResultView<GatewayView> {
    match (g.metadata.name, g.metadata.namespace) {
        (Some(gn), Some(gns)) => {
            if spec_all_convertible(payload, g.spec.listeners) {
                Some(
                    Ok(StatusView::Patch(
                        GatewayView {
                            metadata: g.metadata,
                            spec: GatewaySpecView {
                                gateway_class_name: g.spec.gateway_class_name,
                                listeners: spec_converted_listeners(
                                    g.spec.listeners,
                                    payload,
                                    gn,
                                    gns,
                                    spec_https_port(g),
                                ),
                            },
                        },
                    )),
                )
            } else {
                Some(
                    Ok(StatusView::Denied(
                        DenyReasonView::GatewayNonRedirectHTTPRouteAttachedToHTTPListener(payload),
                    )),
                )
            }
        },
        _ => None,
    }
}

/// Whether some payload entry carries this listener name.
fn name_in_payload(payload: &Vec<(Listener, Parted<Vec<HttpRoute>>)>, n: &str) -> (r: bool)
    ensures
        r == spec_name_in_payload(view_listener_parted(payload@), n@),
{
    let ghost pv = view_listener_parted(payload@);
    let mut i: usize = 0;
    while i < payload.len()
        invariant
            i <= payload@.len(),
            pv == view_listener_parted(payload@),
            forall|j: int| 0 <= j < i ==> pv[j].0.name != n@,
        decreases payload@.len() - i,
    {
        if str_eq(payload[i].0.name.as_str(), n) {
            proof {
                assert(pv[i as int].0 == payload@[i as int].0@);
            }
            return true;
        }
        proof {
            assert(pv[i as int].0 == payload@[i as int].0@);
        }
        i += 1;
    }
    false
}

/// Converts one listener in place.
fn convert_one(l: &Listener, gn: &str, gns: &str, port: i32) -> (r: Listener)
    ensures
        r@ == spec_convert_one(l@, gn@, gns@, port as int),
{
    let mut cert = gn.to_owned();
    cert.append("-");
    cert.append(l.name.as_str());
    cert.append("-tls");
    let r = Listener {
        name: l.name.clone(),
        port: port,
        protocol: String::from_str("HTTPS"),
        hostname: clone_opt_string(&l.hostname),
        tls: Some(
            ListenerTls {
                mode: Some(TlsMode::Terminate),
                certificate_refs: Some(
                    vec![CertificateRef { name: cert, namespace: Some(gns.to_owned()) }],
                ),
            },
        ),
        allowed_routes: match &l.allowed_routes {
            Some(a) => Some(a.clone()),
            None => None,
        },
    };
    proof {
        let goal = spec_convert_one(l@, gn@, gns@, port as int);
        assert(r@.tls->Some_0.certificate_refs->Some_0 =~= goal.tls->Some_0.certificate_refs
            ->Some_0);
        assert(r@.tls->Some_0 =~= goal.tls->Some_0);
        assert(r@ =~= goal);
    }
    r
}

/// Repairs a Gateway whose HTTP listeners carry substantive routes.
fn mutate_gateway_convert_listeners(
    payload: Vec<(Listener, Parted<Vec<HttpRoute>>)>,
    gateway: &Gateway,
) -> (r: CheckResult<Gateway>)
    ensures
        check_view(r) == spec_mutate_gateway_convert_listeners(
            view_listener_parted(payload@),
            gateway@,
        ),
{
    let ghost pv = view_listener_parted(payload@);
    let port: i32 = if str_eq(gateway.spec.gateway_class_name.as_str(), "traefik") {
        8443
    } else {
        443
    };
    let gn = match &gateway.metadata.name {
        Some(n) => n,
        None => {
            return None;
        },
    };
    let gns = match &gateway.metadata.namespace {
        Some(n) => n,
        None => {
            return None;
        },
    };
    let ls = &gateway.spec.listeners;
    let ghost lsv = view_seq(ls@);
    let mut all_convertible = true;
    let mut i: usize = 0;
    while i < payload.len()
        invariant
            i <= payload@.len(),
            pv == view_listener_parted(payload@),
            lsv == view_seq(ls@),
            all_convertible == (forall|j: int|
                0 <= j < i ==> spec_pair_convertible(pv[j], lsv)),
        decreases payload@.len() - i,
    {
        if all_convertible {
            let p = &payload[i];
            let good_empty = p.1.good.len() == 0;
            let hostname_ok = match first_listener_by_name(ls, p.0.name.as_str()) {
                Some(l) => match &l.hostname {
                    Some(h) => h.as_str().unicode_len() > 0,
                    None => false,
                },
                None => false,
            };
            proof {
                assert(pv[i as int].0 == payload@[i as int].0@);
                assert(pv[i as int].1.good == view_seq(payload@[i as int].1.good@));
            }
            if !(good_empty && hostname_ok) {
                proof {
                    assert(!spec_pair_convertible(pv[i as int], lsv));
                }
                all_convertible = false;
            } else {
                proof {
                    assert(spec_pair_convertible(pv[i as int], lsv));
                }
            }
        } else {
            proof {
                assert(exists|j: int| 0 <= j < i && !spec_pair_convertible(pv[j], lsv));
            }
        }
        i += 1;
    }
    if !all_convertible {
        return Some(
            Ok(Status::Denied(
                DenyReason::GatewayNonRedirectHTTPRouteAttachedToHTTPListener(payload),
            )),
        );
    }
    let mut new_listeners: Vec<Listener> = Vec::new();
    let mut k: usize = 0;
    let ghost converted = spec_converted_listeners(lsv, pv, gn@, gns@, port as int);
    proof {
        assert(view_seq(new_listeners@) =~= converted.take(0));
    }
    while k < ls.len()
        invariant
            k <= ls@.len(),
            lsv == view_seq(ls@),
            pv == view_listener_parted(payload@),
            converted == spec_converted_listeners(lsv, pv, gn@, gns@, port as int),
            view_seq(new_listeners@) == converted.take(k as int),
        decreases ls@.len() - k,
    {
        let l = &ls[k];
        proof {
            assert(lsv[k as int] == ls@[k as int]@);
        }
        let nl = if name_in_payload(&payload, l.name.as_str()) {
            convert_one(l, gn.as_str(), gns.as_str(), port)
        } else {
            l.clone()
        };
        let ghost old_nl = view_seq(new_listeners@);
        new_listeners.push(nl);
        proof {
            assert(converted[k as int] == (if spec_name_in_payload(pv, lsv[k as int].name) {
                spec_convert_one(lsv[k as int], gn@, gns@, port as int)
            } else {
                lsv[k as int]
            }));
            assert(view_seq(new_listeners@) =~= old_nl.push(converted[k as int]));
            assert(view_seq(new_listeners@) =~= converted.take(k as int + 1));
        }
        k += 1;
    }
    proof {
        assert(converted.take(converted.len() as int) =~= converted);
    }
    let target = Gateway {
        metadata: gateway.metadata.clone(),
        spec: GatewaySpec {
            gateway_class_name: gateway.spec.gateway_class_name.clone(),
            listeners: new_listeners,
        },
    };
    proof {
        let goal = spec_mutate_gateway_convert_listeners(pv, gateway@);
        assert(target@.spec =~= goal->Some_0->Ok_0->Patch_0.spec);
        assert(target@ =~= goal->Some_0->Ok_0->Patch_0);
    }
    Some(Ok(Status::Patch(target)))
}

/// The Gateway mutation pipeline: dispatch on the validation denial.
pub open spec fn spec_mutate_gateway(
    g: GatewayView,
    conf: CliView,
    c: crate::objects::ClusterView,
) -> CheckResultView<GatewayView> {
    let v = spec_validate_gateway(g, c);
    match v {
        Some(Ok(StatusView::Denied(DenyReasonView::GatewayNoTLSListener))) => (
        spec_mutate_gateway_add_listeners(g, conf)),
        Some(
            Ok(
                StatusView::Denied(
                    DenyReasonView::GatewayNonRedirectHTTPRouteAttachedToHTTPListener(payload),
                ),
            ),
        ) => spec_mutate_gateway_convert_listeners(payload, g),
        _ => v,
    }
}

/// Mutates a Gateway.
pub fn mutate_gateway(gateway: &Gateway, conf: &Cli, cluster: &Cluster) -> (r: CheckResult<
    Gateway,
>)
    ensures
        check_view(r) == spec_mutate_gateway(gateway@, conf@, cluster@),
{
    let validate_result = validate_gateway(gateway, cluster);
    match validate_result {
        Some(Ok(Status::Denied(DenyReason::GatewayNoTLSListener))) => mutate_gateway_add_listeners(
            gateway,
            conf,
        ),
        Some(Ok(Status::Denied(DenyReason::GatewayNonRedirectHTTPRouteAttachedToHTTPListener(
            payload,
        )))) => mutate_gateway_convert_listeners(payload, gateway),
        r => r,
    }
}

} // verus!
