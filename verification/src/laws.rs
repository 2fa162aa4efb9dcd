//! The properties the engine promises, proved once and for all: skipped
//! objects are always allowed, well-formed objects are never denied, and a
//! mutator's repair survives revalidation.

use vstd::prelude::*;

use crate::annotations::{
    spec_insert_absent, spec_lookup, spec_skip, spec_skip_requested, lemma_insert_absent_preserves,
};
use crate::classifier::{spec_canonical_rule, spec_is_redirect_or_no_rule};
use crate::config::CliView;
use crate::gateway::{spec_mutate_gateway, spec_validate_gateway};
use crate::httproute::{spec_mutate_httproute, spec_validate_httproute};
use crate::ingress::{
    spec_mutate_ingress, spec_patch_annotations_ingress, spec_patch_cert_manager,
    spec_validate_ingress,
};
use crate::objects::{ClusterView, GatewayView, HttpRouteView, IngressView};
use crate::status::{DenyReasonView, StatusView};

verus! {

/// A skipped Ingress is allowed by the validator and the mutator alike.
pub proof fn lemma_skip_allows_ingress(i: IngressView, conf: CliView)
    requires
        spec_skip_requested(i.metadata),
    ensures
        spec_validate_ingress(i) == Some(Ok::<StatusView<IngressView>, Seq<char>>(
            StatusView::Allowed,
        )),
        spec_mutate_ingress(i, conf) == Some(Ok::<StatusView<IngressView>, Seq<char>>(
            StatusView::Allowed,
        )),
{
}

/// A skipped Gateway is allowed by the validator and the mutator alike,
/// whatever the cluster holds: the decision never consults it.
pub proof fn lemma_skip_allows_gateway(g: GatewayView, conf: CliView, c: ClusterView)
    requires
        spec_skip_requested(g.metadata),
    ensures
        spec_validate_gateway(g, c) == Some(Ok::<StatusView<GatewayView>, Seq<char>>(
            StatusView::Allowed,
        )),
        spec_mutate_gateway(g, conf, c) == Some(Ok::<StatusView<GatewayView>, Seq<char>>(
            StatusView::Allowed,
        )),
{
}

/// A skipped HTTPRoute is allowed by the validator and the mutator alike,
/// whatever the cluster holds.
pub proof fn lemma_skip_allows_httproute(rt: HttpRouteView, c: ClusterView)
    requires
        spec_skip_requested(rt.metadata),
    ensures
        spec_validate_httproute(rt, c) == Some(Ok::<StatusView<HttpRouteView>, Seq<char>>(
            StatusView::Allowed,
        )),
        spec_mutate_httproute(rt, c) == Some(Ok::<StatusView<HttpRouteView>, Seq<char>>(
            StatusView::Allowed,
        )),
{
}

/// An Ingress with a non-empty TLS block is never denied.
pub proof fn lemma_ingress_with_tls_not_denied(i: IngressView)
    requires
        match i.spec {
            Some(s) => match s.tls {
                Some(t) => t.len() > 0,
                None => false,
            },
            None => false,
        },
    ensures
        !(spec_validate_ingress(i) matches Some(Ok(StatusView::Denied(_)))),
{
}

/// A redirect-or-empty HTTPRoute is allowed outright, whatever its parent
/// references and whatever the cluster holds.
pub proof fn lemma_redirect_route_allowed(rt: HttpRouteView, c: ClusterView)
    requires
        spec_is_redirect_or_no_rule(rt),
    ensures
        spec_validate_httproute(rt, c) == Some(Ok::<StatusView<HttpRouteView>, Seq<char>>(
            StatusView::Allowed,
        )),
{
}

/// A route whose single rule is the canonical redirect rule is classified
/// as redirect-or-empty.
pub proof fn lemma_canonical_route_is_redirect(rt: HttpRouteView)
    requires
        match rt.spec.rules {
            Some(rs) => rs.len() == 1 && spec_canonical_rule(rs[0]),
            None => true,
        },
    ensures
        spec_is_redirect_or_no_rule(rt),
{
}

} // verus!

verus! {

/// An existing annotation survives the cert-manager patch unchanged.
pub proof fn lemma_cert_manager_preserves(
    a: Seq<(Seq<char>, Seq<char>)>,
    conf: CliView,
    k: Seq<char>,
)
    requires
        spec_lookup(a, k) is Some,
    ensures
        spec_lookup(spec_patch_cert_manager(a, conf), k) == spec_lookup(a, k),
{
    match conf.cma {
        None => {},
        Some(x) => {
            let a1 = match x.group {
                Some(g) => spec_insert_absent(a, "cert-manager.io/issuer-group"@, g),
                None => a,
            };
            let a2 = match x.kind {
                Some(kk) => spec_insert_absent(a1, "cert-manager.io/issuer-kind"@, kk),
                None => a1,
            };
            match x.group {
                Some(g) => {
                    lemma_insert_absent_preserves(a, "cert-manager.io/issuer-group"@, g, k);
                },
                None => {},
            }
            match x.kind {
                Some(kk) => {
                    lemma_insert_absent_preserves(a1, "cert-manager.io/issuer-kind"@, kk, k);
                },
                None => {},
            }
            match x.issuer {
                crate::config::IssuerView::Namespaced(v) => {
                    lemma_insert_absent_preserves(a2, "cert-manager.io/issuer"@, v, k);
                },
                crate::config::IssuerView::Clustered(v) => {
                    lemma_insert_absent_preserves(a2, "cert-manager.io/cluster-issuer"@, v, k);
                },
            }
        },
    }
}

/// An existing annotation survives the whole Ingress annotation patch
/// unchanged: no mutation overwrites what was already there.
pub proof fn lemma_ingress_patch_preserves(
    a: Seq<(Seq<char>, Seq<char>)>,
    ic: Option<crate::config::SupportedIngressClass>,
    ns: Seq<char>,
    conf: CliView,
    k: Seq<char>,
)
    requires
        spec_lookup(a, k) is Some,
    ensures
        spec_lookup(spec_patch_annotations_ingress(a, ic, ns, conf), k) == spec_lookup(a, k),
{
    lemma_cert_manager_preserves(a, conf, k);
    let b = spec_patch_cert_manager(a, conf);
    match ic {
        Some(crate::config::SupportedIngressClass::Traefik) => {
            match conf.traefik_ingress_redirect_resource_name {
                Some(v) => {
                    lemma_insert_absent_preserves(
                        b,
                        "traefik.ingress.kubernetes.io/router.middlewares"@,
                        crate::ingress::spec_middleware_value(v, ns),
                        k,
                    );
                },
                None => {},
            }
        },
        Some(crate::config::SupportedIngressClass::Nginx) => {
            lemma_insert_absent_preserves(
                b,
                "nginx.ingress.kubernetes.io/force-ssl-redirect"@,
                "true"@,
                k,
            );
        },
        None => {},
    }
}

/// No Ingress mutation overwrites an annotation that was already present.
pub proof fn lemma_ingress_mutation_preserves_annotations(
    i: IngressView,
    conf: CliView,
    t: IngressView,
    k: Seq<char>,
)
    requires
        spec_mutate_ingress(i, conf) == Some(Ok::<StatusView<IngressView>, Seq<char>>(
            StatusView::Patch(t),
        )),
        i.metadata.annotations is Some,
        spec_lookup(i.metadata.annotations->Some_0, k) is Some,
    ensures
        t.metadata.annotations is Some,
        spec_lookup(t.metadata.annotations->Some_0, k) == spec_lookup(
            i.metadata.annotations->Some_0,
            k,
        ),
{
    let a = i.metadata.annotations->Some_0;
    let s = i.spec->Some_0;
    let ic = match s.ingress_class_name {
        Some(cn) => crate::config::spec_ingress_class(cn),
        None => None,
    };
    lemma_ingress_patch_preserves(a, ic, i.metadata.namespace->Some_0, conf, k);
}

/// No Gateway mutation overwrites an annotation that was already present.
pub proof fn lemma_gateway_mutation_preserves_annotations(
    g: GatewayView,
    conf: CliView,
    c: ClusterView,
    t: GatewayView,
    k: Seq<char>,
)
    requires
        spec_mutate_gateway(g, conf, c) == Some(Ok::<StatusView<GatewayView>, Seq<char>>(
            StatusView::Patch(t),
        )),
        g.metadata.annotations is Some,
        spec_lookup(g.metadata.annotations->Some_0, k) is Some,
    ensures
        t.metadata.annotations is Some,
        spec_lookup(t.metadata.annotations->Some_0, k) == spec_lookup(
            g.metadata.annotations->Some_0,
            k,
        ),
{
    let a = g.metadata.annotations->Some_0;
    let v = spec_validate_gateway(g, c);
    match v {
        Some(Ok(StatusView::Denied(DenyReasonView::GatewayNoTLSListener))) => {
            lemma_cert_manager_preserves(a, conf, k);
        },
        Some(
            Ok(
                StatusView::Denied(
                    DenyReasonView::GatewayNonRedirectHTTPRouteAttachedToHTTPListener(payload),
                ),
            ),
        ) => {
            // The convert branch leaves the metadata untouched.
        },
        _ => {},
    }
}

/// No HTTPRoute mutation touches the annotations at all.
pub proof fn lemma_httproute_mutation_preserves_annotations(
    rt: HttpRouteView,
    c: ClusterView,
    t: HttpRouteView,
)
    requires
        spec_mutate_httproute(rt, c) == Some(Ok::<StatusView<HttpRouteView>, Seq<char>>(
            StatusView::Patch(t),
        )),
    ensures
        t.metadata == rt.metadata,
{
}

} // verus!

verus! {

/// Keys that the cert-manager patch does not write keep their lookup.
pub proof fn lemma_cert_manager_other(
    a: Seq<(Seq<char>, Seq<char>)>,
    conf: CliView,
    k: Seq<char>,
)
    requires
        k != "cert-manager.io/issuer-group"@,
        k != "cert-manager.io/issuer-kind"@,
        k != "cert-manager.io/issuer"@,
        k != "cert-manager.io/cluster-issuer"@,
    ensures
        spec_lookup(spec_patch_cert_manager(a, conf), k) == spec_lookup(a, k),
{
    match conf.cma {
        None => {},
        Some(x) => {
            let a1 = match x.group {
                Some(g) => spec_insert_absent(a, "cert-manager.io/issuer-group"@, g),
                None => a,
            };
            let a2 = match x.kind {
                Some(kk) => spec_insert_absent(a1, "cert-manager.io/issuer-kind"@, kk),
                None => a1,
            };
            match x.group {
                Some(g) => {
                    crate::annotations::lemma_insert_absent_other(
                        a,
                        "cert-manager.io/issuer-group"@,
                        g,
                        k,
                    );
                },
                None => {},
            }
            match x.kind {
                Some(kk) => {
                    crate::annotations::lemma_insert_absent_other(
                        a1,
                        "cert-manager.io/issuer-kind"@,
                        kk,
                        k,
                    );
                },
                None => {},
            }
            match x.issuer {
                crate::config::IssuerView::Namespaced(v) => {
                    crate::annotations::lemma_insert_absent_other(
                        a2,
                        "cert-manager.io/issuer"@,
                        v,
                        k,
                    );
                },
                crate::config::IssuerView::Clustered(v) => {
                    crate::annotations::lemma_insert_absent_other(
                        a2,
                        "cert-manager.io/cluster-issuer"@,
                        v,
                        k,
                    );
                },
            }
        },
    }
}

/// The skip annotation's lookup survives the Ingress annotation patch.
pub proof fn lemma_ingress_patch_keeps_skip(
    a: Seq<(Seq<char>, Seq<char>)>,
    ic: Option<crate::config::SupportedIngressClass>,
    ns: Seq<char>,
    conf: CliView,
)
    ensures
        spec_lookup(
            spec_patch_annotations_ingress(a, ic, ns, conf),
            "ingress-tls.magiclouds.cn/skip"@,
        ) == spec_lookup(a, "ingress-tls.magiclouds.cn/skip"@),
{
    let k = "ingress-tls.magiclouds.cn/skip"@;
    crate::annotations::lemma_skip_key_distinct();
    lemma_cert_manager_other(a, conf, k);
    let b = spec_patch_cert_manager(a, conf);
    match ic {
        Some(crate::config::SupportedIngressClass::Traefik) => {
            match conf.traefik_ingress_redirect_resource_name {
                Some(v) => {
                    crate::annotations::lemma_insert_absent_other(
                        b,
                        "traefik.ingress.kubernetes.io/router.middlewares"@,
                        crate::ingress::spec_middleware_value(v, ns),
                        k,
                    );
                },
                None => {},
            }
        },
        Some(crate::config::SupportedIngressClass::Nginx) => {
            crate::annotations::lemma_insert_absent_other(
                b,
                "nginx.ingress.kubernetes.io/force-ssl-redirect"@,
                "true"@,
                k,
            );
        },
        None => {},
    }
}

/// Applying an Ingress mutation's repair and revalidating never yields a
/// denial: the added TLS block satisfies the policy, and the skip decision
/// is unchanged.
pub proof fn lemma_ingress_patch_revalidates(i: IngressView, conf: CliView, t: IngressView)
    requires
        spec_mutate_ingress(i, conf) == Some(Ok::<StatusView<IngressView>, Seq<char>>(
            StatusView::Patch(t),
        )),
    ensures
        !(spec_validate_ingress(t) matches Some(Ok(StatusView::Denied(_)))),
{
    let s = i.spec->Some_0;
    let ic = match s.ingress_class_name {
        Some(cn) => crate::config::spec_ingress_class(cn),
        None => None,
    };
    let base = match i.metadata.annotations {
        Some(a) => a,
        None => Seq::<(Seq<char>, Seq<char>)>::empty(),
    };
    lemma_ingress_patch_keeps_skip(base, ic, i.metadata.namespace->Some_0, conf);
    assert(spec_skip(t.metadata) == spec_skip(i.metadata));
}

} // verus!

verus! {

/// The two listener protocol names are distinct.
pub proof fn lemma_protocol_literals()
    ensures
        "HTTPS"@ != "HTTP"@,
{
    broadcast use vstd::string::group_string_axioms;

    reveal_strlit("HTTPS");
    reveal_strlit("HTTP");
    assert("HTTPS"@.len() == 5);
    assert("HTTP"@.len() == 4);
}

/// Appending listeners that are not HTTP leaves the bad-route audit
/// unchanged.
pub proof fn lemma_audit_append_non_http(
    gn: Seq<char>,
    gns: Seq<char>,
    ls: Seq<crate::objects::ListenerView>,
    xs: Seq<crate::objects::ListenerView>,
    c: ClusterView,
)
    requires
        forall|i: int| 0 <= i < xs.len() ==> #[trigger] xs[i].protocol != "HTTP"@,
    ensures
        crate::attachment::spec_bad_listeners(gn, gns, ls + xs, c)
            == crate::attachment::spec_bad_listeners(gn, gns, ls, c),
    decreases xs.len(),
{
    if xs.len() == 0 {
        assert(ls + xs =~= ls);
    } else {
        let ys = xs.drop_last();
        lemma_audit_append_non_http(gn, gns, ls, ys, c);
        assert((ls + xs).drop_last() =~= ls + ys);
        assert((ls + xs).last() == xs.last());
    }
}

/// Applying a Gateway mutation's repair and revalidating never yields a
/// denial, provided the added-listener branch had at least one hostname to
/// serve (with none, the repair can only add annotations and the Gateway
/// still lacks a TLS listener).
pub proof fn lemma_gateway_patch_revalidates(
    g: GatewayView,
    conf: CliView,
    c: ClusterView,
    t: GatewayView,
)
    requires
        spec_mutate_gateway(g, conf, c) == Some(Ok::<StatusView<GatewayView>, Seq<char>>(
            StatusView::Patch(t),
        )),
        spec_validate_gateway(g, c) == Some(Ok::<StatusView<GatewayView>, Seq<char>>(
            StatusView::Denied(DenyReasonView::GatewayNoTLSListener),
        )) ==> crate::gateway::spec_gateway_hosts(g).len() > 0,
    ensures
        !(spec_validate_gateway(t, c) matches Some(Ok(StatusView::Denied(_)))),
{
    lemma_protocol_literals();
    let v = spec_validate_gateway(g, c);
    let gn = g.metadata.name->Some_0;
    let gns = g.metadata.namespace->Some_0;
    match v {
        Some(Ok(StatusView::Denied(DenyReasonView::GatewayNoTLSListener))) => {
            let base = match g.metadata.annotations {
                Some(a) => a,
                None => Seq::<(Seq<char>, Seq<char>)>::empty(),
            };
            crate::annotations::lemma_skip_key_distinct();
            lemma_cert_manager_other(base, conf, "ingress-tls.magiclouds.cn/skip"@);
            assert(spec_skip(t.metadata) == spec_skip(g.metadata));
            let hosts = crate::gateway::spec_gateway_hosts(g);
            let port = crate::gateway::spec_https_port(g);
            let added = hosts.map_values(
                |h: Seq<char>| crate::gateway::spec_new_listener(gn, gns, port, h),
            );
            assert forall|i: int| 0 <= i < added.len() implies #[trigger] added[i].protocol
                != "HTTP"@ by {
                assert(added[i] == crate::gateway::spec_new_listener(gn, gns, port, hosts[i]));
            }
            lemma_audit_append_non_http(gn, gns, g.spec.listeners, added, c);
            assert(added[0].protocol == "HTTPS"@);
            assert(t.spec.listeners[g.spec.listeners.len() as int] == added[0]);
            assert(crate::gateway::spec_has_https_listener(t));
        },
        Some(
            Ok(
                StatusView::Denied(
                    DenyReasonView::GatewayNonRedirectHTTPRouteAttachedToHTTPListener(payload),
                ),
            ),
        ) => {
            lemma_gateway_convert_revalidates(g, c, payload, t);
        },
        _ => {},
    }
}

/// After the in-place conversion every offending listener is HTTPS, the
/// audit is clean, and a TLS listener exists.
proof fn lemma_gateway_convert_revalidates(
    g: GatewayView,
    c: ClusterView,
    payload: Seq<(crate::objects::ListenerView, crate::status::Parted<Seq<HttpRouteView>>)>,
    t: GatewayView,
)
    requires
        spec_validate_gateway(g, c) == Some(Ok::<StatusView<GatewayView>, Seq<char>>(
            StatusView::Denied(
                DenyReasonView::GatewayNonRedirectHTTPRouteAttachedToHTTPListener(payload),
            ),
        )),
        crate::gateway::spec_mutate_gateway_convert_listeners(payload, g) == Some(Ok::<
            StatusView<GatewayView>,
            Seq<char>,
        >(StatusView::Patch(t))),
    ensures
        !(spec_validate_gateway(t, c) matches Some(Ok(StatusView::Denied(_)))),
{
    lemma_protocol_literals();
    let gn = g.metadata.name->Some_0;
    let gns = g.metadata.namespace->Some_0;
    let port = crate::gateway::spec_https_port(g);
    let ls = g.spec.listeners;
    assert(t.metadata == g.metadata);
    assert(spec_skip(t.metadata) == spec_skip(g.metadata));
    assert(crate::attachment::spec_bad_listeners(gn, gns, ls, c) == Ok::<
        Seq<(crate::objects::ListenerView, crate::status::Parted<Seq<HttpRouteView>>)>,
        Seq<char>,
    >(payload));
    assert forall|i: int| 0 <= i < payload.len() implies crate::gateway::spec_name_in_payload(
        payload,
        #[trigger] payload[i].0.name,
    ) by {}
    lemma_convert_audit(gn, gns, ls, c, payload, payload, port);
    assert(payload.len() > 0);
    lemma_payload_listener_exists(gn, gns, ls, c, payload, 0);
    let j = choose|j: int| 0 <= j < ls.len() && ls[j] == payload[0].0;
    assert(crate::gateway::spec_name_in_payload(payload, ls[j].name));
    assert(t.spec.listeners[j] == crate::gateway::spec_convert_one(ls[j], gn, gns, port));
    assert(t.spec.listeners[j].protocol == "HTTPS"@);
    assert(crate::gateway::spec_has_https_listener(t));
}

/// Once every listener named in the payload is converted away from HTTP,
/// the bad-route audit finds nothing.
proof fn lemma_convert_audit(
    gn: Seq<char>,
    gns: Seq<char>,
    ls: Seq<crate::objects::ListenerView>,
    c: ClusterView,
    pl: Seq<(crate::objects::ListenerView, crate::status::Parted<Seq<HttpRouteView>>)>,
    payload: Seq<(crate::objects::ListenerView, crate::status::Parted<Seq<HttpRouteView>>)>,
    port: int,
)
    requires
        "HTTPS"@ != "HTTP"@,
        crate::attachment::spec_bad_listeners(gn, gns, ls, c) == Ok::<
            Seq<(crate::objects::ListenerView, crate::status::Parted<Seq<HttpRouteView>>)>,
            Seq<char>,
        >(pl),
        forall|i: int| 0 <= i < pl.len() ==> crate::gateway::spec_name_in_payload(
            payload,
            #[trigger] pl[i].0.name,
        ),
    ensures
        crate::attachment::spec_bad_listeners(
            gn,
            gns,
            crate::gateway::spec_converted_listeners(ls, payload, gn, gns, port),
            c,
        ) == Ok::<
            Seq<(crate::objects::ListenerView, crate::status::Parted<Seq<HttpRouteView>>)>,
            Seq<char>,
        >(Seq::<
            (crate::objects::ListenerView, crate::status::Parted<Seq<HttpRouteView>>),
        >::empty()),
    decreases ls.len(),
{
    let f = |l: crate::objects::ListenerView|
        if crate::gateway::spec_name_in_payload(payload, l.name) {
            crate::gateway::spec_convert_one(l, gn, gns, port)
        } else {
            l
        };
    let conv = crate::gateway::spec_converted_listeners(ls, payload, gn, gns, port);
    if ls.len() == 0 {
        assert(conv =~= Seq::<crate::objects::ListenerView>::empty());
    } else {
        let l = ls.last();
        let r = crate::attachment::spec_bad_listeners(gn, gns, ls.drop_last(), c);
        let prev = crate::gateway::spec_converted_listeners(
            ls.drop_last(),
            payload,
            gn,
            gns,
            port,
        );
        assert(conv.drop_last() =~= prev);
        assert(conv.last() == f(l));
        if l.protocol != "HTTP"@ {
            assert(r == Ok::<
                Seq<(crate::objects::ListenerView, crate::status::Parted<Seq<HttpRouteView>>)>,
                Seq<char>,
            >(pl));
            lemma_convert_audit(gn, gns, ls.drop_last(), c, pl, payload, port);
            assert(f(l).protocol != "HTTP"@);
        } else {
            match crate::attachment::spec_routes_for_listener(l, gn, gns, c) {
                None => {
                    lemma_convert_audit(gn, gns, ls.drop_last(), c, pl, payload, port);
                    if !crate::gateway::spec_name_in_payload(payload, l.name) {
                        assert(f(l) == l);
                    } else {
                        assert(f(l).protocol == "HTTPS"@);
                    }
                },
                Some(Err(e)) => {
                    assert(false);
                },
                Some(Ok(routes)) => {
                    let parted = crate::attachment::spec_partition_redirect(routes);
                    if parted.bad.len() == 0 {
                        lemma_convert_audit(gn, gns, ls.drop_last(), c, pl, payload, port);
                        if !crate::gateway::spec_name_in_payload(payload, l.name) {
                            assert(f(l) == l);
                        } else {
                            assert(f(l).protocol == "HTTPS"@);
                        }
                    } else {
                        match r {
                            Err(e) => {
                                assert(false);
                            },
                            Ok(v) => {
                                assert(pl == v.push((l, parted)));
                                assert(v =~= pl.drop_last());
                                assert(pl[pl.len() - 1] == (l, parted));
                                assert(pl[pl.len() - 1].0.name == l.name);
                                assert(crate::gateway::spec_name_in_payload(payload, l.name));
                                assert(f(l).protocol == "HTTPS"@);
                                assert forall|i: int| 0 <= i < v.len() implies (
                                crate::gateway::spec_name_in_payload(
                                    payload,
                                    #[trigger] v[i].0.name,
                                )) by {
                                    assert(v[i] == pl[i]);
                                }
                                lemma_convert_audit(gn, gns, ls.drop_last(), c, v, payload, port);
                            },
                        }
                    }
                },
            }
        }
    }
}

/// Every entry of a clean audit's payload is one of the listeners.
proof fn lemma_payload_listener_exists(
    gn: Seq<char>,
    gns: Seq<char>,
    ls: Seq<crate::objects::ListenerView>,
    c: ClusterView,
    pl: Seq<(crate::objects::ListenerView, crate::status::Parted<Seq<HttpRouteView>>)>,
    i: int,
)
    requires
        crate::attachment::spec_bad_listeners(gn, gns, ls, c) == Ok::<
            Seq<(crate::objects::ListenerView, crate::status::Parted<Seq<HttpRouteView>>)>,
            Seq<char>,
        >(pl),
        0 <= i < pl.len(),
    ensures
        exists|j: int| 0 <= j < ls.len() && ls[j] == pl[i].0,
    decreases ls.len(),
{
    if ls.len() == 0 {
    } else {
        let l = ls.last();
        let r = crate::attachment::spec_bad_listeners(gn, gns, ls.drop_last(), c);
        if l.protocol != "HTTP"@ {
            lemma_payload_listener_exists(gn, gns, ls.drop_last(), c, pl, i);
            let j = choose|j: int| 0 <= j < ls.drop_last().len() && ls.drop_last()[j] == pl[i].0;
            assert(ls[j] == pl[i].0);
        } else {
            match crate::attachment::spec_routes_for_listener(l, gn, gns, c) {
                None => {
                    lemma_payload_listener_exists(gn, gns, ls.drop_last(), c, pl, i);
                    let j = choose|j: int|
                        0 <= j < ls.drop_last().len() && ls.drop_last()[j] == pl[i].0;
                    assert(ls[j] == pl[i].0);
                },
                Some(Err(e)) => {
                    assert(false);
                },
                Some(Ok(routes)) => {
                    let parted = crate::attachment::spec_partition_redirect(routes);
                    if parted.bad.len() == 0 {
                        lemma_payload_listener_exists(gn, gns, ls.drop_last(), c, pl, i);
                        let j = choose|j: int|
                            0 <= j < ls.drop_last().len() && ls.drop_last()[j] == pl[i].0;
                        assert(ls[j] == pl[i].0);
                    } else {
                        match r {
                            Err(e) => {
                                assert(false);
                            },
                            Ok(v) => {
                                assert(pl == v.push((l, parted)));
                                if i == pl.len() - 1 {
                                    assert(pl[i] == (l, parted));
                                    assert(ls[ls.len() - 1] == pl[i].0);
                                } else {
                                    assert(v[i] == pl[i]);
                                    lemma_payload_listener_exists(
                                        gn,
                                        gns,
                                        ls.drop_last(),
                                        c,
                                        v,
                                        i,
                                    );
                                    let j = choose|j: int|
                                        0 <= j < ls.drop_last().len() && ls.drop_last()[j]
                                            == v[i].0;
                                    assert(ls[j] == pl[i].0);
                                }
                            },
                        }
                    }
                },
            }
        }
    }
}

} // verus!

verus! {

/// Whether a listener list has pairwise-distinct names, as Kubernetes
/// requires of a Gateway.
pub open spec fn spec_distinct_names(ls: Seq<crate::objects::ListenerView>) -> bool {
    forall|a: int, b: int|
        0 <= a < b < ls.len() ==> (#[trigger] ls[a].name) != (#[trigger] ls[b].name)
}

/// Whether every Gateway of the snapshot has distinct listener names.
pub open spec fn spec_cluster_distinct_names(c: ClusterView) -> bool {
    forall|i: int|
        0 <= i < c.gateways.len() ==> spec_distinct_names(
            (#[trigger] c.gateways[i]).spec.listeners,
        )
}

/// A successful Gateway lookup pins the Gateway's name and namespace, and
/// yields an element of the snapshot.
proof fn lemma_get_gateway_inv(
    ns: Seq<char>,
    n: Seq<char>,
    gs: Seq<crate::objects::GatewayView>,
    g: crate::objects::GatewayView,
)
    requires
        crate::attachment::spec_get_gateway(ns, n, gs) == Some(g),
    ensures
        g.metadata.namespace == Some(ns),
        g.metadata.name == Some(n),
        exists|j: int| 0 <= j < gs.len() && gs[j] == g,
    decreases gs.len(),
{
    if gs.len() == 0 {
    } else if gs[0].metadata.namespace == Some(ns) && gs[0].metadata.name == Some(n) {
        assert(gs[0] == g);
    } else {
        lemma_get_gateway_inv(ns, n, gs.drop_first(), g);
        let j = choose|j: int| 0 <= j < gs.drop_first().len() && gs.drop_first()[j] == g;
        assert(gs[j + 1] == g);
    }
}

/// Every reference the audit marks bad is attached exactly as its pair
/// records.
proof fn lemma_bad_pairs_sound(
    prs: Seq<crate::objects::ParentRefView>,
    hns: Seq<char>,
    c: ClusterView,
    k: int,
)
    requires
        0 <= k < crate::attachment::spec_route_bad_pairs(prs, hns, c).len(),
    ensures
        crate::attachment::spec_ref_http_attachment(
            crate::attachment::spec_route_bad_pairs(prs, hns, c)[k].0,
            hns,
            c,
        ) == Some(crate::attachment::spec_route_bad_pairs(prs, hns, c)[k].1),
    decreases prs.len(),
{
    if prs.len() == 0 {
    } else {
        let pl = crate::attachment::spec_route_bad_pairs(prs, hns, c);
        let r = crate::attachment::spec_route_bad_pairs(prs.drop_last(), hns, c);
        match crate::attachment::spec_ref_http_attachment(prs.last(), hns, c) {
            Some(pair) => {
                assert(pl == r.push((prs.last(), pair)));
                if k < r.len() {
                    lemma_bad_pairs_sound(prs.drop_last(), hns, c, k);
                    assert(pl[k] == r[k]);
                } else {
                    assert(pl[k] == (prs.last(), pair));
                }
            },
            None => {
                lemma_bad_pairs_sound(prs.drop_last(), hns, c, k);
            },
        }
    }
}

/// A reference that is attached somewhere appears in the audit's payload.
proof fn lemma_bad_pairs_complete(
    prs: Seq<crate::objects::ParentRefView>,
    hns: Seq<char>,
    c: ClusterView,
    p: crate::objects::ParentRefView,
)
    requires
        exists|i: int| 0 <= i < prs.len() && prs[i] == p,
        crate::attachment::spec_ref_http_attachment(p, hns, c) is Some,
    ensures
        exists|k: int|
            0 <= k < crate::attachment::spec_route_bad_pairs(prs, hns, c).len()
                && (#[trigger] crate::attachment::spec_route_bad_pairs(prs, hns, c)[k]).0 == p,
    decreases prs.len(),
{
    let pl = crate::attachment::spec_route_bad_pairs(prs, hns, c);
    let r = crate::attachment::spec_route_bad_pairs(prs.drop_last(), hns, c);
    let i = choose|i: int| 0 <= i < prs.len() && prs[i] == p;
    if i == prs.len() - 1 {
        match crate::attachment::spec_ref_http_attachment(prs.last(), hns, c) {
            Some(pair) => {
                assert(pl == r.push((p, pair)));
                assert(pl[pl.len() - 1].0 == p);
            },
            None => {
                assert(prs.last() == p);
            },
        }
    } else {
        assert(prs.drop_last()[i] == p);
        lemma_bad_pairs_complete(prs.drop_last(), hns, c, p);
        let k = choose|k: int| 0 <= k < r.len() && r[k].0 == p;
        match crate::attachment::spec_ref_http_attachment(prs.last(), hns, c) {
            Some(pair) => {
                assert(pl == r.push((prs.last(), pair)));
                assert(pl[k].0 == p);
            },
            None => {
                assert(pl[k].0 == p);
            },
        }
    }
}

/// Every HTTPS candidate is one of the listeners, and is HTTPS.
proof fn lemma_candidates_member(ls: Seq<crate::objects::ListenerView>, i: int)
    requires
        0 <= i < crate::httproute::spec_https_candidates(ls).len(),
    ensures
        exists|j: int|
            0 <= j < ls.len() && ls[j] == crate::httproute::spec_https_candidates(ls)[i],
        crate::httproute::spec_https_candidates(ls)[i].protocol == "HTTPS"@,
    decreases ls.len(),
{
    if ls.len() == 0 {
    } else {
        let cand = crate::httproute::spec_https_candidates(ls);
        let r = crate::httproute::spec_https_candidates(ls.drop_last());
        if ls.last().protocol == "HTTPS"@ {
            assert(cand == r.push(ls.last()));
            if i < r.len() {
                lemma_candidates_member(ls.drop_last(), i);
                let j = choose|j: int|
                    0 <= j < ls.drop_last().len() && ls.drop_last()[j] == r[i];
                assert(ls[j] == cand[i]);
            } else {
                assert(ls[ls.len() - 1] == cand[i]);
            }
        } else {
            lemma_candidates_member(ls.drop_last(), i);
            let j = choose|j: int| 0 <= j < ls.drop_last().len() && ls.drop_last()[j] == cand[i];
            assert(ls[j] == cand[i]);
        }
    }
}

/// With no HTTP listener matching the reference, the index list is empty.
proof fn lemma_indices_empty_pointwise(
    ls: Seq<crate::objects::ListenerView>,
    q: crate::objects::ParentRefView,
    gn: Seq<char>,
    gns: Seq<char>,
    hns: Seq<char>,
)
    requires
        forall|k: int|
            0 <= k < ls.len() ==> !((#[trigger] ls[k]).protocol == "HTTP"@
                && crate::attachment::spec_parentref_matches(q, ls[k], gn, gns, hns)),
    ensures
        crate::attachment::spec_http_match_indices(ls, q, gn, gns, hns).len() == 0,
    decreases ls.len(),
{
    if ls.len() == 0 {
    } else {
        assert(ls.drop_last() =~= ls.take(ls.len() - 1));
        lemma_indices_empty_pointwise(ls.drop_last(), q, gn, gns, hns);
    }
}

/// A reference pointing (by section name) at an HTTPS listener of a
/// Gateway with distinct listener names is attached to no HTTP listener.
proof fn lemma_appended_ref_unattached(
    q: crate::objects::ParentRefView,
    l: crate::objects::ListenerView,
    gw: crate::objects::GatewayView,
    p: crate::objects::ParentRefView,
    hns: Seq<char>,
    c: ClusterView,
)
    requires
        "HTTPS"@ != "HTTP"@,
        spec_cluster_distinct_names(c),
        crate::attachment::spec_ref_http_attachment(p, hns, c) is Some,
        crate::attachment::spec_ref_http_attachment(p, hns, c)->Some_0.gateway == gw,
        gw.metadata.name is Some,
        gw.metadata.namespace is Some,
        q == crate::httproute::spec_ref_for(
            gw.metadata.name->Some_0,
            gw.metadata.namespace->Some_0,
            l,
        ),
        exists|j: int| 0 <= j < gw.spec.listeners.len() && gw.spec.listeners[j] == l,
        l.protocol == "HTTPS"@,
    ensures
        crate::attachment::spec_ref_http_attachment(q, hns, c) is None,
{
    let gn = gw.metadata.name->Some_0;
    let gns = gw.metadata.namespace->Some_0;
    let ns1 = crate::attachment::spec_name_or(p.namespace, hns);
    lemma_get_gateway_inv(ns1, p.name, c.gateways, gw);
    assert(ns1 == gns && p.name == gn);
    assert(crate::attachment::spec_get_gateway(gns, gn, c.gateways) == Some(gw));
    assert(crate::attachment::spec_name_or(q.namespace, hns) == gns);
    let jg = choose|j: int| 0 <= j < c.gateways.len() && c.gateways[j] == gw;
    assert(spec_distinct_names(gw.spec.listeners));
    let jl = choose|j: int| 0 <= j < gw.spec.listeners.len() && gw.spec.listeners[j] == l;
    assert forall|k: int| 0 <= k < gw.spec.listeners.len() implies !((#[trigger] gw.spec
        .listeners[k]).protocol == "HTTP"@ && crate::attachment::spec_parentref_matches(
        q,
        gw.spec.listeners[k],
        gn,
        gns,
        hns,
    )) by {
        if crate::attachment::spec_parentref_matches(q, gw.spec.listeners[k], gn, gns, hns) {
            assert(gw.spec.listeners[k].name == l.name);
            if k != jl {
                if k < jl {
                    assert(gw.spec.listeners[k].name != gw.spec.listeners[jl].name);
                } else {
                    assert(gw.spec.listeners[jl].name != gw.spec.listeners[k].name);
                }
            }
            assert(gw.spec.listeners[k] == l);
        }
    }
    lemma_indices_empty_pointwise(gw.spec.listeners, q, gn, gns, hns);
}

/// Every reference of the matching-candidates list points at a candidate.
proof fn lemma_matching_refs_member(
    gn: Seq<char>,
    gns: Seq<char>,
    candidates: Seq<crate::objects::ListenerView>,
    hostnames: Seq<Seq<char>>,
    i: int,
)
    requires
        0 <= i < crate::httproute::spec_matching_refs(gn, gns, candidates, hostnames).len(),
    ensures
        exists|k: int|
            0 <= k < candidates.len() && crate::httproute::spec_matching_refs(
                gn,
                gns,
                candidates,
                hostnames,
            )[i] == crate::httproute::spec_ref_for(gn, gns, #[trigger] candidates[k]),
    decreases candidates.len(),
{
    if candidates.len() == 0 {
    } else {
        let refs = crate::httproute::spec_matching_refs(gn, gns, candidates, hostnames);
        let r = crate::httproute::spec_matching_refs(
            gn,
            gns,
            candidates.drop_last(),
            hostnames,
        );
        let cl = candidates.last();
        if cl.hostname is Some && cl.hostname->Some_0.len() > 0 && hostnames.contains(
            cl.hostname->Some_0,
        ) {
            assert(refs == r.push(crate::httproute::spec_ref_for(gn, gns, cl)));
            if i < r.len() {
                lemma_matching_refs_member(gn, gns, candidates.drop_last(), hostnames, i);
                let k = choose|k: int|
                    0 <= k < candidates.drop_last().len() && r[i]
                        == crate::httproute::spec_ref_for(gn, gns, candidates.drop_last()[k]);
                assert(refs[i] == crate::httproute::spec_ref_for(gn, gns, candidates[k]));
            } else {
                assert(refs[i] == crate::httproute::spec_ref_for(
                    gn,
                    gns,
                    candidates[candidates.len() - 1],
                ));
            }
        } else {
            lemma_matching_refs_member(gn, gns, candidates.drop_last(), hostnames, i);
            let k = choose|k: int|
                0 <= k < candidates.drop_last().len() && r[i] == crate::httproute::spec_ref_for(
                    gn,
                    gns,
                    candidates.drop_last()[k],
                );
            assert(refs[i] == crate::httproute::spec_ref_for(gn, gns, candidates[k]));
        }
    }
}

/// Every reference a pair contributes is attached to no HTTP listener.
proof fn lemma_pair_refs_unattached(
    rt: HttpRouteView,
    p: crate::objects::ParentRefView,
    pair: crate::status::GatewayListenerPairView,
    refs: Seq<crate::objects::ParentRefView>,
    hns: Seq<char>,
    c: ClusterView,
    i: int,
)
    requires
        "HTTPS"@ != "HTTP"@,
        spec_cluster_distinct_names(c),
        crate::attachment::spec_ref_http_attachment(p, hns, c) == Some(pair),
        crate::httproute::spec_refs_for_pair(rt, pair) == Some(Some(refs)),
        0 <= i < refs.len(),
    ensures
        crate::attachment::spec_ref_http_attachment(refs[i], hns, c) is None,
{
    let gw = pair.gateway;
    let gn = gw.metadata.name->Some_0;
    let gns = gw.metadata.namespace->Some_0;
    let candidates = crate::httproute::spec_https_candidates(gw.spec.listeners);
    if candidates.len() == 1 {
        assert(refs[i] == crate::httproute::spec_ref_for(gn, gns, candidates[0]));
        lemma_candidates_member(gw.spec.listeners, 0);
        lemma_appended_ref_unattached(refs[i], candidates[0], gw, p, hns, c);
    } else {
        let hostnames = crate::httproute::spec_pair_hostnames(rt, pair);
        lemma_matching_refs_member(gn, gns, candidates, hostnames, i);
        let k = choose|k: int|
            0 <= k < candidates.len() && refs[i] == crate::httproute::spec_ref_for(
                gn,
                gns,
                #[trigger] candidates[k],
            );
        lemma_candidates_member(gw.spec.listeners, k);
        lemma_appended_ref_unattached(refs[i], candidates[k], gw, p, hns, c);
    }
}

/// Every collected reference is attached to no HTTP listener.
proof fn lemma_collect_unattached(
    rt: HttpRouteView,
    pairs: Seq<(crate::objects::ParentRefView, crate::status::GatewayListenerPairView)>,
    app: Seq<crate::objects::ParentRefView>,
    hns: Seq<char>,
    c: ClusterView,
    i: int,
)
    requires
        "HTTPS"@ != "HTTP"@,
        spec_cluster_distinct_names(c),
        crate::httproute::spec_collect_refs(rt, pairs) == Some(Some(app)),
        forall|k: int|
            0 <= k < pairs.len() ==> crate::attachment::spec_ref_http_attachment(
                (#[trigger] pairs[k]).0,
                hns,
                c,
            ) == Some(pairs[k].1),
        0 <= i < app.len(),
    ensures
        crate::attachment::spec_ref_http_attachment(app[i], hns, c) is None,
    decreases pairs.len(),
{
    if pairs.len() == 0 {
    } else {
        match crate::httproute::spec_refs_for_pair(rt, pairs[0].1) {
            None => {},
            Some(None) => {},
            Some(Some(refs)) => {
                match crate::httproute::spec_collect_refs(rt, pairs.drop_first()) {
                    None => {},
                    Some(None) => {},
                    Some(Some(rest)) => {
                        assert(app == refs + rest);
                        if i < refs.len() {
                            assert(app[i] == refs[i]);
                            lemma_pair_refs_unattached(
                                rt,
                                pairs[0].0,
                                pairs[0].1,
                                refs,
                                hns,
                                c,
                                i,
                            );
                        } else {
                            assert(app[i] == rest[i - refs.len()]);
                            assert forall|k: int| 0 <= k < pairs.drop_first().len() implies (
                            crate::attachment::spec_ref_http_attachment(
                                (#[trigger] pairs.drop_first()[k]).0,
                                hns,
                                c,
                            ) == Some(pairs.drop_first()[k].1)) by {
                                assert(pairs.drop_first()[k] == pairs[k + 1]);
                            }
                            lemma_collect_unattached(
                                rt,
                                pairs.drop_first(),
                                rest,
                                hns,
                                c,
                                i - refs.len(),
                            );
                        }
                    },
                }
            },
        }
    }
}

/// Every kept reference is one of the originals, not named in the payload.
proof fn lemma_retain_elem(
    prs: Seq<crate::objects::ParentRefView>,
    bad: Seq<crate::objects::ParentRefView>,
    i: int,
)
    requires
        0 <= i < crate::httproute::spec_retain_good(prs, bad).len(),
    ensures
        exists|j: int|
            0 <= j < prs.len() && prs[j] == crate::httproute::spec_retain_good(prs, bad)[i],
        !bad.contains(crate::httproute::spec_retain_good(prs, bad)[i]),
    decreases prs.len(),
{
    if prs.len() == 0 {
    } else {
        let kept = crate::httproute::spec_retain_good(prs, bad);
        let r = crate::httproute::spec_retain_good(prs.drop_last(), bad);
        if bad.contains(prs.last()) {
            lemma_retain_elem(prs.drop_last(), bad, i);
            let j = choose|j: int|
                0 <= j < prs.drop_last().len() && prs.drop_last()[j] == kept[i];
            assert(prs[j] == kept[i]);
        } else {
            assert(kept == r.push(prs.last()));
            if i < r.len() {
                lemma_retain_elem(prs.drop_last(), bad, i);
                let j = choose|j: int|
                    0 <= j < prs.drop_last().len() && prs.drop_last()[j] == r[i];
                assert(prs[j] == kept[i]);
            } else {
                assert(prs[prs.len() - 1] == kept[i]);
            }
        }
    }
}

/// References with no attachment produce an empty audit.
proof fn lemma_bad_pairs_all_none(
    prs: Seq<crate::objects::ParentRefView>,
    hns: Seq<char>,
    c: ClusterView,
)
    requires
        forall|i: int|
            0 <= i < prs.len() ==> crate::attachment::spec_ref_http_attachment(
                #[trigger] prs[i],
                hns,
                c,
            ) is None,
    ensures
        crate::attachment::spec_route_bad_pairs(prs, hns, c).len() == 0,
    decreases prs.len(),
{
    if prs.len() == 0 {
    } else {
        assert(prs.drop_last() =~= prs.take(prs.len() - 1));
        lemma_bad_pairs_all_none(prs.drop_last(), hns, c);
    }
}

/// Applying an HTTPRoute mutation's repair and revalidating allows the
/// route, provided every Gateway of the snapshot keeps its listener names
/// distinct (as the Kubernetes API enforces): with a name shared between
/// an HTTP and an HTTPS listener, a freshly appended reference could be
/// read as attached to the HTTP one again.
pub proof fn lemma_httproute_patch_revalidates(rt: HttpRouteView, c: ClusterView, t: HttpRouteView)
    requires
        spec_mutate_httproute(rt, c) == Some(Ok::<StatusView<HttpRouteView>, Seq<char>>(
            StatusView::Patch(t),
        )),
        spec_cluster_distinct_names(c),
    ensures
        spec_validate_httproute(t, c) == Some(Ok::<StatusView<HttpRouteView>, Seq<char>>(
            StatusView::Allowed,
        )),
{
    lemma_protocol_literals();
    let v = spec_validate_httproute(rt, c);
    match v {
        Some(
            Ok(
                StatusView::Denied(
                    DenyReasonView::HTTPRouteNonRedirectAttachedToHTTPListener(payload),
                ),
            ),
        ) => {
            let prs = rt.spec.parent_refs->Some_0;
            let hns = rt.metadata.namespace->Some_0;
            assert(payload == crate::attachment::spec_route_bad_pairs(prs, hns, c));
            match crate::httproute::spec_collect_refs(rt, payload) {
                None => {},
                Some(None) => {},
                Some(Some(app)) => {
                    assert(t == crate::httproute::spec_route_target(rt, payload, app));
                    let bad = payload.map_values(
                        |p: (
                            crate::objects::ParentRefView,
                            crate::status::GatewayListenerPairView,
                        )| p.0,
                    );
                    let kept = crate::httproute::spec_retain_good(prs, bad);
                    let combined = kept + app;
                    assert forall|k: int| 0 <= k < payload.len() implies (
                    crate::attachment::spec_ref_http_attachment(
                        (#[trigger] payload[k]).0,
                        hns,
                        c,
                    ) == Some(payload[k].1)) by {
                        lemma_bad_pairs_sound(prs, hns, c, k);
                    }
                    assert forall|i: int| 0 <= i < combined.len() implies (
                    crate::attachment::spec_ref_http_attachment(
                        #[trigger] combined[i],
                        hns,
                        c,
                    ) is None) by {
                        if i < kept.len() {
                            assert(combined[i] == kept[i]);
                            lemma_retain_elem(prs, bad, i);
                            if crate::attachment::spec_ref_http_attachment(
                                kept[i],
                                hns,
                                c,
                            ) is Some {
                                lemma_bad_pairs_complete(prs, hns, c, kept[i]);
                                let k = choose|k: int|
                                    0 <= k < payload.len() && (#[trigger] payload[k]).0
                                        == kept[i];
                                assert(bad[k] == kept[i]);
                                assert(bad.contains(kept[i]));
                            }
                        } else {
                            assert(combined[i] == app[i - kept.len()]);
                            lemma_collect_unattached(rt, payload, app, hns, c, i - kept.len());
                        }
                    }
                    lemma_bad_pairs_all_none(combined, hns, c);
                    assert(t.metadata == rt.metadata);
                    assert(t.spec.rules == rt.spec.rules);
                    assert(crate::classifier::spec_is_redirect_or_no_rule(t)
                        == crate::classifier::spec_is_redirect_or_no_rule(rt));
                },
            }
        },
        _ => {},
    }
}

} // verus!
