use ingress_tls::httproute::{mutate_httproute, validate_httproute};
use ingress_tls::objects::{
    BackendRef, CertificateRef, Cluster, Gateway, GatewaySpec, HttpRoute, HttpRouteSpec, Listener,
    ListenerTls, Metadata, NamespaceInfo, ParentRef, PathMatch, PathMatchType, RouteMatch,
    RouteRule, TlsMode,
};
use ingress_tls::status::{DenyReason, Status};

fn metadata_r(name: &str, namespace: Option<&str>, annotations: Vec<(String, String)>) -> Metadata {
    Metadata {
        name: Some(name.to_string()),
        namespace: namespace.map(|s| s.to_string()),
        annotations: if annotations.is_empty() { None } else { Some(annotations) },
    }
}

fn prep_gateway_r(name: &str) -> Gateway {
    Gateway {
        metadata: metadata_r(
            name,
            Some("test"),
            vec![
                (
                    "external-dns.alpha.kubernetes.io/hostname".to_string(),
                    "whoami.magicloud.lan.".to_string(),
                ),
                ("cert-manager.io/issuer".to_string(), "step-issuer".to_string()),
                ("cert-manager.io/issuer-kind".to_string(), "StepClusterIssuer".to_string()),
                ("cert-manager.io/issuer-group".to_string(), "certmanager.step.sm".to_string()),
            ],
        ),
        spec: GatewaySpec {
            gateway_class_name: "traefik".to_string(),
            listeners: vec![
                Listener {
                    name: "http".to_string(),
                    port: 8000,
                    protocol: "HTTP".to_string(),
                    hostname: None,
                    tls: None,
                    allowed_routes: None,
                },
                Listener {
                    name: "https".to_string(),
                    port: 8443,
                    protocol: "HTTPS".to_string(),
                    hostname: Some("whoami.magicloud.lan".to_string()),
                    tls: Some(ListenerTls {
                        mode: Some(TlsMode::Terminate),
                        certificate_refs: Some(vec![CertificateRef {
                            name: "good-gateway".to_string(),
                            namespace: None,
                        }]),
                    }),
                    allowed_routes: None,
                },
            ],
        },
    }
}

fn backend_rule_r() -> RouteRule {
    RouteRule {
        matches: Some(vec![RouteMatch {
            path: Some(PathMatch {
                path_type: Some(PathMatchType::PathPrefix),
                value: Some("/".to_string()),
            }),
        }]),
        filters: None,
        backend_refs: Some(vec![BackendRef {
            name: "test".to_string(),
            namespace: Some("test".to_string()),
            port: Some(88),
        }]),
    }
}

fn route_r(
    name: &str,
    annotations: Vec<(String, String)>,
    gateway: &str,
    section: &str,
    rule: RouteRule,
) -> HttpRoute {
    HttpRoute {
        metadata: metadata_r(name, Some("test"), annotations),
        spec: HttpRouteSpec {
            parent_refs: Some(vec![ParentRef {
                kind: Some("Gateway".to_string()),
                name: gateway.to_string(),
                namespace: None,
                section_name: Some(section.to_string()),
                port: None,
            }]),
            hostnames: None,
            rules: Some(vec![rule]),
        },
    }
}

fn cluster_r(gateways: Vec<Gateway>) -> Cluster {
    Cluster {
        namespaces: vec![NamespaceInfo { name: "test".to_string(), labels: vec![] }],
        gateways,
        httproutes: vec![],
    }
}

#[test]
fn good_httproute() {
    let prep = prep_gateway_r("good");
    let good_httproute = route_r(
        "good-http",
        vec![],
        "good",
        "http",
        ingress_tls::classifier::canonical_redirect_rule(),
    );
    let cluster = cluster_r(vec![prep]);
    let r = validate_httproute(&good_httproute, &cluster);
    assert!(matches!(r, Some(Ok(Status::Allowed))));
}

#[test]
fn skip_httproute() {
    let prep = prep_gateway_r("bad-httproute");
    let skip_httproute = route_r(
        "bad-http",
        vec![("ingress-tls.magiclouds.cn/skip".to_string(), "true".to_string())],
        "bad-httproute",
        "http",
        backend_rule_r(),
    );
    let cluster = cluster_r(vec![prep]);
    let r = validate_httproute(&skip_httproute, &cluster);
    assert!(matches!(r, Some(Ok(Status::Allowed))));
    let m = mutate_httproute(&skip_httproute, &cluster);
    assert!(matches!(m, Some(Ok(Status::Allowed))));
}

#[test]
fn bad_httproute() {
    let prep = prep_gateway_r("bad-httproute");
    let bad_httproute = route_r("bad-http", vec![], "bad-httproute", "http", backend_rule_r());
    let cluster = cluster_r(vec![prep]);
    let r = validate_httproute(&bad_httproute, &cluster);
    match r {
        Some(Ok(Status::Denied(DenyReason::HTTPRouteNonRedirectAttachedToHTTPListener(
            pairs,
        )))) => {
            assert_eq!(pairs.len(), 1);
            assert_eq!(pairs[0].0.name, "bad-httproute");
            assert_eq!(pairs[0].1.gateway.metadata.name, Some("bad-httproute".to_string()));
            // The matched listener is the HTTP one, by index.
            assert_eq!(pairs[0].1.listeners, vec![0]);
        },
        other => panic!("expected the mis-attachment denial, got {other:?}"),
    }
}

#[test]
fn bad_httproute_patch_reattaches_to_https() {
    let prep = prep_gateway_r("bad-httproute");
    let bad_httproute = route_r("bad-http", vec![], "bad-httproute", "http", backend_rule_r());
    let cluster = cluster_r(vec![prep]);
    let m = mutate_httproute(&bad_httproute, &cluster);
    let target = match m {
        Some(Ok(Status::Patch(t))) => t,
        other => panic!("expected a patch, got {other:?}"),
    };
    let refs = target.spec.parent_refs.as_ref().expect("parent references stay present");
    assert_eq!(refs.len(), 1);
    assert_eq!(refs[0].kind, Some("Gateway".to_string()));
    assert_eq!(refs[0].name, "bad-httproute");
    assert_eq!(refs[0].namespace, Some("test".to_string()));
    assert_eq!(refs[0].port, Some(8443));
    assert_eq!(refs[0].section_name, Some("https".to_string()));
    // The repaired route validates cleanly.
    let r = validate_httproute(&target, &cluster);
    assert!(matches!(r, Some(Ok(Status::Allowed))));
}

#[test]
fn parentless_httproute_is_allowed() {
    let route = HttpRoute {
        metadata: metadata_r("floating", Some("test"), vec![]),
        spec: HttpRouteSpec {
            parent_refs: None,
            hostnames: None,
            rules: Some(vec![backend_rule_r()]),
        },
    };
    let cluster = cluster_r(vec![]);
    let r = validate_httproute(&route, &cluster);
    assert!(matches!(r, Some(Ok(Status::Allowed))));
}

#[test]
fn route_to_absent_gateway_is_allowed() {
    let route = route_r("dangling", vec![], "missing-gateway", "http", backend_rule_r());
    let cluster = cluster_r(vec![]);
    let r = validate_httproute(&route, &cluster);
    assert!(matches!(r, Some(Ok(Status::Allowed))));
}

#[test]
fn mis_attached_deny_message_names_gateway() {
    let prep = prep_gateway_r("bad-httproute");
    let bad_httproute = route_r("bad-http", vec![], "bad-httproute", "http", backend_rule_r());
    let cluster = cluster_r(vec![prep]);
    let r = validate_httproute(&bad_httproute, &cluster);
    let reason = match r {
        Some(Ok(Status::Denied(d))) => d,
        other => panic!("expected a denial, got {other:?}"),
    };
    assert_eq!(
        reason.message(),
        "This non-redirect HTTPRoute is attaching to HTTP listeners of Gateways: test/bad-httproute"
    );
}
