use ingress_tls::config::{CertManagerAnnotations, Cli, Issuer};
use ingress_tls::gateway::{mutate_gateway, validate_gateway};
use ingress_tls::objects::{
    BackendRef, CertificateRef, Cluster, Gateway, GatewaySpec, HttpRoute, HttpRouteSpec, Listener,
    ListenerTls, Metadata, NamespaceInfo, ParentRef, PathMatch, PathMatchType, RouteMatch,
    RouteRule, TlsMode,
};
use ingress_tls::status::{DenyReason, Status};

fn test_conf_g() -> Cli {
    Cli {
        listen_address: ("0.0.0.0".to_string(), 443),
        cma: Some(CertManagerAnnotations {
            issuer: Issuer::Namespaced("step-issuer".to_string()),
            kind: Some("StepClusterIssuer".to_string()),
            group: Some("certmanager.step.sm".to_string()),
        }),
        traefik_ingress_redirect_resource_name: None,
        tls_folder: "/tls".to_string(),
        tls_certificate_file_name: "tls.crt".to_string(),
        tls_private_key_file_name: "tls.key".to_string(),
    }
}

fn metadata_g(name: &str, namespace: Option<&str>, annotations: Vec<(String, String)>) -> Metadata {
    Metadata {
        name: Some(name.to_string()),
        namespace: namespace.map(|s| s.to_string()),
        annotations: if annotations.is_empty() { None } else { Some(annotations) },
    }
}

fn issuer_annotations_g() -> Vec<(String, String)> {
    vec![
        (
            "external-dns.alpha.kubernetes.io/hostname".to_string(),
            "whoami.magicloud.lan.".to_string(),
        ),
        ("cert-manager.io/issuer".to_string(), "step-issuer".to_string()),
        ("cert-manager.io/issuer-kind".to_string(), "StepClusterIssuer".to_string()),
        ("cert-manager.io/issuer-group".to_string(), "certmanager.step.sm".to_string()),
    ]
}

fn http_listener_g() -> Listener {
    Listener {
        name: "http".to_string(),
        port: 8000,
        protocol: "HTTP".to_string(),
        hostname: None,
        tls: None,
        allowed_routes: None,
    }
}

fn https_listener_g() -> Listener {
    Listener {
        name: "https".to_string(),
        port: 8443,
        protocol: "HTTPS".to_string(),
        hostname: Some("whoami.magicloud.lan".to_string()),
        tls: Some(ListenerTls {
            mode: Some(TlsMode::Terminate),
            certificate_refs: Some(vec![CertificateRef {
                name: "good-gateway".to_string(),
                namespace: None,
            }]),
        }),
        allowed_routes: None,
    }
}

/// The canonical redirect rule, as the API server's defaulting stores it.
fn redirect_rule_g() -> RouteRule {
    ingress_tls::classifier::canonical_redirect_rule()
}

fn backend_rule_g(path: &str) -> RouteRule {
    RouteRule {
        matches: Some(vec![RouteMatch {
            path: Some(PathMatch {
                path_type: Some(PathMatchType::PathPrefix),
                value: Some(path.to_string()),
            }),
        }]),
        filters: None,
        backend_refs: Some(vec![BackendRef {
            name: "test".to_string(),
            namespace: Some("test".to_string()),
            port: Some(88),
        }]),
    }
}

fn route_g(name: &str, namespace: &str, gateway: &str, section: &str, rule: RouteRule) -> HttpRoute {
    HttpRoute {
        metadata: metadata_g(name, Some(namespace), vec![]),
        spec: HttpRouteSpec {
            parent_refs: Some(vec![ParentRef {
                kind: Some("Gateway".to_string()),
                name: gateway.to_string(),
                namespace: None,
                section_name: Some(section.to_string()),
                port: None,
            }]),
            hostnames: None,
            rules: Some(vec![rule]),
        },
    }
}

fn cluster_g(gateways: Vec<Gateway>, httproutes: Vec<HttpRoute>) -> Cluster {
    Cluster {
        namespaces: vec![
            NamespaceInfo { name: "test".to_string(), labels: vec![] },
            NamespaceInfo { name: "default".to_string(), labels: vec![] },
        ],
        gateways,
        httproutes,
    }
}

#[test]
fn good_gateway() {
    let good_gateway = Gateway {
        metadata: metadata_g("good", Some("test"), issuer_annotations_g()),
        spec: GatewaySpec {
            gateway_class_name: "traefik".to_string(),
            listeners: vec![http_listener_g(), https_listener_g()],
        },
    };
    let routes = vec![
        route_g("good-http", "test", "good", "http", redirect_rule_g()),
        // Out of `Same` scope: lives in another namespace.
        route_g("outside-bad", "default", "good", "http", backend_rule_g("/bad_test")),
        route_g("good-https", "test", "good", "https", backend_rule_g("/")),
    ];
    let cluster = cluster_g(vec![], routes);
    let r = validate_gateway(&good_gateway, &cluster);
    assert!(matches!(r, Some(Ok(Status::MoveOn))));
}

#[test]
fn skip_gateway() {
    let skip_gateway = Gateway {
        metadata: metadata_g(
            "skip",
            Some("test"),
            vec![
                (
                    "external-dns.alpha.kubernetes.io/hostname".to_string(),
                    "whoami.magicloud.lan.".to_string(),
                ),
                ("ingress-tls.magiclouds.cn/skip".to_string(), "true".to_string()),
            ],
        ),
        spec: GatewaySpec {
            gateway_class_name: "traefik".to_string(),
            listeners: vec![http_listener_g()],
        },
    };
    let cluster = cluster_g(vec![], vec![]);
    let r = validate_gateway(&skip_gateway, &cluster);
    assert!(matches!(r, Some(Ok(Status::Allowed))));
    let m = mutate_gateway(&skip_gateway, &test_conf_g(), &cluster);
    assert!(matches!(m, Some(Ok(Status::Allowed))));
}

#[test]
fn no_tls_gateway() {
    let no_tls_gateway = Gateway {
        metadata: metadata_g(
            "no-tls",
            Some("test"),
            vec![(
                "external-dns.alpha.kubernetes.io/hostname".to_string(),
                "whoami.magicloud.lan.".to_string(),
            )],
        ),
        spec: GatewaySpec {
            gateway_class_name: "traefik".to_string(),
            listeners: vec![http_listener_g()],
        },
    };
    let cluster = cluster_g(vec![], vec![]);
    let r = validate_gateway(&no_tls_gateway, &cluster);
    assert!(matches!(r, Some(Ok(Status::Denied(DenyReason::GatewayNoTLSListener)))));
}

#[test]
fn bad_httproute_gateway() {
    let bad_httproute_gateway = Gateway {
        metadata: metadata_g("bad-httproute", Some("test"), issuer_annotations_g()),
        spec: GatewaySpec {
            gateway_class_name: "traefik".to_string(),
            listeners: vec![http_listener_g(), https_listener_g()],
        },
    };
    let routes = vec![
        route_g("good-http", "test", "bad-httproute", "http", redirect_rule_g()),
        route_g("bad-http", "test", "bad-httproute", "http", backend_rule_g("/")),
        route_g("good-https", "test", "bad-httproute", "https", backend_rule_g("/")),
    ];
    let cluster = cluster_g(vec![], routes);
    let r = validate_gateway(&bad_httproute_gateway, &cluster);
    match r {
        Some(Ok(Status::Denied(
            DenyReason::GatewayNonRedirectHTTPRouteAttachedToHTTPListener(payload),
        ))) => {
            assert_eq!(payload.len(), 1);
            assert_eq!(payload[0].0.name, "http");
            assert_eq!(payload[0].1.good.len(), 1);
            assert_eq!(payload[0].1.bad.len(), 1);
            assert_eq!(payload[0].1.bad[0].metadata.name, Some("bad-http".to_string()));
        },
        other => panic!("expected the bad-route denial, got {other:?}"),
    }
    // The http listener has no hostname and shares a redirect route, so the
    // mutation declines to convert it and re-emits the denial.
    let m = mutate_gateway(&bad_httproute_gateway, &test_conf_g(), &cluster);
    assert!(matches!(
        m,
        Some(Ok(Status::Denied(
            DenyReason::GatewayNonRedirectHTTPRouteAttachedToHTTPListener(_)
        )))
    ));
}

#[test]
fn no_tls_gateway_patch_adds_https_listeners() {
    let no_tls_gateway = Gateway {
        metadata: metadata_g(
            "no-tls",
            Some("test"),
            vec![(
                "external-dns.alpha.kubernetes.io/hostname".to_string(),
                "whoami.magicloud.lan.".to_string(),
            )],
        ),
        spec: GatewaySpec {
            gateway_class_name: "traefik".to_string(),
            listeners: vec![http_listener_g()],
        },
    };
    let cluster = cluster_g(vec![], vec![]);
    let m = mutate_gateway(&no_tls_gateway, &test_conf_g(), &cluster);
    let target = match m {
        Some(Ok(Status::Patch(t))) => t,
        other => panic!("expected a patch, got {other:?}"),
    };
    assert_eq!(target.spec.listeners.len(), 2);
    let added = &target.spec.listeners[1];
    assert_eq!(added.name, "no-tls-https");
    assert_eq!(added.port, 8443);
    assert_eq!(added.protocol, "HTTPS");
    assert_eq!(added.hostname, Some("whoami.magicloud.lan.".to_string()));
    let tls = added.tls.as_ref().expect("the added listener terminates TLS");
    assert!(matches!(tls.mode, Some(TlsMode::Terminate)));
    let refs = tls.certificate_refs.as_ref().expect("certificate reference present");
    assert_eq!(refs[0].name, "no-tls-https-tls");
    assert_eq!(refs[0].namespace, Some("test".to_string()));
    let annotations = target.metadata.annotations.as_ref().expect("annotations present");
    assert!(annotations.contains(&(
        "cert-manager.io/issuer".to_string(),
        "step-issuer".to_string(),
    )));
    // The repaired Gateway validates cleanly.
    let r = validate_gateway(&target, &cluster);
    assert!(matches!(r, Some(Ok(Status::MoveOn))));
}

#[test]
fn convertible_listener_is_rewritten_in_place() {
    // The offending listener carries a hostname and no redirect route, so it
    // is converted to HTTPS instead of being re-emitted as a denial.
    let mut listener = http_listener_g();
    listener.hostname = Some("whoami.magicloud.lan".to_string());
    let gateway = Gateway {
        metadata: metadata_g("convert", Some("test"), vec![]),
        spec: GatewaySpec {
            gateway_class_name: "traefik".to_string(),
            listeners: vec![listener],
        },
    };
    let routes = vec![route_g("real", "test", "convert", "http", backend_rule_g("/"))];
    let cluster = cluster_g(vec![], routes);
    let m = mutate_gateway(&gateway, &test_conf_g(), &cluster);
    let target = match m {
        Some(Ok(Status::Patch(t))) => t,
        other => panic!("expected a patch, got {other:?}"),
    };
    assert_eq!(target.spec.listeners.len(), 1);
    let converted = &target.spec.listeners[0];
    assert_eq!(converted.protocol, "HTTPS");
    assert_eq!(converted.port, 8443);
    assert_eq!(converted.name, "http");
    let tls = converted.tls.as_ref().expect("converted listener terminates TLS");
    let refs = tls.certificate_refs.as_ref().expect("certificate reference present");
    assert_eq!(refs[0].name, "convert-http-tls");
    let r = validate_gateway(&target, &cluster);
    assert!(matches!(r, Some(Ok(Status::MoveOn))));
}

#[test]
fn selector_without_values_is_an_internal_error() {
    let listener = Listener {
        name: "http".to_string(),
        port: 8000,
        protocol: "HTTP".to_string(),
        hostname: None,
        tls: None,
        allowed_routes: Some(ingress_tls::objects::AllowedRoutes {
            namespaces: Some(ingress_tls::objects::RouteNamespaces {
                from: Some(ingress_tls::objects::NamespacesFrom::Selector),
                selector: Some(ingress_tls::objects::LabelSelector {
                    match_labels: None,
                    match_expressions: Some(vec![ingress_tls::objects::MatchExpression {
                        key: "team".to_string(),
                        operator: "In".to_string(),
                        values: None,
                    }]),
                }),
            }),
        }),
    };
    let gateway = Gateway {
        metadata: metadata_g("selector", Some("test"), vec![]),
        spec: GatewaySpec {
            gateway_class_name: "traefik".to_string(),
            listeners: vec![listener],
        },
    };
    let cluster = cluster_g(vec![], vec![]);
    let r = validate_gateway(&gateway, &cluster);
    match r {
        Some(Err(e)) => {
            assert_eq!(e, "`values` should be supplied in `In` operation");
        },
        other => panic!("expected an internal error, got {other:?}"),
    }
    let collapsed: Status<Gateway> = Status::from_check(validate_gateway(&gateway, &cluster));
    assert!(matches!(collapsed, Status::Denied(DenyReason::InternalError(_))));
}

#[test]
fn selector_scopes_routes_by_namespace_labels() {
    let listener = Listener {
        name: "http".to_string(),
        port: 8000,
        protocol: "HTTP".to_string(),
        hostname: None,
        tls: None,
        allowed_routes: Some(ingress_tls::objects::AllowedRoutes {
            namespaces: Some(ingress_tls::objects::RouteNamespaces {
                from: Some(ingress_tls::objects::NamespacesFrom::Selector),
                selector: Some(ingress_tls::objects::LabelSelector {
                    match_labels: Some(vec![("team".to_string(), "web".to_string())]),
                    match_expressions: None,
                }),
            }),
        }),
    };
    let gateway = Gateway {
        metadata: metadata_g("scoped", Some("test"), vec![]),
        spec: GatewaySpec {
            gateway_class_name: "traefik".to_string(),
            listeners: vec![listener, https_listener_g()],
        },
    };
    let mut real = route_g("real", "labelled", "scoped", "http", backend_rule_g("/"));
    if let Some(refs) = real.spec.parent_refs.as_mut() {
        // A route in another namespace must name the Gateway's namespace.
        refs[0].namespace = Some("test".to_string());
    }
    let routes = vec![real];
    let cluster = Cluster {
        namespaces: vec![
            NamespaceInfo { name: "test".to_string(), labels: vec![] },
            NamespaceInfo {
                name: "labelled".to_string(),
                labels: vec![("team".to_string(), "web".to_string())],
            },
        ],
        gateways: vec![],
        httproutes: routes,
    };
    // The labelled namespace is selected, so its substantive route on the
    // HTTP listener is found and denied.
    let r = validate_gateway(&gateway, &cluster);
    assert!(matches!(
        r,
        Some(Ok(Status::Denied(
            DenyReason::GatewayNonRedirectHTTPRouteAttachedToHTTPListener(_)
        )))
    ));
}

#[test]
fn bad_route_deny_message_lists_routes() {
    let listener = http_listener_g();
    let route = route_g("bad-http", "test", "g", "http", backend_rule_g("/"));
    let reason = DenyReason::GatewayNonRedirectHTTPRouteAttachedToHTTPListener(vec![(
        listener,
        ingress_tls::status::Parted { good: vec![], bad: vec![route] },
    )]);
    assert_eq!(
        reason.message(),
        "There are 1 non-redirect HTTPRoutes (listed below) attaching to HTTP listeners of this Gateway.\ntest/bad-http"
    );
}
