use ingress_tls::classifier::{canonical_redirect_rule, is_redirect_or_no_rule};
use ingress_tls::objects::{
    BackendRef, FilterType, HttpRoute, HttpRouteSpec, Metadata, PathMatchType, RedirectScheme,
    RouteMatch, RouteRule,
};
use ingress_tls::render::decimal_string;
use ingress_tls::selector::SelectorByLabel;
use ingress_tls::strings::{eq_ignore_ascii_case, split_at_commas, wildcard_of};

fn route_with_rules(rules: Option<Vec<RouteRule>>) -> HttpRoute {
    HttpRoute {
        metadata: Metadata {
            name: Some("r".to_string()),
            namespace: Some("test".to_string()),
            annotations: None,
        },
        spec: HttpRouteSpec { parent_refs: None, hostnames: None, rules },
    }
}

#[test]
fn classifier_accepts_canonical_rule() {
    assert!(is_redirect_or_no_rule(&route_with_rules(Some(vec![canonical_redirect_rule()]))));
    assert!(is_redirect_or_no_rule(&route_with_rules(None)));
    assert!(is_redirect_or_no_rule(&route_with_rules(Some(vec![]))));
}

#[test]
fn classifier_rejects_perturbed_path_type() {
    let mut rule = canonical_redirect_rule();
    if let Some(ms) = rule.matches.as_mut() {
        if let Some(p) = ms[0].path.as_mut() {
            p.path_type = Some(PathMatchType::Exact);
        }
    }
    assert!(!is_redirect_or_no_rule(&route_with_rules(Some(vec![rule]))));
}

#[test]
fn classifier_rejects_perturbed_path_value() {
    let mut rule = canonical_redirect_rule();
    if let Some(ms) = rule.matches.as_mut() {
        if let Some(p) = ms[0].path.as_mut() {
            p.value = Some("/api".to_string());
        }
    }
    assert!(!is_redirect_or_no_rule(&route_with_rules(Some(vec![rule]))));
}

#[test]
fn classifier_rejects_perturbed_scheme() {
    let mut rule = canonical_redirect_rule();
    if let Some(fs) = rule.filters.as_mut() {
        if let Some(rr) = fs[0].request_redirect.as_mut() {
            rr.scheme = Some(RedirectScheme::Http);
        }
    }
    assert!(!is_redirect_or_no_rule(&route_with_rules(Some(vec![rule]))));
}

#[test]
fn classifier_rejects_perturbed_status_code() {
    let mut rule = canonical_redirect_rule();
    if let Some(fs) = rule.filters.as_mut() {
        if let Some(rr) = fs[0].request_redirect.as_mut() {
            rr.status_code = Some(301);
        }
    }
    assert!(!is_redirect_or_no_rule(&route_with_rules(Some(vec![rule]))));
}

#[test]
fn classifier_rejects_second_filter() {
    let mut rule = canonical_redirect_rule();
    let extra = rule.filters.as_ref().unwrap()[0].clone();
    rule.filters.as_mut().unwrap().push(extra);
    assert!(!is_redirect_or_no_rule(&route_with_rules(Some(vec![rule]))));
}

#[test]
fn classifier_rejects_perturbed_filter_type() {
    let mut rule = canonical_redirect_rule();
    if let Some(fs) = rule.filters.as_mut() {
        fs[0].filter_type = FilterType::UrlRewrite;
    }
    assert!(!is_redirect_or_no_rule(&route_with_rules(Some(vec![rule]))));
}

#[test]
fn classifier_rejects_backend_refs() {
    let mut rule = canonical_redirect_rule();
    rule.backend_refs = Some(vec![BackendRef {
        name: "svc".to_string(),
        namespace: None,
        port: Some(80),
    }]);
    assert!(!is_redirect_or_no_rule(&route_with_rules(Some(vec![rule]))));
}

#[test]
fn classifier_rejects_second_match() {
    let mut rule = canonical_redirect_rule();
    let extra = RouteMatch { path: None };
    rule.matches.as_mut().unwrap().push(extra);
    assert!(!is_redirect_or_no_rule(&route_with_rules(Some(vec![rule]))));
}

#[test]
fn classifier_rejects_two_rules() {
    let rules = vec![canonical_redirect_rule(), canonical_redirect_rule()];
    assert!(!is_redirect_or_no_rule(&route_with_rules(Some(rules))));
}

#[test]
fn comma_splitting_keeps_empty_chunks() {
    let parts = split_at_commas("a,,b");
    assert_eq!(parts, vec!["a".to_string(), "".to_string(), "b".to_string()]);
    assert_eq!(split_at_commas(""), vec!["".to_string()]);
    assert_eq!(split_at_commas("solo"), vec!["solo".to_string()]);
}

#[test]
fn leading_dot_becomes_wildcard() {
    assert_eq!(wildcard_of(".example.com"), "*.example.com");
    assert_eq!(wildcard_of("example.com"), "example.com");
    assert_eq!(wildcard_of("example.com."), "example.com.");
}

#[test]
fn ascii_case_insensitive_comparison() {
    assert!(eq_ignore_ascii_case("Traefik", "traefik"));
    assert!(eq_ignore_ascii_case("NGINX", "nginx"));
    assert!(!eq_ignore_ascii_case("traefik", "nginx"));
    assert!(!eq_ignore_ascii_case("traefik", "traefik2"));
}

#[test]
fn selectors_match_kubernetes_semantics() {
    let labels = vec![("team".to_string(), "web".to_string())];
    assert!(SelectorByLabel::Is("team".to_string(), "web".to_string()).matches_labels(&labels));
    assert!(!SelectorByLabel::Is("team".to_string(), "db".to_string()).matches_labels(&labels));
    assert!(SelectorByLabel::IsNot("team".to_string(), "db".to_string()).matches_labels(&labels));
    assert!(SelectorByLabel::IsNot("absent".to_string(), "x".to_string()).matches_labels(&labels));
    assert!(SelectorByLabel::In(
        "team".to_string(),
        vec!["web".to_string(), "db".to_string()]
    )
    .matches_labels(&labels));
    assert!(!SelectorByLabel::In("absent".to_string(), vec!["web".to_string()])
        .matches_labels(&labels));
    assert!(SelectorByLabel::NotIn("absent".to_string(), vec!["web".to_string()])
        .matches_labels(&labels));
    assert!(!SelectorByLabel::NotIn("team".to_string(), vec!["web".to_string()])
        .matches_labels(&labels));
    assert!(SelectorByLabel::Exists("team".to_string()).matches_labels(&labels));
    assert!(SelectorByLabel::DoesNotExist("absent".to_string()).matches_labels(&labels));
}

#[test]
fn decimal_rendering() {
    assert_eq!(decimal_string(0), "0");
    assert_eq!(decimal_string(7), "7");
    assert_eq!(decimal_string(42), "42");
    assert_eq!(decimal_string(1203), "1203");
}
