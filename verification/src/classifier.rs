//! The rule classifier: whether an HTTPRoute imposes no substantive
//! data-plane behaviour and may therefore sit on an HTTP listener.

use vstd::prelude::*;

use crate::objects::{
    FilterType, HttpRoute, HttpRouteView, PathMatch, PathMatchType, PathMatchView, RedirectScheme,
    RequestRedirect, RequestRedirectView, RouteFilter, RouteFilterView, RouteMatch, RouteMatchView,
    RouteRule, RouteRuleView,
};
use crate::strings::str_eq;

verus! {

/// The canonical redirect match: path prefix `/`.
pub open spec fn spec_canonical_match() -> RouteMatchView {
    RouteMatchView {
        path: Some(
            PathMatchView { path_type: Some(PathMatchType::PathPrefix), value: Some("/"@) },
        ),
    }
}

/// The canonical redirect filter: a 302 redirect to https.
pub open spec fn spec_canonical_filter() -> RouteFilterView {
    RouteFilterView {
        filter_type: FilterType::RequestRedirect,
        request_redirect: Some(
            RequestRedirectView {
                scheme: Some(RedirectScheme::Https),
                status_code: Some(302),
                hostname: None,
                port: None,
            },
        ),
    }
}

/// Whether a rule is, field for field, the canonical redirect rule: one
/// canonical match, one canonical filter, and nothing else set.
pub open spec fn spec_canonical_rule(r: RouteRuleView) -> bool {
    &&& match r.matches {
        Some(ms) => ms =~= seq![spec_canonical_match()],
        None => false,
    }
    &&& match r.filters {
        Some(fs) => fs =~= seq![spec_canonical_filter()],
        None => false,
    }
    &&& r.backend_refs is None
}

/// Whether a route imposes no data-plane behaviour: no rules, an empty rule
/// list, or exactly the canonical redirect rule.
pub open spec fn spec_is_redirect_or_no_rule(rt: HttpRouteView) -> bool {
    match rt.spec.rules {
        None => true,
        Some(rs) => rs.len() == 0 || (rs.len() == 1 && spec_canonical_rule(rs[0])),
    }
}

/// Whether one rule equals the canonical redirect rule.
fn is_canonical_rule(r: &RouteRule) -> (b: bool)
    ensures
        b == spec_canonical_rule(r@),
{
    let matches_ok = match &r.matches {
        Some(ms) => {
            if ms.len() == 1 {
                let m = &ms[0];
                let ok = match &m.path {
                    Some(p) => {
                        let type_ok = match p.path_type {
                            Some(PathMatchType::PathPrefix) => true,
                            _ => false,
                        };
                        let value_ok = match &p.value {
                            Some(v) => str_eq(v.as_str(), "/"),
                            None => false,
                        };
                        type_ok && value_ok
                    },
                    None => false,
                };
                proof {
                    if ok {
                        assert(crate::objects::view_seq(ms@) =~= seq![spec_canonical_match()]);
                    } else {
                        assert(crate::objects::view_seq(ms@)[0] == ms@[0]@);
                    }
                }
                ok
            } else {
                proof {
                    assert(crate::objects::view_seq(ms@).len() == ms@.len());
                }
                false
            }
        },
        None => false,
    };
    let filters_ok = match &r.filters {
        Some(fs) => {
            if fs.len() == 1 {
                let f = &fs[0];
                let type_ok = match f.filter_type {
                    FilterType::RequestRedirect => true,
                    _ => false,
                };
                let rr_ok = match &f.request_redirect {
                    Some(rr) => {
                        let scheme_ok = match rr.scheme {
                            Some(RedirectScheme::Https) => true,
                            _ => false,
                        };
                        let code_ok = match rr.status_code {
                            Some(c) => c == 302,
                            None => false,
                        };
                        scheme_ok && code_ok && rr.hostname.is_none() && rr.port.is_none()
                    },
                    None => false,
                };
                let ok = type_ok && rr_ok;
                proof {
                    if ok {
                        assert(crate::objects::view_seq(fs@) =~= seq![spec_canonical_filter()]);
                    } else {
                        assert(crate::objects::view_seq(fs@)[0] == fs@[0]@);
                    }
                }
                ok
            } else {
                proof {
                    assert(crate::objects::view_seq(fs@).len() == fs@.len());
                }
                false
            }
        },
        None => false,
    };
    matches_ok && filters_ok && r.backend_refs.is_none()
}

/// Classifies a route: absent or empty rules, or exactly the canonical
/// redirect rule, mean it can safely attach to an HTTP listener.
pub fn is_redirect_or_no_rule(httproute: &HttpRoute) -> (b: bool)
    ensures
        b == spec_is_redirect_or_no_rule(httproute@),
{
    match &httproute.spec.rules {
        None => true,
        Some(rs) => {
            if rs.len() == 0 {
                proof {
                    assert(crate::objects::view_seq(rs@).len() == 0);
                }
                true
            } else if rs.len() == 1 {
                let b = is_canonical_rule(&rs[0]);
                proof {
                    assert(crate::objects::view_seq(rs@)[0] == rs@[0]@);
                }
                b
            } else {
                false
            }
        },
    }
}

/// Builds the canonical redirect rule as a value.
pub fn canonical_redirect_rule() -> (r: RouteRule)
    ensures
        spec_canonical_rule(r@),
{
    let r = RouteRule {
        matches: Some(
            vec![
                RouteMatch {
                    path: Some(
                        PathMatch {
                            path_type: Some(PathMatchType::PathPrefix),
                            value: Some(String::from_str("/")),
                        },
                    ),
                },
            ],
        ),
        filters: Some(
            vec![
                RouteFilter {
                    filter_type: FilterType::RequestRedirect,
                    request_redirect: Some(
                        RequestRedirect {
                            scheme: Some(RedirectScheme::Https),
                            status_code: Some(302),
                            hostname: None,
                            port: None,
                        },
                    ),
                },
            ],
        ),
        backend_refs: None,
    };
    proof {
        let rv = r@;
        assert(rv.matches.unwrap() =~= seq![spec_canonical_match()]);
        assert(rv.filters.unwrap() =~= seq![spec_canonical_filter()]);
    }
    r
}

} // verus!
