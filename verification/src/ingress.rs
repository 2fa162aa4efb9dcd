//! The Ingress policy: validation (skip, then TLS presence) and mutation
//! (synthesise a TLS block from the known hostnames and add the
//! cert-manager and redirect annotations).

use vstd::prelude::*;

use crate::annotations::{
    insert_annotation_if_absent, spec_external_dns_hostnames, spec_insert_absent, spec_skip_check, skip_check,
};
use crate::config::{spec_ingress_class, Cli, CliView, Issuer, IssuerView, SupportedIngressClass};
use crate::objects::{
    clone_opt_string, view_pairs, view_seq, Ingress, IngressRuleView, IngressTls, IngressTlsView, IngressView, Metadata,
};
use crate::status::{
    check_view, CheckResult, CheckResultView, ControlFlow, DenyReason, DenyReasonView, Status,
    StatusView,
};
use crate::strings::{dedup, dedup_strings, split_once_slash};

verus! {

/// The TLS check: an Ingress without a TLS block, or with an empty one, is
/// denied; one with entries moves on; one without a spec is inapplicable.
pub open spec fn spec_has_tls_check(i: IngressView) -> CheckResultView<IngressView> {
    match i.spec {
        None => None,
        Some(s) => match s.tls {
            None => Some(Ok(StatusView::Denied(DenyReasonView::IngressNoTLS))),
            Some(t) => if t.len() == 0 {
                Some(Ok(StatusView::Denied(DenyReasonView::IngressNoTLS)))
            } else {
                Some(Ok(StatusView::MoveOn))
            },
        },
    }
}

/// The Ingress validation pipeline: skip, then TLS presence.
pub open spec fn spec_validate_ingress(i: IngressView) -> CheckResultView<IngressView> {
    let r1 = spec_skip_check::<IngressView>(i.metadata);
    if !crate::status::spec_is_continue(r1) {
        r1
    } else {
        spec_has_tls_check(i)
    }
}

/// Validates an Ingress.
pub fn validate_ingress(ingress: &Ingress) -> (r: CheckResult<Ingress>)
    ensures
        check_view(r) == spec_validate_ingress(ingress@),
{
    let r1: CheckResult<Ingress> = skip_check(ingress);
    if r1.is_break() {
        return r1;
    }
    match &ingress.spec {
        None => None,
        Some(s) => match &s.tls {
            None => Some(Ok(Status::Denied(DenyReason::IngressNoTLS))),
            Some(t) => if t.len() == 0 {
                proof {
                    assert(view_seq(t@).len() == 0);
                }
                Some(Ok(Status::Denied(DenyReason::IngressNoTLS)))
            } else {
                proof {
                    assert(view_seq(t@).len() != 0);
                }
                Some(Ok(Status::MoveOn))
            },
        },
    }
}

/// The hosts named by an Ingress's rules, in order, absent ones skipped.
pub open spec fn spec_rule_hosts(rs: Seq<IngressRuleView>) -> Seq<Seq<char>>
    decreases rs.len(),
{
    if rs.len() == 0 {
        Seq::<Seq<char>>::empty()
    } else {
        let r = spec_rule_hosts(rs.drop_last());
        match rs.last().host {
            Some(h) => r.push(h),
            None => r,
        }
    }
}

/// The annotation list after the cert-manager group has been applied:
/// issuer group and kind where configured, and the issuer itself under the
/// key its variant selects, never overwriting.
pub open spec fn spec_patch_cert_manager(
    a: Seq<(Seq<char>, Seq<char>)>,
    conf: CliView,
) -> Seq<(Seq<char>, Seq<char>)> {
    match conf.cma {
        None => a,
        Some(x) => {
            let a1 = match x.group {
                Some(g) => spec_insert_absent(a, "cert-manager.io/issuer-group"@, g),
                None => a,
            };
            let a2 = match x.kind {
                Some(k) => spec_insert_absent(a1, "cert-manager.io/issuer-kind"@, k),
                None => a1,
            };
            match x.issuer {
                IssuerView::Namespaced(v) => spec_insert_absent(a2, "cert-manager.io/issuer"@, v),
                IssuerView::Clustered(v) => spec_insert_absent(
                    a2,
                    "cert-manager.io/cluster-issuer"@,
                    v,
                ),
            }
        },
    }
}

/// Applies the cert-manager annotation group.
pub fn patch_cert_manager(annotations: &mut Vec<(String, String)>, conf: &Cli)
    ensures
        view_pairs(final(annotations)@) == spec_patch_cert_manager(
            view_pairs(old(annotations)@),
            conf@,
        ),
{
    match &conf.cma {
        None => {},
        Some(x) => {
            match &x.group {
                Some(g) => insert_annotation_if_absent(
                    annotations,
                    "cert-manager.io/issuer-group",
                    g.as_str(),
                ),
                None => {},
            }
            match &x.kind {
                Some(k) => insert_annotation_if_absent(
                    annotations,
                    "cert-manager.io/issuer-kind",
                    k.as_str(),
                ),
                None => {},
            }
            match &x.issuer {
                Issuer::Namespaced(v) => insert_annotation_if_absent(
                    annotations,
                    "cert-manager.io/issuer",
                    v.as_str(),
                ),
                Issuer::Clustered(v) => insert_annotation_if_absent(
                    annotations,
                    "cert-manager.io/cluster-issuer",
                    v.as_str(),
                ),
            }
        },
    }
}

/// The Traefik middleware annotation value: `NS-NAME@kubernetescrd`, where
/// the configured reference supplies `NS/NAME` or just `NAME`, the
/// Ingress's namespace being the default.
pub open spec fn spec_middleware_value(v: Seq<char>, ns: Seq<char>) -> Seq<char> {
    match split_once_slash(v) {
        Some(p) => p.0 + "-"@ + p.1 + "@kubernetescrd"@,
        None => ns + "-"@ + v + "@kubernetescrd"@,
    }
}

/// Builds the Traefik middleware annotation value.
fn middleware_value(v: &str, ns: &str) -> (r: String)
    ensures
        r@ == spec_middleware_value(v@, ns@),
{
    match crate::strings::split_at_first_slash(v) {
        Some(p) => {
            let mut r = p.0;
            r.append("-");
            r.append(p.1.as_str());
            r.append("@kubernetescrd");
            r
        },
        None => {
            let mut r = ns.to_owned();
            r.append("-");
            r.append(v);
            r.append("@kubernetescrd");
            r
        },
    }
}

/// The annotation list after the Ingress mutation: the cert-manager group,
/// then the class-specific redirect annotation, all insert-only.
pub open spec fn spec_patch_annotations_ingress(
    a: Seq<(Seq<char>, Seq<char>)>,
    ic: Option<SupportedIngressClass>,
    ns: Seq<char>,
    conf: CliView,
) -> Seq<(Seq<char>, Seq<char>)> {
    let b = spec_patch_cert_manager(a, conf);
    match ic {
        Some(SupportedIngressClass::Traefik) => match conf
            .traefik_ingress_redirect_resource_name {
            Some(v) => spec_insert_absent(
                b,
                "traefik.ingress.kubernetes.io/router.middlewares"@,
                spec_middleware_value(v, ns),
            ),
            None => b,
        },
        Some(SupportedIngressClass::Nginx) => spec_insert_absent(
            b,
            "nginx.ingress.kubernetes.io/force-ssl-redirect"@,
            "true"@,
        ),
        None => b,
    }
}

/// Applies the Ingress annotation patch.
fn patch_annotations(
    annotations: &mut Vec<(String, String)>,
    ic: Option<SupportedIngressClass>,
    ns: &str,
    conf: &Cli,
)
    ensures
        view_pairs(final(annotations)@) == spec_patch_annotations_ingress(
            view_pairs(old(annotations)@),
            ic,
            ns@,
            conf@,
        ),
{
    patch_cert_manager(annotations, conf);
    match ic {
        Some(SupportedIngressClass::Traefik) => {
            match &conf.traefik_ingress_redirect_resource_name {
                Some(v) => {
                    let value = middleware_value(v.as_str(), ns);
                    insert_annotation_if_absent(
                        annotations,
                        "traefik.ingress.kubernetes.io/router.middlewares",
                        value.as_str(),
                    );
                },
                None => {},
            }
        },
        Some(SupportedIngressClass::Nginx) => {
            insert_annotation_if_absent(
                annotations,
                "nginx.ingress.kubernetes.io/force-ssl-redirect",
                "true",
            );
        },
        None => {},
    }
}

/// The hostnames an Ingress mutation collects: the rule hosts, then the
/// external-dns hostnames, de-duplicated.
pub open spec fn spec_collected_hosts(i: IngressView, rules: Seq<IngressRuleView>) -> Seq<
    Seq<char>,
> {
    let from_rules = spec_rule_hosts(rules);
    let with_edns = match spec_external_dns_hostnames(i.metadata) {
        Some(e) => from_rules + e,
        None => from_rules,
    };
    dedup(with_edns)
}

/// The repaired Ingress: the collected hosts under a synthesised secret
/// name, and the annotations patched.
pub open spec fn spec_ingress_target(
    i: IngressView,
    s: crate::objects::IngressSpecView,
    name: Seq<char>,
    ns: Seq<char>,
    hosts: Seq<Seq<char>>,
    conf: CliView,
) -> IngressView {
    let ic = match s.ingress_class_name {
        Some(cn) => spec_ingress_class(cn),
        None => None,
    };
    IngressView {
        metadata: crate::objects::MetadataView {
            name: i.metadata.name,
            namespace: i.metadata.namespace,
            annotations: Some(
                spec_patch_annotations_ingress(
                    match i.metadata.annotations {
                        Some(a) => a,
                        None => Seq::<(Seq<char>, Seq<char>)>::empty(),
                    },
                    ic,
                    ns,
                    conf,
                ),
            ),
        },
        spec: Some(
            crate::objects::IngressSpecView {
                ingress_class_name: s.ingress_class_name,
                rules: s.rules,
                tls: Some(
                    seq![
                        IngressTlsView { hosts: Some(hosts), secret_name: Some(name + "-tls"@) }
                    ],
                ),
            },
        ),
    }
}

/// The Ingress mutation pipeline: on a missing-TLS denial, collect the
/// hostnames and emit the repaired clone; any other validation outcome is
/// forwarded.
pub open spec fn spec_mutate_ingress(i: IngressView, conf: CliView) -> CheckResultView<
    IngressView,
> {
    let v = spec_validate_ingress(i);
    if v == Some(Ok::<StatusView<IngressView>, Seq<char>>(StatusView::Denied(
        DenyReasonView::IngressNoTLS,
    ))) {
        match (i.metadata.name, i.metadata.namespace) {
            (Some(name), Some(ns)) => match i.spec {
                None => None,
                Some(s) => match s.rules {
                    None => None,
                    Some(rules) => {
                        let hosts = spec_collected_hosts(i, rules);
                        if hosts.len() == 0 {
                            Some(
                                Ok(StatusView::Invalid(
                                    "The Ingress does not contain hosts information"@,
                                )),
                            )
                        } else {
                            Some(
                                Ok(StatusView::Patch(
                                    spec_ingress_target(i, s, name, ns, hosts, conf),
                                )),
                            )
                        }
                    },
                },
            },
            _ => None,
        }
    } else {
        v
    }
}

/// Mutates an Ingress.
pub fn mutate_ingress(ingress: &Ingress, conf: &Cli) -> (r: CheckResult<Ingress>)
    ensures
        check_view(r) == spec_mutate_ingress(ingress@, conf@),
{
    let validate_result = validate_ingress(ingress);
    let denied = match &validate_result {
        Some(Ok(Status::Denied(DenyReason::IngressNoTLS))) => true,
        _ => false,
    };
    if !denied {
        return validate_result;
    }
    let name = match &ingress.metadata.name {
        Some(n) => n,
        None => {
            return None;
        },
    };
    let ns = match &ingress.metadata.namespace {
        Some(n) => n,
        None => {
            return None;
        },
    };
    let s = match &ingress.spec {
        Some(s) => s,
        None => {
            return None;
        },
    };
    let rules = match &s.rules {
        Some(rs) => rs,
        None => {
            return None;
        },
    };
    let ic = match &s.ingress_class_name {
        Some(cn) => match SupportedIngressClass::from_class_name(cn.as_str()) {
            Ok(c) => Some(c),
            Err(_) => None,
        },
        None => None,
    };
    let mut hosts: Vec<String> = Vec::new();
    let mut i: usize = 0;
    let ghost rulesv = view_seq(rules@);
    proof {
        assert(rulesv.take(0) =~= Seq::<IngressRuleView>::empty());
        assert(view_seq(hosts@) =~= Seq::<Seq<char>>::empty());
    }
    while i < rules.len()
        invariant
            i <= rules@.len(),
            rulesv == view_seq(rules@),
            view_seq(hosts@) == spec_rule_hosts(rulesv.take(i as int)),
        decreases rules@.len() - i,
    {
        proof {
            assert(rulesv.take(i as int + 1).drop_last() =~= rulesv.take(i as int));
            assert(rulesv.take(i as int + 1).last() == rules@[i as int]@);
        }
        match &rules[i].host {
            Some(h) => {
                let ghost old_hosts = view_seq(hosts@);
                hosts.push(h.clone());
                proof {
                    assert(view_seq(hosts@) =~= old_hosts.push(h@));
                }
            },
            None => {},
        }
        i += 1;
    }
    proof {
        assert(rulesv.take(rulesv.len() as int) =~= rulesv);
    }
    match crate::annotations::get_external_dns_hostname(ingress) {
        Some(edns) => {
            let mut j: usize = 0;
            let ghost base = view_seq(hosts@);
            let ghost ednsv = view_seq(edns@);
            while j < edns.len()
                invariant
                    j <= edns@.len(),
                    ednsv == view_seq(edns@),
                    view_seq(hosts@) == base + ednsv.take(j as int),
                decreases edns@.len() - j,
            {
                let ghost old_hosts = view_seq(hosts@);
                hosts.push(edns[j].clone());
                proof {
                    assert(view_seq(hosts@) =~= old_hosts.push(edns@[j as int]@));
                    assert(base + ednsv.take(j as int + 1) =~= (base + ednsv.take(j as int)).push(
                        ednsv[j as int],
                    ));
                }
                j += 1;
            }
            proof {
                assert(ednsv.take(ednsv.len() as int) =~= ednsv);
            }
        },
        None => {},
    }
    let hosts = dedup_strings(hosts);
    let ghost collected = view_seq(hosts@);
    proof {
        assert(collected == spec_collected_hosts(ingress@, rulesv));
    }
    if hosts.len() == 0 {
        proof {
            assert(collected.len() == 0);
        }
        return Some(
            Ok(Status::Invalid(String::from_str("The Ingress does not contain hosts information"))),
        );
    }
    let mut secret_name = name.clone();
    secret_name.append("-tls");
    let ghost secret_view = secret_name@;
    let tls = vec![IngressTls { hosts: Some(hosts), secret_name: Some(secret_name) }];
    let ghost tls_view = view_seq(tls@);
    proof {
        assert(tls_view =~= seq![
            IngressTlsView { hosts: Some(collected), secret_name: Some(secret_view) },
        ]);
    }
    let mut new_spec = s.clone();
    new_spec.tls = Some(tls);
    let ghost new_spec_view = new_spec@;
    let mut annotations: Vec<(String, String)> = match &ingress.metadata.annotations {
        Some(a) => crate::objects::clone_pairs(a),
        None => Vec::new(),
    };
    let ghost base_annotations = match ingress@.metadata.annotations {
        Some(a) => a,
        None => Seq::<(Seq<char>, Seq<char>)>::empty(),
    };
    proof {
        match ingress@.metadata.annotations {
            Some(a) => {
                assert(view_pairs(annotations@) == a);
            },
            None => {
                assert(view_pairs(annotations@) =~= Seq::<(Seq<char>, Seq<char>)>::empty());
            },
        }
    }
    patch_annotations(&mut annotations, ic, ns.as_str(), conf);
    let ghost patched = view_pairs(annotations@);
    let target = Ingress {
        metadata: Metadata {
            name: clone_opt_string(&ingress.metadata.name),
            namespace: clone_opt_string(&ingress.metadata.namespace),
            annotations: Some(annotations),
        },
        spec: Some(new_spec),
    };
    proof {
        let iv = ingress@;
        let sv = iv.spec->Some_0;
        let tv = target@;
        let goal = spec_ingress_target(iv, sv, name@, ns@, collected, conf@);
        assert(ic == (match sv.ingress_class_name {
            Some(cn) => spec_ingress_class(cn),
            None => None::<SupportedIngressClass>,
        }));
        assert(patched == spec_patch_annotations_ingress(base_annotations, ic, ns@, conf@));
        assert(tv.metadata =~= goal.metadata);
        assert(new_spec_view.tls == Some(tls_view));
        assert(secret_view == name@ + "-tls"@);
        assert(tls_view =~= goal.spec->Some_0.tls->Some_0);
        assert(new_spec_view =~= goal.spec->Some_0);
        assert(tv =~= goal);
    }
    Some(Ok(Status::Patch(target)))
}

} // verus!
