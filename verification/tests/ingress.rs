use ingress_tls::annotations::get_external_dns_hostname;
use ingress_tls::config::{CertManagerAnnotations, Cli, Issuer};
use ingress_tls::ingress::{mutate_ingress, validate_ingress};
use ingress_tls::objects::{Ingress, IngressRule, IngressSpec, IngressTls, Metadata};
use ingress_tls::status::{DenyReason, Status};

fn test_conf_i() -> Cli {
    Cli {
        listen_address: ("0.0.0.0".to_string(), 443),
        cma: Some(CertManagerAnnotations {
            issuer: Issuer::Namespaced("step-issuer".to_string()),
            kind: Some("StepClusterIssuer".to_string()),
            group: Some("certmanager.step.sm".to_string()),
        }),
        traefik_ingress_redirect_resource_name: None,
        tls_folder: "/tls".to_string(),
        tls_certificate_file_name: "tls.crt".to_string(),
        tls_private_key_file_name: "tls.key".to_string(),
    }
}

fn base_annotations_i() -> Vec<(String, String)> {
    vec![
        (
            "external-dns.alpha.kubernetes.io/hostname".to_string(),
            "whoami.magicloud.lan.".to_string(),
        ),
        ("cert-manager.io/issuer".to_string(), "step-issuer".to_string()),
        ("cert-manager.io/issuer-kind".to_string(), "StepClusterIssuer".to_string()),
        ("cert-manager.io/issuer-group".to_string(), "certmanager.step.sm".to_string()),
    ]
}

fn ingress_with(name: &str, annotations: Vec<(String, String)>, tls: Option<Vec<IngressTls>>) -> Ingress {
    Ingress {
        metadata: Metadata {
            name: Some(name.to_string()),
            namespace: Some("test".to_string()),
            annotations: Some(annotations),
        },
        spec: Some(IngressSpec {
            ingress_class_name: None,
            rules: Some(vec![IngressRule { host: Some("whoami.magicloud.lan".to_string()) }]),
            tls,
        }),
    }
}

#[test]
fn good_ingress() {
    let good_ingress = ingress_with(
        "good",
        base_annotations_i(),
        Some(vec![IngressTls {
            hosts: Some(vec!["whoami.magicloud.lan".to_string()]),
            secret_name: Some("good-ingress-tls".to_string()),
        }]),
    );
    let r = validate_ingress(&good_ingress);
    assert!(matches!(r, Some(Ok(Status::MoveOn))));
    let m = mutate_ingress(&good_ingress, &test_conf_i());
    assert!(matches!(m, Some(Ok(Status::MoveOn))));
}

#[test]
fn no_tls_ingress() {
    let no_tls_ingress = ingress_with(
        "no-tls",
        vec![(
            "external-dns.alpha.kubernetes.io/hostname".to_string(),
            "whoami.magicloud.lan.".to_string(),
        )],
        None,
    );
    let r = validate_ingress(&no_tls_ingress);
    assert!(matches!(r, Some(Ok(Status::Denied(DenyReason::IngressNoTLS)))));
}

#[test]
fn skip_ingress() {
    let mut annotations = vec![(
        "external-dns.alpha.kubernetes.io/hostname".to_string(),
        "whoami.magicloud.lan.".to_string(),
    )];
    annotations.push(("ingress-tls.magiclouds.cn/skip".to_string(), "true".to_string()));
    let skip_ingress = ingress_with("skip", annotations, None);
    let r = validate_ingress(&skip_ingress);
    assert!(matches!(r, Some(Ok(Status::Allowed))));
    let m = mutate_ingress(&skip_ingress, &test_conf_i());
    assert!(matches!(m, Some(Ok(Status::Allowed))));
}

#[test]
fn no_tls_ingress_patch_adds_tls_and_annotations() {
    let no_tls_ingress = ingress_with("no-tls", base_annotations_i(), None);
    let m = mutate_ingress(&no_tls_ingress, &test_conf_i());
    let target = match m {
        Some(Ok(Status::Patch(t))) => t,
        other => panic!("expected a patch, got {other:?}"),
    };
    let spec = target.spec.as_ref().expect("the target keeps its spec");
    let tls = spec.tls.as_ref().expect("the target gains a TLS block");
    assert_eq!(tls.len(), 1);
    assert_eq!(
        tls[0].hosts,
        Some(vec![
            "whoami.magicloud.lan".to_string(),
            "whoami.magicloud.lan.".to_string(),
        ])
    );
    assert_eq!(tls[0].secret_name, Some("no-tls-tls".to_string()));
    let annotations = target.metadata.annotations.as_ref().expect("annotations stay present");
    // The issuer annotations already existed and keep their values.
    assert!(annotations.contains(&(
        "cert-manager.io/issuer".to_string(),
        "step-issuer".to_string(),
    )));
    // The revalidated target is no longer denied.
    let r = validate_ingress(&target);
    assert!(matches!(r, Some(Ok(Status::MoveOn))));
}

#[test]
fn no_tls_ingress_without_issuer_annotations_gains_them() {
    let no_tls_ingress = ingress_with(
        "no-tls",
        vec![(
            "external-dns.alpha.kubernetes.io/hostname".to_string(),
            "whoami.magicloud.lan.".to_string(),
        )],
        None,
    );
    let m = mutate_ingress(&no_tls_ingress, &test_conf_i());
    let target = match m {
        Some(Ok(Status::Patch(t))) => t,
        other => panic!("expected a patch, got {other:?}"),
    };
    let annotations = target.metadata.annotations.as_ref().expect("annotations stay present");
    assert!(annotations.contains(&(
        "cert-manager.io/issuer-group".to_string(),
        "certmanager.step.sm".to_string(),
    )));
    assert!(annotations.contains(&(
        "cert-manager.io/issuer-kind".to_string(),
        "StepClusterIssuer".to_string(),
    )));
    assert!(annotations.contains(&(
        "cert-manager.io/issuer".to_string(),
        "step-issuer".to_string(),
    )));
}

#[test]
fn ingress_without_hosts_is_invalid() {
    let mut ingress = ingress_with("no-hosts", vec![], None);
    ingress.spec = Some(IngressSpec {
        ingress_class_name: None,
        rules: Some(vec![IngressRule { host: None }]),
        tls: None,
    });
    let m = mutate_ingress(&ingress, &test_conf_i());
    match m {
        Some(Ok(Status::Invalid(msg))) => {
            assert_eq!(msg, "The Ingress does not contain hosts information");
        },
        other => panic!("expected invalid, got {other:?}"),
    }
}

#[test]
fn traefik_class_gains_middleware_annotation() {
    let mut conf = test_conf_i();
    conf.traefik_ingress_redirect_resource_name = Some("redirect".to_string());
    let mut ingress = ingress_with("with-class", vec![], None);
    if let Some(s) = ingress.spec.as_mut() {
        s.ingress_class_name = Some("Traefik".to_string());
    }
    let m = mutate_ingress(&ingress, &conf);
    let target = match m {
        Some(Ok(Status::Patch(t))) => t,
        other => panic!("expected a patch, got {other:?}"),
    };
    let annotations = target.metadata.annotations.expect("annotations present");
    assert!(annotations.contains(&(
        "traefik.ingress.kubernetes.io/router.middlewares".to_string(),
        "test-redirect@kubernetescrd".to_string(),
    )));
}

#[test]
fn nginx_class_gains_force_ssl_annotation() {
    let mut ingress = ingress_with("with-nginx", vec![], None);
    if let Some(s) = ingress.spec.as_mut() {
        s.ingress_class_name = Some("nginx".to_string());
    }
    let m = mutate_ingress(&ingress, &test_conf_i());
    let target = match m {
        Some(Ok(Status::Patch(t))) => t,
        other => panic!("expected a patch, got {other:?}"),
    };
    let annotations = target.metadata.annotations.expect("annotations present");
    assert!(annotations.contains(&(
        "nginx.ingress.kubernetes.io/force-ssl-redirect".to_string(),
        "true".to_string(),
    )));
}

#[test]
fn external_dns_hostnames_split_and_wildcard() {
    let ingress = ingress_with(
        "edns",
        vec![(
            "external-dns.alpha.kubernetes.io/hostname".to_string(),
            "a.example.com,.example.org,b.example.net".to_string(),
        )],
        None,
    );
    let hosts = get_external_dns_hostname(&ingress).expect("annotation is present");
    assert_eq!(
        hosts,
        vec![
            "a.example.com".to_string(),
            "*.example.org".to_string(),
            "b.example.net".to_string(),
        ]
    );
}

#[test]
fn deny_message_for_missing_tls() {
    let reason = DenyReason::IngressNoTLS;
    assert_eq!(reason.message(), "The Ingress does not contain a TLS configuration.");
    let status: Status<Ingress> = Status::Denied(DenyReason::IngressNoTLS);
    let text = status.deny_text().expect("denials carry a message");
    let msg = ingress_tls::render::admission_message("test", "no-tls", &text);
    assert_eq!(msg, "test/no-tls: The Ingress does not contain a TLS configuration.");
}
