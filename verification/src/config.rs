//! The engine's configuration: what the command line supplies, and the
//! recognised Ingress classes.

use vstd::prelude::*;

use crate::objects::view_opt;
use crate::strings::{ascii_lower, eq_ignore_ascii_case};

verus! {

/// A cert-manager issuer reference: namespaced issuers are written to the
/// `cert-manager.io/issuer` annotation, clustered ones to
/// `cert-manager.io/cluster-issuer`.
#[derive(Debug)]
pub enum Issuer {
    Namespaced(String),
    Clustered(String),
}

#[verifier::ext_equal]
pub enum IssuerView {
    Namespaced(Seq<char>),
    Clustered(Seq<char>),
}

impl View for Issuer {
    type V = IssuerView;

    open spec fn view(&self) -> IssuerView {
        match self {
            Issuer::Namespaced(s) => IssuerView::Namespaced(s@),
            Issuer::Clustered(s) => IssuerView::Clustered(s@),
        }
    }
}

impl Clone for Issuer {
    fn clone(&self) -> (r: Self)
        ensures
            r@ == self@,
    {
        match self {
            Issuer::Namespaced(s) => Issuer::Namespaced(s.clone()),
            Issuer::Clustered(s) => Issuer::Clustered(s.clone()),
        }
    }
}

/// The cert-manager annotations a mutator writes.
#[derive(Debug)]
pub struct CertManagerAnnotations {
    pub issuer: Issuer,
    pub kind: Option<String>,
    pub group: Option<String>,
}

#[verifier::ext_equal]
pub struct CertManagerAnnotationsView {
    pub issuer: IssuerView,
    pub kind: Option<Seq<char>>,
    pub group: Option<Seq<char>>,
}

impl View for CertManagerAnnotations {
    type V = CertManagerAnnotationsView;

    open spec fn view(&self) -> CertManagerAnnotationsView {
        CertManagerAnnotationsView {
            issuer: self.issuer@,
            kind: view_opt(self.kind),
            group: view_opt(self.group),
        }
    }
}

/// The webhook's configuration.  The listen address and TLS file locations
/// only matter to the transport layer; the annotation configuration drives
/// the mutators.
#[derive(Debug)]
pub struct Cli {
    pub listen_address: (String, u16),
    pub cma: Option<CertManagerAnnotations>,
    pub traefik_ingress_redirect_resource_name: Option<String>,
    pub tls_folder: String,
    pub tls_certificate_file_name: String,
    pub tls_private_key_file_name: String,
}

#[verifier::ext_equal]
pub struct CliView {
    pub listen_address: (Seq<char>, int),
    pub cma: Option<CertManagerAnnotationsView>,
    pub traefik_ingress_redirect_resource_name: Option<Seq<char>>,
    pub tls_folder: Seq<char>,
    pub tls_certificate_file_name: Seq<char>,
    pub tls_private_key_file_name: Seq<char>,
}

impl View for Cli {
    type V = CliView;

    open spec fn view(&self) -> CliView {
        CliView {
            listen_address: (self.listen_address.0@, self.listen_address.1 as int),
            cma: match self.cma {
                Some(c) => Some(c@),
                None => None,
            },
            traefik_ingress_redirect_resource_name: view_opt(
                self.traefik_ingress_redirect_resource_name,
            ),
            tls_folder: self.tls_folder@,
            tls_certificate_file_name: self.tls_certificate_file_name@,
            tls_private_key_file_name: self.tls_private_key_file_name@,
        }
    }
}

/// The Ingress classes with a class-specific redirect annotation.
#[derive(Clone, Copy, PartialEq, Eq, Structural, Debug)]
pub enum SupportedIngressClass {
    Traefik,
    Nginx,
}

/// Which supported class a class name denotes, comparing ASCII
/// case-insensitively; any other name is unrecognised.
pub open spec fn spec_ingress_class(s: Seq<char>) -> Option<SupportedIngressClass> {
    if ascii_lower(s) == ascii_lower("traefik"@) {
        Some(SupportedIngressClass::Traefik)
    } else if ascii_lower(s) == ascii_lower("nginx"@) {
        Some(SupportedIngressClass::Nginx)
    } else {
        None
    }
}

impl SupportedIngressClass {
    /// Detects the class from a class name; an unrecognised name is an
    /// error, which the Ingress mutator logs and works around.
    pub fn from_class_name(s: &str) -> (r: Result<SupportedIngressClass, String>)
        ensures
            match r {
                Ok(c) => spec_ingress_class(s@) == Some(c),
                Err(_) => spec_ingress_class(s@) is None,
            },
    {
        if eq_ignore_ascii_case(s, "traefik") {
            Ok(SupportedIngressClass::Traefik)
        } else if eq_ignore_ascii_case(s, "nginx") {
            Ok(SupportedIngressClass::Nginx)
        } else {
            Err(String::from_str("Unsupported Ingress Class"))
        }
    }
}

} // verus!
