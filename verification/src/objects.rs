//! Plain-value models of the Kubernetes objects the engine reasons about,
//! together with their mathematical views.
//!
//! Only the fields that are semantically relevant to the admission policy
//! are modelled; the transport layer converts between these types and the
//! wire representation.

use vstd::prelude::*;

verus! {

/// View of an optional exec value as an optional mathematical value.
pub open spec fn view_opt<T: View>(o: Option<T>) -> Option<T::V> {
    match o {
        Some(t) => Some(t@),
        None => None,
    }
}

/// View of a sequence of exec values as a sequence of mathematical values.
pub open spec fn view_seq<T: View>(s: Seq<T>) -> Seq<T::V> {
    s.map_values(|t: T| t@)
}

/// View of an optional vector of exec values.
pub open spec fn view_opt_seq<T: View>(o: Option<Vec<T>>) -> Option<Seq<T::V>> {
    match o {
        Some(v) => Some(view_seq(v@)),
        None => None,
    }
}

/// View of a sequence of string pairs (annotations, labels).
pub open spec fn view_pairs(s: Seq<(String, String)>) -> Seq<(Seq<char>, Seq<char>)> {
    s.map_values(|p: (String, String)| (p.0@, p.1@))
}

/// View of an optional vector of string pairs.
pub open spec fn view_opt_pairs(o: Option<Vec<(String, String)>>) -> Option<
    Seq<(Seq<char>, Seq<char>)>,
> {
    match o {
        Some(v) => Some(view_pairs(v@)),
        None => None,
    }
}

/// View of an optional port number.
pub open spec fn view_opt_i32(o: Option<i32>) -> Option<int> {
    match o {
        Some(p) => Some(p as int),
        None => None,
    }
}

#[verifier::ext_equal]
pub struct MetadataView {
    pub name: Option<Seq<char>>,
    pub namespace: Option<Seq<char>>,
    pub annotations: Option<Seq<(Seq<char>, Seq<char>)>>,
}

/// The part of an object's metadata that the engine reads.
#[derive(Debug)]
pub struct Metadata {
    pub name: Option<String>,
    pub namespace: Option<String>,
    pub annotations: Option<Vec<(String, String)>>,
}

impl View for Metadata {
    type V = MetadataView;

    open spec fn view(&self) -> MetadataView {
        MetadataView {
            name: view_opt(self.name),
            namespace: view_opt(self.namespace),
            annotations: view_opt_pairs(self.annotations),
        }
    }
}

/// Clones an optional string, preserving the view.
pub fn clone_opt_string(o: &Option<String>) -> (r: Option<String>)
    ensures
        view_opt(r) == view_opt(*o),
{
    match o {
        Some(s) => Some(s.clone()),
        None => None,
    }
}

/// Clones a vector of strings, preserving the view.
pub fn clone_strings(v: &Vec<String>) -> (r: Vec<String>)
    ensures
        view_seq(r@) == view_seq(v@),
{
    let mut r: Vec<String> = Vec::new();
    let mut i: usize = 0;
    while i < v.len()
        invariant
            i <= v.len(),
            r@.len() == i,
            forall|j: int| 0 <= j < i ==> r@[j]@ == v@[j]@,
        decreases v.len() - i,
    {
        r.push(v[i].clone());
        i += 1;
    }
    proof {
        assert(view_seq(r@) =~= view_seq(v@));
    }
    r
}

/// Clones an optional vector of strings, preserving the view.
pub fn clone_opt_strings(o: &Option<Vec<String>>) -> (r: Option<Vec<String>>)
    ensures
        view_opt_seq(r) == view_opt_seq(*o),
{
    match o {
        Some(v) => Some(clone_strings(v)),
        None => None,
    }
}

/// Clones a vector of string pairs, preserving the view.
pub fn clone_pairs(v: &Vec<(String, String)>) -> (r: Vec<(String, String)>)
    ensures
        view_pairs(r@) == view_pairs(v@),
{
    let mut r: Vec<(String, String)> = Vec::new();
    let mut i: usize = 0;
    while i < v.len()
        invariant
            i <= v.len(),
            r@.len() == i,
            forall|j: int| 0 <= j < i ==> r@[j].0@ == v@[j].0@ && r@[j].1@ == v@[j].1@,
        decreases v.len() - i,
    {
        let p = &v[i];
        r.push((p.0.clone(), p.1.clone()));
        i += 1;
    }
    proof {
        assert(view_pairs(r@) =~= view_pairs(v@));
    }
    r
}

/// Clones an optional vector of string pairs, preserving the view.
pub fn clone_opt_pairs(o: &Option<Vec<(String, String)>>) -> (r: Option<Vec<(String, String)>>)
    ensures
        view_opt_pairs(r) == view_opt_pairs(*o),
{
    match o {
        Some(v) => Some(clone_pairs(v)),
        None => None,
    }
}

impl Clone for Metadata {
    fn clone(&self) -> (r: Self)
        ensures
            r@ == self@,
    {
        Metadata {
            name: clone_opt_string(&self.name),
            namespace: clone_opt_string(&self.namespace),
            annotations: clone_opt_pairs(&self.annotations),
        }
    }
}

} // verus!

verus! {

// ---------------------------------------------------------------------------
// Ingress
// ---------------------------------------------------------------------------

#[verifier::ext_equal]
pub struct IngressTlsView {
    pub hosts: Option<Seq<Seq<char>>>,
    pub secret_name: Option<Seq<char>>,
}

/// One TLS entry of an Ingress.
#[derive(Debug)]
pub struct IngressTls {
    pub hosts: Option<Vec<String>>,
    pub secret_name: Option<String>,
}

impl View for IngressTls {
    type V = IngressTlsView;

    open spec fn view(&self) -> IngressTlsView {
        IngressTlsView {
            hosts: view_opt_seq(self.hosts),
            secret_name: view_opt(self.secret_name),
        }
    }
}

impl Clone for IngressTls {
    fn clone(&self) -> (r: Self)
        ensures
            r@ == self@,
    {
        IngressTls {
            hosts: clone_opt_strings(&self.hosts),
            secret_name: clone_opt_string(&self.secret_name),
        }
    }
}

#[verifier::ext_equal]
pub struct IngressRuleView {
    pub host: Option<Seq<char>>,
}

/// One routing rule of an Ingress; only the host matters to the policy.
#[derive(Debug)]
pub struct IngressRule {
    pub host: Option<String>,
}

impl View for IngressRule {
    type V = IngressRuleView;

    open spec fn view(&self) -> IngressRuleView {
        IngressRuleView { host: view_opt(self.host) }
    }
}

impl Clone for IngressRule {
    fn clone(&self) -> (r: Self)
        ensures
            r@ == self@,
    {
        IngressRule { host: clone_opt_string(&self.host) }
    }
}

#[verifier::ext_equal]
pub struct IngressSpecView {
    pub ingress_class_name: Option<Seq<char>>,
    pub rules: Option<Seq<IngressRuleView>>,
    pub tls: Option<Seq<IngressTlsView>>,
}

/// The Ingress spec fields the engine reads and repairs.
#[derive(Debug)]
pub struct IngressSpec {
    pub ingress_class_name: Option<String>,
    pub rules: Option<Vec<IngressRule>>,
    pub tls: Option<Vec<IngressTls>>,
}

impl View for IngressSpec {
    type V = IngressSpecView;

    open spec fn view(&self) -> IngressSpecView {
        IngressSpecView {
            ingress_class_name: view_opt(self.ingress_class_name),
            rules: view_opt_seq(self.rules),
            tls: view_opt_seq(self.tls),
        }
    }
}

/// Clones a vector of Ingress rules, preserving the view.
fn clone_ingress_rules(v: &Vec<IngressRule>) -> (r: Vec<IngressRule>)
    ensures
        view_seq(r@) == view_seq(v@),
{
    let mut r: Vec<IngressRule> = Vec::new();
    let mut i: usize = 0;
    while i < v.len()
        invariant
            i <= v.len(),
            r@.len() == i,
            forall|j: int| 0 <= j < i ==> r@[j]@ == v@[j]@,
        decreases v.len() - i,
    {
        r.push(v[i].clone());
        i += 1;
    }
    proof {
        assert(view_seq(r@) =~= view_seq(v@));
    }
    r
}

/// Clones a vector of Ingress TLS entries, preserving the view.
fn clone_ingress_tls(v: &Vec<IngressTls>) -> (r: Vec<IngressTls>)
    ensures
        view_seq(r@) == view_seq(v@),
{
    let mut r: Vec<IngressTls> = Vec::new();
    let mut i: usize = 0;
    while i < v.len()
        invariant
            i <= v.len(),
            r@.len() == i,
            forall|j: int| 0 <= j < i ==> r@[j]@ == v@[j]@,
        decreases v.len() - i,
    {
        r.push(v[i].clone());
        i += 1;
    }
    proof {
        assert(view_seq(r@) =~= view_seq(v@));
    }
    r
}

impl Clone for IngressSpec {
    fn clone(&self) -> (r: Self)
        ensures
            r@ == self@,
    {
        IngressSpec {
            ingress_class_name: clone_opt_string(&self.ingress_class_name),
            rules: match &self.rules {
                Some(v) => Some(clone_ingress_rules(v)),
                None => None,
            },
            tls: match &self.tls {
                Some(v) => Some(clone_ingress_tls(v)),
                None => None,
            },
        }
    }
}

#[verifier::ext_equal]
pub struct IngressView {
    pub metadata: MetadataView,
    pub spec: Option<IngressSpecView>,
}

/// The model of a Kubernetes Ingress under admission.
#[derive(Debug)]
pub struct Ingress {
    pub metadata: Metadata,
    pub spec: Option<IngressSpec>,
}

impl View for Ingress {
    type V = IngressView;

    open spec fn view(&self) -> IngressView {
        IngressView {
            metadata: self.metadata@,
            spec: match self.spec {
                Some(s) => Some(s@),
                None => None,
            },
        }
    }
}

impl Clone for Ingress {
    fn clone(&self) -> (r: Self)
        ensures
            r@ == self@,
    {
        Ingress {
            metadata: self.metadata.clone(),
            spec: match &self.spec {
                Some(s) => Some(s.clone()),
                None => None,
            },
        }
    }
}

} // verus!

verus! {

// ---------------------------------------------------------------------------
// Gateway
// ---------------------------------------------------------------------------

/// TLS mode of a Gateway listener.
#[derive(Clone, Copy, PartialEq, Eq, Structural, Debug)]
pub enum TlsMode {
    Terminate,
    Passthrough,
}

/// Which namespaces a listener accepts routes from.
#[derive(Clone, Copy, PartialEq, Eq, Structural, Debug)]
pub enum NamespacesFrom {
    All,
    Selector,
    Same,
}

#[verifier::ext_equal]
pub struct CertificateRefView {
    pub name: Seq<char>,
    pub namespace: Option<Seq<char>>,
}

/// A reference from a listener's TLS block to a certificate secret.
#[derive(Debug)]
pub struct CertificateRef {
    pub name: String,
    pub namespace: Option<String>,
}

impl View for CertificateRef {
    type V = CertificateRefView;

    open spec fn view(&self) -> CertificateRefView {
        CertificateRefView { name: self.name@, namespace: view_opt(self.namespace) }
    }
}

impl Clone for CertificateRef {
    fn clone(&self) -> (r: Self)
        ensures
            r@ == self@,
    {
        CertificateRef { name: self.name.clone(), namespace: clone_opt_string(&self.namespace) }
    }
}

#[verifier::ext_equal]
pub struct ListenerTlsView {
    pub mode: Option<TlsMode>,
    pub certificate_refs: Option<Seq<CertificateRefView>>,
}

/// The TLS block of a Gateway listener.
#[derive(Debug)]
pub struct ListenerTls {
    pub mode: Option<TlsMode>,
    pub certificate_refs: Option<Vec<CertificateRef>>,
}

impl View for ListenerTls {
    type V = ListenerTlsView;

    open spec fn view(&self) -> ListenerTlsView {
        ListenerTlsView {
            mode: self.mode,
            certificate_refs: view_opt_seq(self.certificate_refs),
        }
    }
}

/// Clones a vector of certificate references, preserving the view.
fn clone_cert_refs(v: &Vec<CertificateRef>) -> (r: Vec<CertificateRef>)
    ensures
        view_seq(r@) == view_seq(v@),
{
    let mut r: Vec<CertificateRef> = Vec::new();
    let mut i: usize = 0;
    while i < v.len()
        invariant
            i <= v.len(),
            r@.len() == i,
            forall|j: int| 0 <= j < i ==> r@[j]@ == v@[j]@,
        decreases v.len() - i,
    {
        r.push(v[i].clone());
        i += 1;
    }
    proof {
        assert(view_seq(r@) =~= view_seq(v@));
    }
    r
}

impl Clone for ListenerTls {
    fn clone(&self) -> (r: Self)
        ensures
            r@ == self@,
    {
        ListenerTls {
            mode: self.mode,
            certificate_refs: match &self.certificate_refs {
                Some(v) => Some(clone_cert_refs(v)),
                None => None,
            },
        }
    }
}

#[verifier::ext_equal]
pub struct MatchExpressionView {
    pub key: Seq<char>,
    pub operator: Seq<char>,
    pub values: Option<Seq<Seq<char>>>,
}

/// One `matchExpressions` entry of a label selector.
#[derive(Debug)]
pub struct MatchExpression {
    pub key: String,
    pub operator: String,
    pub values: Option<Vec<String>>,
}

impl View for MatchExpression {
    type V = MatchExpressionView;

    open spec fn view(&self) -> MatchExpressionView {
        MatchExpressionView {
            key: self.key@,
            operator: self.operator@,
            values: view_opt_seq(self.values),
        }
    }
}

impl Clone for MatchExpression {
    fn clone(&self) -> (r: Self)
        ensures
            r@ == self@,
    {
        MatchExpression {
            key: self.key.clone(),
            operator: self.operator.clone(),
            values: clone_opt_strings(&self.values),
        }
    }
}

#[verifier::ext_equal]
pub struct LabelSelectorView {
    pub match_labels: Option<Seq<(Seq<char>, Seq<char>)>>,
    pub match_expressions: Option<Seq<MatchExpressionView>>,
}

/// A Kubernetes label selector, as used by a listener's `allowedRoutes`.
#[derive(Debug)]
pub struct LabelSelector {
    pub match_labels: Option<Vec<(String, String)>>,
    pub match_expressions: Option<Vec<MatchExpression>>,
}

impl View for LabelSelector {
    type V = LabelSelectorView;

    open spec fn view(&self) -> LabelSelectorView {
        LabelSelectorView {
            match_labels: view_opt_pairs(self.match_labels),
            match_expressions: view_opt_seq(self.match_expressions),
        }
    }
}

/// Clones a vector of match expressions, preserving the view.
fn clone_match_expressions(v: &Vec<MatchExpression>) -> (r: Vec<MatchExpression>)
    ensures
        view_seq(r@) == view_seq(v@),
{
    let mut r: Vec<MatchExpression> = Vec::new();
    let mut i: usize = 0;
    while i < v.len()
        invariant
            i <= v.len(),
            r@.len() == i,
            forall|j: int| 0 <= j < i ==> r@[j]@ == v@[j]@,
        decreases v.len() - i,
    {
        r.push(v[i].clone());
        i += 1;
    }
    proof {
        assert(view_seq(r@) =~= view_seq(v@));
    }
    r
}

impl Clone for LabelSelector {
    fn clone(&self) -> (r: Self)
        ensures
            r@ == self@,
    {
        LabelSelector {
            match_labels: clone_opt_pairs(&self.match_labels),
            match_expressions: match &self.match_expressions {
                Some(v) => Some(clone_match_expressions(v)),
                None => None,
            },
        }
    }
}

#[verifier::ext_equal]
pub struct RouteNamespacesView {
    pub from: Option<NamespacesFrom>,
    pub selector: Option<LabelSelectorView>,
}

/// The `allowedRoutes.namespaces` block of a listener.
#[derive(Debug)]
pub struct RouteNamespaces {
    pub from: Option<NamespacesFrom>,
    pub selector: Option<LabelSelector>,
}

impl View for RouteNamespaces {
    type V = RouteNamespacesView;

    open spec fn view(&self) -> RouteNamespacesView {
        RouteNamespacesView {
            from: self.from,
            selector: match self.selector {
                Some(s) => Some(s@),
                None => None,
            },
        }
    }
}

impl Clone for RouteNamespaces {
    fn clone(&self) -> (r: Self)
        ensures
            r@ == self@,
    {
        RouteNamespaces {
            from: self.from,
            selector: match &self.selector {
                Some(s) => Some(s.clone()),
                None => None,
            },
        }
    }
}

#[verifier::ext_equal]
pub struct AllowedRoutesView {
    pub namespaces: Option<RouteNamespacesView>,
}

/// The `allowedRoutes` block of a listener.
#[derive(Debug)]
pub struct AllowedRoutes {
    pub namespaces: Option<RouteNamespaces>,
}

impl View for AllowedRoutes {
    type V = AllowedRoutesView;

    open spec fn view(&self) -> AllowedRoutesView {
        AllowedRoutesView {
            namespaces: match self.namespaces {
                Some(n) => Some(n@),
                None => None,
            },
        }
    }
}

impl Clone for AllowedRoutes {
    fn clone(&self) -> (r: Self)
        ensures
            r@ == self@,
    {
        AllowedRoutes {
            namespaces: match &self.namespaces {
                Some(n) => Some(n.clone()),
                None => None,
            },
        }
    }
}

#[verifier::ext_equal]
pub struct ListenerView {
    pub name: Seq<char>,
    pub port: int,
    pub protocol: Seq<char>,
    pub hostname: Option<Seq<char>>,
    pub tls: Option<ListenerTlsView>,
    pub allowed_routes: Option<AllowedRoutesView>,
}

/// One listener of a Gateway.
#[derive(Debug)]
pub struct Listener {
    pub name: String,
    pub port: i32,
    pub protocol: String,
    pub hostname: Option<String>,
    pub tls: Option<ListenerTls>,
    pub allowed_routes: Option<AllowedRoutes>,
}

impl View for Listener {
    type V = ListenerView;

    open spec fn view(&self) -> ListenerView {
        ListenerView {
            name: self.name@,
            port: self.port as int,
            protocol: self.protocol@,
            hostname: view_opt(self.hostname),
            tls: match self.tls {
                Some(t) => Some(t@),
                None => None,
            },
            allowed_routes: match self.allowed_routes {
                Some(a) => Some(a@),
                None => None,
            },
        }
    }
}

impl Clone for Listener {
    fn clone(&self) -> (r: Self)
        ensures
            r@ == self@,
    {
        Listener {
            name: self.name.clone(),
            port: self.port,
            protocol: self.protocol.clone(),
            hostname: clone_opt_string(&self.hostname),
            tls: match &self.tls {
                Some(t) => Some(t.clone()),
                None => None,
            },
            allowed_routes: match &self.allowed_routes {
                Some(a) => Some(a.clone()),
                None => None,
            },
        }
    }
}

/// Clones a vector of listeners, preserving the view.
pub fn clone_listeners(v: &Vec<Listener>) -> (r: Vec<Listener>)
    ensures
        view_seq(r@) == view_seq(v@),
{
    let mut r: Vec<Listener> = Vec::new();
    let mut i: usize = 0;
    while i < v.len()
        invariant
            i <= v.len(),
            r@.len() == i,
            forall|j: int| 0 <= j < i ==> r@[j]@ == v@[j]@,
        decreases v.len() - i,
    {
        r.push(v[i].clone());
        i += 1;
    }
    proof {
        assert(view_seq(r@) =~= view_seq(v@));
    }
    r
}

#[verifier::ext_equal]
pub struct GatewaySpecView {
    pub gateway_class_name: Seq<char>,
    pub listeners: Seq<ListenerView>,
}

/// The Gateway spec fields the engine reads and repairs.
#[derive(Debug)]
pub struct GatewaySpec {
    pub gateway_class_name: String,
    pub listeners: Vec<Listener>,
}

impl View for GatewaySpec {
    type V = GatewaySpecView;

    open spec fn view(&self) -> GatewaySpecView {
        GatewaySpecView {
            gateway_class_name: self.gateway_class_name@,
            listeners: view_seq(self.listeners@),
        }
    }
}

impl Clone for GatewaySpec {
    fn clone(&self) -> (r: Self)
        ensures
            r@ == self@,
    {
        GatewaySpec {
            gateway_class_name: self.gateway_class_name.clone(),
            listeners: clone_listeners(&self.listeners),
        }
    }
}

#[verifier::ext_equal]
pub struct GatewayView {
    pub metadata: MetadataView,
    pub spec: GatewaySpecView,
}

/// The model of a Kubernetes Gateway under admission.
#[derive(Debug)]
pub struct Gateway {
    pub metadata: Metadata,
    pub spec: GatewaySpec,
}

impl View for Gateway {
    type V = GatewayView;

    open spec fn view(&self) -> GatewayView {
        GatewayView { metadata: self.metadata@, spec: self.spec@ }
    }
}

impl Clone for Gateway {
    fn clone(&self) -> (r: Self)
        ensures
            r@ == self@,
    {
        Gateway { metadata: self.metadata.clone(), spec: self.spec.clone() }
    }
}

} // verus!

verus! {

// ---------------------------------------------------------------------------
// HTTPRoute
// ---------------------------------------------------------------------------

/// How a path match interprets its value.
#[derive(Clone, Copy, PartialEq, Eq, Structural, Debug)]
pub enum PathMatchType {
    Exact,
    PathPrefix,
    RegularExpression,
}

/// The kind of an HTTPRoute rule filter.
#[derive(Clone, Copy, PartialEq, Eq, Structural, Debug)]
pub enum FilterType {
    RequestHeaderModifier,
    ResponseHeaderModifier,
    RequestMirror,
    RequestRedirect,
    UrlRewrite,
    ExtensionRef,
    Cors,
}

/// The scheme of a request-redirect filter.
#[derive(Clone, Copy, PartialEq, Eq, Structural, Debug)]
pub enum RedirectScheme {
    Http,
    Https,
}

#[verifier::ext_equal]
pub struct PathMatchView {
    pub path_type: Option<PathMatchType>,
    pub value: Option<Seq<char>>,
}

/// A path match inside an HTTPRoute rule match.
#[derive(Debug)]
pub struct PathMatch {
    pub path_type: Option<PathMatchType>,
    pub value: Option<String>,
}

impl View for PathMatch {
    type V = PathMatchView;

    open spec fn view(&self) -> PathMatchView {
        PathMatchView { path_type: self.path_type, value: view_opt(self.value) }
    }
}

impl Clone for PathMatch {
    fn clone(&self) -> (r: Self)
        ensures
            r@ == self@,
    {
        PathMatch { path_type: self.path_type, value: clone_opt_string(&self.value) }
    }
}

#[verifier::ext_equal]
pub struct RouteMatchView {
    pub path: Option<PathMatchView>,
}

/// One match of an HTTPRoute rule; only the path part is modelled.
#[derive(Debug)]
pub struct RouteMatch {
    pub path: Option<PathMatch>,
}

impl View for RouteMatch {
    type V = RouteMatchView;

    open spec fn view(&self) -> RouteMatchView {
        RouteMatchView {
            path: match self.path {
                Some(p) => Some(p@),
                None => None,
            },
        }
    }
}

impl Clone for RouteMatch {
    fn clone(&self) -> (r: Self)
        ensures
            r@ == self@,
    {
        RouteMatch {
            path: match &self.path {
                Some(p) => Some(p.clone()),
                None => None,
            },
        }
    }
}

#[verifier::ext_equal]
pub struct RequestRedirectView {
    pub scheme: Option<RedirectScheme>,
    pub status_code: Option<int>,
    pub hostname: Option<Seq<char>>,
    pub port: Option<int>,
}

/// The request-redirect payload of a filter.
#[derive(Debug)]
pub struct RequestRedirect {
    pub scheme: Option<RedirectScheme>,
    pub status_code: Option<i64>,
    pub hostname: Option<String>,
    pub port: Option<i32>,
}

impl View for RequestRedirect {
    type V = RequestRedirectView;

    open spec fn view(&self) -> RequestRedirectView {
        RequestRedirectView {
            scheme: self.scheme,
            status_code: match self.status_code {
                Some(c) => Some(c as int),
                None => None,
            },
            hostname: view_opt(self.hostname),
            port: view_opt_i32(self.port),
        }
    }
}

impl Clone for RequestRedirect {
    fn clone(&self) -> (r: Self)
        ensures
            r@ == self@,
    {
        RequestRedirect {
            scheme: self.scheme,
            status_code: self.status_code,
            hostname: clone_opt_string(&self.hostname),
            port: self.port,
        }
    }
}

#[verifier::ext_equal]
pub struct RouteFilterView {
    pub filter_type: FilterType,
    pub request_redirect: Option<RequestRedirectView>,
}

/// One filter of an HTTPRoute rule.
#[derive(Debug)]
pub struct RouteFilter {
    pub filter_type: FilterType,
    pub request_redirect: Option<RequestRedirect>,
}

impl View for RouteFilter {
    type V = RouteFilterView;

    open spec fn view(&self) -> RouteFilterView {
        RouteFilterView {
            filter_type: self.filter_type,
            request_redirect: match self.request_redirect {
                Some(rr) => Some(rr@),
                None => None,
            },
        }
    }
}

impl Clone for RouteFilter {
    fn clone(&self) -> (r: Self)
        ensures
            r@ == self@,
    {
        RouteFilter {
            filter_type: self.filter_type,
            request_redirect: match &self.request_redirect {
                Some(rr) => Some(rr.clone()),
                None => None,
            },
        }
    }
}

#[verifier::ext_equal]
pub struct BackendRefView {
    pub name: Seq<char>,
    pub namespace: Option<Seq<char>>,
    pub port: Option<int>,
}

/// A backend reference of an HTTPRoute rule.
#[derive(Debug)]
pub struct BackendRef {
    pub name: String,
    pub namespace: Option<String>,
    pub port: Option<i32>,
}

impl View for BackendRef {
    type V = BackendRefView;

    open spec fn view(&self) -> BackendRefView {
        BackendRefView {
            name: self.name@,
            namespace: view_opt(self.namespace),
            port: view_opt_i32(self.port),
        }
    }
}

impl Clone for BackendRef {
    fn clone(&self) -> (r: Self)
        ensures
            r@ == self@,
    {
        BackendRef {
            name: self.name.clone(),
            namespace: clone_opt_string(&self.namespace),
            port: self.port,
        }
    }
}

#[verifier::ext_equal]
pub struct RouteRuleView {
    pub matches: Option<Seq<RouteMatchView>>,
    pub filters: Option<Seq<RouteFilterView>>,
    pub backend_refs: Option<Seq<BackendRefView>>,
}

/// One rule of an HTTPRoute.
#[derive(Debug)]
pub struct RouteRule {
    pub matches: Option<Vec<RouteMatch>>,
    pub filters: Option<Vec<RouteFilter>>,
    pub backend_refs: Option<Vec<BackendRef>>,
}

impl View for RouteRule {
    type V = RouteRuleView;

    open spec fn view(&self) -> RouteRuleView {
        RouteRuleView {
            matches: view_opt_seq(self.matches),
            filters: view_opt_seq(self.filters),
            backend_refs: view_opt_seq(self.backend_refs),
        }
    }
}

/// Clones a vector of route matches, preserving the view.
fn clone_route_matches(v: &Vec<RouteMatch>) -> (r: Vec<RouteMatch>)
    ensures
        view_seq(r@) == view_seq(v@),
{
    let mut r: Vec<RouteMatch> = Vec::new();
    let mut i: usize = 0;
    while i < v.len()
        invariant
            i <= v.len(),
            r@.len() == i,
            forall|j: int| 0 <= j < i ==> r@[j]@ == v@[j]@,
        decreases v.len() - i,
    {
        r.push(v[i].clone());
        i += 1;
    }
    proof {
        assert(view_seq(r@) =~= view_seq(v@));
    }
    r
}

/// Clones a vector of route filters, preserving the view.
fn clone_route_filters(v: &Vec<RouteFilter>) -> (r: Vec<RouteFilter>)
    ensures
        view_seq(r@) == view_seq(v@),
{
    let mut r: Vec<RouteFilter> = Vec::new();
    let mut i: usize = 0;
    while i < v.len()
        invariant
            i <= v.len(),
            r@.len() == i,
            forall|j: int| 0 <= j < i ==> r@[j]@ == v@[j]@,
        decreases v.len() - i,
    {
        r.push(v[i].clone());
        i += 1;
    }
    proof {
        assert(view_seq(r@) =~= view_seq(v@));
    }
    r
}

/// Clones a vector of backend references, preserving the view.
fn clone_backend_refs(v: &Vec<BackendRef>) -> (r: Vec<BackendRef>)
    ensures
        view_seq(r@) == view_seq(v@),
{
    let mut r: Vec<BackendRef> = Vec::new();
    let mut i: usize = 0;
    while i < v.len()
        invariant
            i <= v.len(),
            r@.len() == i,
            forall|j: int| 0 <= j < i ==> r@[j]@ == v@[j]@,
        decreases v.len() - i,
    {
        r.push(v[i].clone());
        i += 1;
    }
    proof {
        assert(view_seq(r@) =~= view_seq(v@));
    }
    r
}

impl Clone for RouteRule {
    fn clone(&self) -> (r: Self)
        ensures
            r@ == self@,
    {
        RouteRule {
            matches: match &self.matches {
                Some(v) => Some(clone_route_matches(v)),
                None => None,
            },
            filters: match &self.filters {
                Some(v) => Some(clone_route_filters(v)),
                None => None,
            },
            backend_refs: match &self.backend_refs {
                Some(v) => Some(clone_backend_refs(v)),
                None => None,
            },
        }
    }
}

#[verifier::ext_equal]
pub struct ParentRefView {
    pub kind: Option<Seq<char>>,
    pub name: Seq<char>,
    pub namespace: Option<Seq<char>>,
    pub section_name: Option<Seq<char>>,
    pub port: Option<int>,
}

/// An HTTPRoute's reference to a parent Gateway (and optionally a listener).
#[derive(Debug)]
pub struct ParentRef {
    pub kind: Option<String>,
    pub name: String,
    pub namespace: Option<String>,
    pub section_name: Option<String>,
    pub port: Option<i32>,
}

impl View for ParentRef {
    type V = ParentRefView;

    open spec fn view(&self) -> ParentRefView {
        ParentRefView {
            kind: view_opt(self.kind),
            name: self.name@,
            namespace: view_opt(self.namespace),
            section_name: view_opt(self.section_name),
            port: view_opt_i32(self.port),
        }
    }
}

impl Clone for ParentRef {
    fn clone(&self) -> (r: Self)
        ensures
            r@ == self@,
    {
        ParentRef {
            kind: clone_opt_string(&self.kind),
            name: self.name.clone(),
            namespace: clone_opt_string(&self.namespace),
            section_name: clone_opt_string(&self.section_name),
            port: self.port,
        }
    }
}

/// Clones a vector of parent references, preserving the view.
pub fn clone_parent_refs(v: &Vec<ParentRef>) -> (r: Vec<ParentRef>)
    ensures
        view_seq(r@) == view_seq(v@),
{
    let mut r: Vec<ParentRef> = Vec::new();
    let mut i: usize = 0;
    while i < v.len()
        invariant
            i <= v.len(),
            r@.len() == i,
            forall|j: int| 0 <= j < i ==> r@[j]@ == v@[j]@,
        decreases v.len() - i,
    {
        r.push(v[i].clone());
        i += 1;
    }
    proof {
        assert(view_seq(r@) =~= view_seq(v@));
    }
    r
}

#[verifier::ext_equal]
pub struct HttpRouteSpecView {
    pub parent_refs: Option<Seq<ParentRefView>>,
    pub hostnames: Option<Seq<Seq<char>>>,
    pub rules: Option<Seq<RouteRuleView>>,
}

/// The HTTPRoute spec fields the engine reads and repairs.
#[derive(Debug)]
pub struct HttpRouteSpec {
    pub parent_refs: Option<Vec<ParentRef>>,
    pub hostnames: Option<Vec<String>>,
    pub rules: Option<Vec<RouteRule>>,
}

impl View for HttpRouteSpec {
    type V = HttpRouteSpecView;

    open spec fn view(&self) -> HttpRouteSpecView {
        HttpRouteSpecView {
            parent_refs: view_opt_seq(self.parent_refs),
            hostnames: view_opt_seq(self.hostnames),
            rules: view_opt_seq(self.rules),
        }
    }
}

/// Clones a vector of route rules, preserving the view.
fn clone_route_rules(v: &Vec<RouteRule>) -> (r: Vec<RouteRule>)
    ensures
        view_seq(r@) == view_seq(v@),
{
    let mut r: Vec<RouteRule> = Vec::new();
    let mut i: usize = 0;
    while i < v.len()
        invariant
            i <= v.len(),
            r@.len() == i,
            forall|j: int| 0 <= j < i ==> r@[j]@ == v@[j]@,
        decreases v.len() - i,
    {
        r.push(v[i].clone());
        i += 1;
    }
    proof {
        assert(view_seq(r@) =~= view_seq(v@));
    }
    r
}

impl Clone for HttpRouteSpec {
    fn clone(&self) -> (r: Self)
        ensures
            r@ == self@,
    {
        HttpRouteSpec {
            parent_refs: match &self.parent_refs {
                Some(v) => Some(clone_parent_refs(v)),
                None => None,
            },
            hostnames: clone_opt_strings(&self.hostnames),
            rules: match &self.rules {
                Some(v) => Some(clone_route_rules(v)),
                None => None,
            },
        }
    }
}

#[verifier::ext_equal]
pub struct HttpRouteView {
    pub metadata: MetadataView,
    pub spec: HttpRouteSpecView,
}

/// The model of a Kubernetes HTTPRoute under admission.
#[derive(Debug)]
pub struct HttpRoute {
    pub metadata: Metadata,
    pub spec: HttpRouteSpec,
}

impl View for HttpRoute {
    type V = HttpRouteView;

    open spec fn view(&self) -> HttpRouteView {
        HttpRouteView { metadata: self.metadata@, spec: self.spec@ }
    }
}

impl Clone for HttpRoute {
    fn clone(&self) -> (r: Self)
        ensures
            r@ == self@,
    {
        HttpRoute { metadata: self.metadata.clone(), spec: self.spec.clone() }
    }
}

// ---------------------------------------------------------------------------
// Cluster snapshot
// ---------------------------------------------------------------------------

#[verifier::ext_equal]
pub struct NamespaceInfoView {
    pub name: Seq<char>,
    pub labels: Seq<(Seq<char>, Seq<char>)>,
}

/// A namespace's name and labels, as needed for selector evaluation.
#[derive(Debug)]
pub struct NamespaceInfo {
    pub name: String,
    pub labels: Vec<(String, String)>,
}

impl View for NamespaceInfo {
    type V = NamespaceInfoView;

    open spec fn view(&self) -> NamespaceInfoView {
        NamespaceInfoView { name: self.name@, labels: view_pairs(self.labels@) }
    }
}

impl Clone for NamespaceInfo {
    fn clone(&self) -> (r: Self)
        ensures
            r@ == self@,
    {
        NamespaceInfo { name: self.name.clone(), labels: clone_pairs(&self.labels) }
    }
}

#[verifier::ext_equal]
pub struct ClusterView {
    pub namespaces: Seq<NamespaceInfoView>,
    pub gateways: Seq<GatewayView>,
    pub httproutes: Seq<HttpRouteView>,
}

/// A read-only snapshot of the cluster state an admission call consults.
///
/// The transport layer lists namespaces, gateways and HTTPRoutes once per
/// request and hands them to the engine, which then decides purely.
#[derive(Debug)]
pub struct Cluster {
    pub namespaces: Vec<NamespaceInfo>,
    pub gateways: Vec<Gateway>,
    pub httproutes: Vec<HttpRoute>,
}

impl View for Cluster {
    type V = ClusterView;

    open spec fn view(&self) -> ClusterView {
        ClusterView {
            namespaces: view_seq(self.namespaces@),
            gateways: view_seq(self.gateways@),
            httproutes: view_seq(self.httproutes@),
        }
    }
}

} // verus!
