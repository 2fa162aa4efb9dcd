//! Admission outcomes: the decision type, structured deny reasons, and the
//! control-flow convention of the check pipelines.

use vstd::prelude::*;

use crate::objects::{
    view_seq, Gateway, GatewayView, HttpRoute, HttpRouteView, Listener, ListenerView, ParentRef,
    ParentRefView,
};

verus! {

/// A partition of a list by a predicate.
#[derive(Debug)]
pub struct Parted<T> {
    pub good: T,
    pub bad: T,
}

impl<T> Parted<T> {
    /// A partition of references to the two halves.
    pub fn as_ref(&self) -> (r: Parted<&T>)
        ensures
            r.good == &self.good,
            r.bad == &self.bad,
    {
        Parted { good: &self.good, bad: &self.bad }
    }
}

/// A Gateway together with the indices of the listeners of interest in it.
///
/// Carrying indices rather than references keeps the pair self-contained.
#[derive(Debug)]
pub struct GatewayListenerPair {
    pub gateway: Gateway,
    pub listeners: Vec<usize>,
}

#[verifier::ext_equal]
pub struct GatewayListenerPairView {
    pub gateway: GatewayView,
    pub listeners: Seq<int>,
}

impl View for GatewayListenerPair {
    type V = GatewayListenerPairView;

    open spec fn view(&self) -> GatewayListenerPairView {
        GatewayListenerPairView {
            gateway: self.gateway@,
            listeners: self.listeners@.map_values(|i: usize| i as int),
        }
    }
}

/// View of a list of listeners paired with partitioned route lists.
pub open spec fn view_listener_parted(s: Seq<(Listener, Parted<Vec<HttpRoute>>)>) -> Seq<
    (ListenerView, Parted<Seq<HttpRouteView>>),
> {
    s.map_values(
        |p: (Listener, Parted<Vec<HttpRoute>>)|
            (p.0@, Parted { good: view_seq(p.1.good@), bad: view_seq(p.1.bad@) }),
    )
}

/// View of a list of parent references paired with gateway-listener pairs.
pub open spec fn view_ref_pairs(s: Seq<(ParentRef, GatewayListenerPair)>) -> Seq<
    (ParentRefView, GatewayListenerPairView),
> {
    s.map_values(|p: (ParentRef, GatewayListenerPair)| (p.0@, p.1@))
}

/// Why an object was denied; payloads carry what a mutator needs.
#[derive(Debug)]
pub enum DenyReason {
    InternalError(String),
    IngressNoTLS,
    GatewayNoTLSListener,
    GatewayNonRedirectHTTPRouteAttachedToHTTPListener(Vec<(Listener, Parted<Vec<HttpRoute>>)>),
    HTTPRouteNonRedirectAttachedToHTTPListener(Vec<(ParentRef, GatewayListenerPair)>),
    CannotInferenceMutation,
}

#[verifier::ext_equal]
pub enum DenyReasonView {
    InternalError(Seq<char>),
    IngressNoTLS,
    GatewayNoTLSListener,
    GatewayNonRedirectHTTPRouteAttachedToHTTPListener(
        Seq<(ListenerView, Parted<Seq<HttpRouteView>>)>,
    ),
    HTTPRouteNonRedirectAttachedToHTTPListener(Seq<(ParentRefView, GatewayListenerPairView)>),
    CannotInferenceMutation,
}

impl View for DenyReason {
    type V = DenyReasonView;

    open spec fn view(&self) -> DenyReasonView {
        match self {
            DenyReason::InternalError(e) => DenyReasonView::InternalError(e@),
            DenyReason::IngressNoTLS => DenyReasonView::IngressNoTLS,
            DenyReason::GatewayNoTLSListener => DenyReasonView::GatewayNoTLSListener,
            DenyReason::GatewayNonRedirectHTTPRouteAttachedToHTTPListener(v) => (
            DenyReasonView::GatewayNonRedirectHTTPRouteAttachedToHTTPListener(
                view_listener_parted(v@),
            )),
            DenyReason::HTTPRouteNonRedirectAttachedToHTTPListener(v) => (
            DenyReasonView::HTTPRouteNonRedirectAttachedToHTTPListener(view_ref_pairs(v@))),
            DenyReason::CannotInferenceMutation => DenyReasonView::CannotInferenceMutation,
        }
    }
}

/// The decision an admission endpoint returns.  `MoveOn` means "no check
/// objected"; the transport layer treats it as an allow.  `Patch` carries
/// the repaired clone that a mutator computed.
#[derive(Debug)]
pub enum Status<P> {
    MoveOn,
    Allowed,
    Denied(DenyReason),
    Invalid(String),
    Patch(P),
}

#[verifier::ext_equal]
pub enum StatusView<PV> {
    MoveOn,
    Allowed,
    Denied(DenyReasonView),
    Invalid(Seq<char>),
    Patch(PV),
}

impl<P: View> View for Status<P> {
    type V = StatusView<P::V>;

    open spec fn view(&self) -> StatusView<P::V> {
        match self {
            Status::MoveOn => StatusView::MoveOn,
            Status::Allowed => StatusView::Allowed,
            Status::Denied(d) => StatusView::Denied(d@),
            Status::Invalid(m) => StatusView::Invalid(m@),
            Status::Patch(p) => StatusView::Patch(p@),
        }
    }
}

/// The result of one check of a pipeline: `None` when the check does not
/// apply, `Some(Err(_))` when consulting the cluster failed.
pub type CheckResult<P> = Option<Result<Status<P>, String>>;

/// The mathematical form of a check result.
pub type CheckResultView<PV> = Option<Result<StatusView<PV>, Seq<char>>>;

/// View of a check result.
pub open spec fn check_view<P: View>(r: CheckResult<P>) -> CheckResultView<P::V> {
    match r {
        None => None,
        Some(Ok(s)) => Some(Ok(s@)),
        Some(Err(e)) => Some(Err(e@)),
    }
}

/// Whether a pipeline accumulator lets the next check run.
pub open spec fn spec_is_continue<PV>(r: CheckResultView<PV>) -> bool {
    r is None || r == Some(Ok::<StatusView<PV>, Seq<char>>(StatusView::MoveOn))
}

/// The accumulator discipline of a check pipeline.
pub trait ControlFlow {
    spec fn spec_continue(&self) -> bool;

    /// The accumulator before any check ran.
    fn initialize_value() -> (r: Self) where Self: Sized
        ensures
            r.spec_continue(),
    ;

    /// Whether the pipeline keeps going.
    fn is_continue(&self) -> (r: bool)
        ensures
            r == self.spec_continue(),
    ;

    /// Whether the pipeline stops here.
    fn is_break(&self) -> (r: bool)
        ensures
            r == !self.spec_continue(),
    ;
}

impl<P: View> ControlFlow for CheckResult<P> {
    open spec fn spec_continue(&self) -> bool {
        spec_is_continue(check_view(*self))
    }

    fn initialize_value() -> (r: Self) {
        Some(Ok(Status::MoveOn))
    }

    fn is_continue(&self) -> (r: bool) {
        match self {
            None => true,
            Some(Ok(Status::MoveOn)) => true,
            _ => false,
        }
    }

    fn is_break(&self) -> (r: bool) {
        !self.is_continue()
    }
}

impl<P: View> Status<P> {
    /// Collapses a pipeline result into the decision the transport reports:
    /// an inapplicable pipeline is an invalid input, a failed cluster read
    /// is an internal-error denial.
    pub fn from_check(value: CheckResult<P>) -> (r: Status<P>)
        ensures
            r@ == spec_from_check(check_view(value)),
    {
        match value {
            Some(Ok(s)) => s,
            Some(Err(e)) => Status::Denied(DenyReason::InternalError(e)),
            None => Status::Invalid(
                String::from_str("Input does not contain enough information"),
            ),
        }
    }
}

/// The decision a pipeline result collapses to.
pub open spec fn spec_from_check<PV>(value: CheckResultView<PV>) -> StatusView<PV> {
    match value {
        Some(Ok(s)) => s,
        Some(Err(e)) => StatusView::Denied(DenyReasonView::InternalError(e)),
        None => StatusView::Invalid("Input does not contain enough information"@),
    }
}

} // verus!
