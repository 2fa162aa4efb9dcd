//! Label selectors: construction from a listener's `matchExpressions` and
//! `matchLabels`, evaluation against namespace labels, and the namespace
//! filter built on them.

use vstd::prelude::*;

use crate::annotations::spec_lookup;
use crate::objects::{view_pairs, view_seq, NamespaceInfo, NamespaceInfoView, MatchExpression, MatchExpressionView};
use crate::strings::{contains_string, str_eq};

verus! {

/// Which namespaces a listener accepts routes from, resolved.
#[derive(Debug)]
pub enum Namespaces {
    All,
    These(Vec<String>),
}

#[verifier::ext_equal]
pub enum NamespacesView {
    All,
    These(Seq<Seq<char>>),
}

impl View for Namespaces {
    type V = NamespacesView;

    open spec fn view(&self) -> NamespacesView {
        match self {
            Namespaces::All => NamespacesView::All,
            Namespaces::These(v) => NamespacesView::These(view_seq(v@)),
        }
    }
}

/// One label-selector requirement, in the forms Kubernetes knows.
#[derive(Debug)]
pub enum SelectorByLabel {
    Is(String, String),
    IsNot(String, String),
    In(String, Vec<String>),
    NotIn(String, Vec<String>),
    Exists(String),
    DoesNotExist(String),
}

#[verifier::ext_equal]
pub enum SelectorByLabelView {
    Is(Seq<char>, Seq<char>),
    IsNot(Seq<char>, Seq<char>),
    In(Seq<char>, Seq<Seq<char>>),
    NotIn(Seq<char>, Seq<Seq<char>>),
    Exists(Seq<char>),
    DoesNotExist(Seq<char>),
}

impl View for SelectorByLabel {
    type V = SelectorByLabelView;

    open spec fn view(&self) -> SelectorByLabelView {
        match self {
            SelectorByLabel::Is(k, v) => SelectorByLabelView::Is(k@, v@),
            SelectorByLabel::IsNot(k, v) => SelectorByLabelView::IsNot(k@, v@),
            SelectorByLabel::In(k, vs) => SelectorByLabelView::In(k@, view_seq(vs@)),
            SelectorByLabel::NotIn(k, vs) => SelectorByLabelView::NotIn(k@, view_seq(vs@)),
            SelectorByLabel::Exists(k) => SelectorByLabelView::Exists(k@),
            SelectorByLabel::DoesNotExist(k) => SelectorByLabelView::DoesNotExist(k@),
        }
    }
}

/// Whether one requirement holds of a label set, with the Kubernetes
/// semantics: `IsNot` and `NotIn` are satisfied by an absent key.
pub open spec fn spec_selector_matches(
    s: SelectorByLabelView,
    labels: Seq<(Seq<char>, Seq<char>)>,
) -> bool {
    match s {
        SelectorByLabelView::Is(k, v) => spec_lookup(labels, k) == Some(v),
        SelectorByLabelView::IsNot(k, v) => spec_lookup(labels, k) != Some(v),
        SelectorByLabelView::In(k, vs) => match spec_lookup(labels, k) {
            Some(x) => vs.contains(x),
            None => false,
        },
        SelectorByLabelView::NotIn(k, vs) => match spec_lookup(labels, k) {
            Some(x) => !vs.contains(x),
            None => true,
        },
        SelectorByLabelView::Exists(k) => spec_lookup(labels, k) is Some,
        SelectorByLabelView::DoesNotExist(k) => spec_lookup(labels, k) is None,
    }
}

impl SelectorByLabel {
    /// Evaluates this requirement against a label set.
    pub fn matches_labels(&self, labels: &Vec<(String, String)>) -> (r: bool)
        ensures
            r == spec_selector_matches(self@, view_pairs(labels@)),
    {
        match self {
            SelectorByLabel::Is(k, v) => {
                match crate::annotations::lookup_annotation(labels, k.as_str()) {
                    Some(x) => str_eq(x.as_str(), v.as_str()),
                    None => false,
                }
            },
            SelectorByLabel::IsNot(k, v) => {
                match crate::annotations::lookup_annotation(labels, k.as_str()) {
                    Some(x) => !str_eq(x.as_str(), v.as_str()),
                    None => true,
                }
            },
            SelectorByLabel::In(k, vs) => {
                match crate::annotations::lookup_annotation(labels, k.as_str()) {
                    Some(x) => contains_string(vs, x.as_str()),
                    None => false,
                }
            },
            SelectorByLabel::NotIn(k, vs) => {
                match crate::annotations::lookup_annotation(labels, k.as_str()) {
                    Some(x) => !contains_string(vs, x.as_str()),
                    None => true,
                }
            },
            SelectorByLabel::Exists(k) => {
                crate::annotations::lookup_annotation(labels, k.as_str()).is_some()
            },
            SelectorByLabel::DoesNotExist(k) => {
                crate::annotations::lookup_annotation(labels, k.as_str()).is_none()
            },
        }
    }
}

/// The requirement a `matchExpressions` entry denotes; `In` and `NotIn`
/// without values, and unknown operators, are malformed cluster data.
pub open spec fn spec_selector_of_expression(e: MatchExpressionView) -> Result<
    SelectorByLabelView,
    Seq<char>,
> {
    if e.operator == "In"@ {
        match e.values {
            Some(vs) => Ok(SelectorByLabelView::In(e.key, vs)),
            None => Err("`values` should be supplied in `In` operation"@),
        }
    } else if e.operator == "NotIn"@ {
        match e.values {
            Some(vs) => Ok(SelectorByLabelView::NotIn(e.key, vs)),
            None => Err("`values` should be supplied in `NotIn` operation"@),
        }
    } else if e.operator == "Exists"@ {
        Ok(SelectorByLabelView::Exists(e.key))
    } else if e.operator == "DoesNotExist"@ {
        Ok(SelectorByLabelView::DoesNotExist(e.key))
    } else {
        Err("Invalid operator "@ + e.operator)
    }
}

/// Builds the requirement a `matchExpressions` entry denotes.
pub fn selector_of_expression(e: &MatchExpression) -> (r: Result<SelectorByLabel, String>)
    ensures
        match r {
            Ok(s) => spec_selector_of_expression(e@) == Ok::<SelectorByLabelView, Seq<char>>(s@),
            Err(m) => spec_selector_of_expression(e@) == Err::<SelectorByLabelView, Seq<char>>(m@),
        },
{
    if str_eq(e.operator.as_str(), "In") {
        match &e.values {
            Some(vs) => Ok(
                SelectorByLabel::In(e.key.clone(), crate::objects::clone_strings(vs)),
            ),
            None => Err(String::from_str("`values` should be supplied in `In` operation")),
        }
    } else if str_eq(e.operator.as_str(), "NotIn") {
        match &e.values {
            Some(vs) => Ok(
                SelectorByLabel::NotIn(e.key.clone(), crate::objects::clone_strings(vs)),
            ),
            None => Err(String::from_str("`values` should be supplied in `NotIn` operation")),
        }
    } else if str_eq(e.operator.as_str(), "Exists") {
        Ok(SelectorByLabel::Exists(e.key.clone()))
    } else if str_eq(e.operator.as_str(), "DoesNotExist") {
        Ok(SelectorByLabel::DoesNotExist(e.key.clone()))
    } else {
        let mut m = String::from_str("Invalid operator ");
        m.append(e.operator.as_str());
        Err(m)
    }
}

/// Whether every requirement of a list holds of a label set.
pub open spec fn spec_matches_all(
    sel: Seq<SelectorByLabelView>,
    labels: Seq<(Seq<char>, Seq<char>)>,
) -> bool {
    forall|i: int| 0 <= i < sel.len() ==> spec_selector_matches(sel[i], labels)
}

/// Evaluates a whole requirement list against a label set.
pub fn matches_all(sel: &Vec<SelectorByLabel>, labels: &Vec<(String, String)>) -> (r: bool)
    ensures
        r == spec_matches_all(view_seq(sel@), view_pairs(labels@)),
{
    let mut i: usize = 0;
    while i < sel.len()
        invariant
            i <= sel@.len(),
            forall|j: int|
                0 <= j < i ==> spec_selector_matches(
                    view_seq(sel@)[j],
                    view_pairs(labels@),
                ),
        decreases sel@.len() - i,
    {
        if !sel[i].matches_labels(labels) {
            proof {
                assert(view_seq(sel@)[i as int] == sel@[i as int]@);
            }
            return false;
        }
        proof {
            assert(view_seq(sel@)[i as int] == sel@[i as int]@);
        }
        i += 1;
    }
    true
}

/// The names of the namespaces whose labels satisfy every requirement, in
/// snapshot order.
pub open spec fn spec_filter_namespaces(
    sel: Seq<SelectorByLabelView>,
    nss: Seq<NamespaceInfoView>,
) -> Seq<Seq<char>>
    decreases nss.len(),
{
    if nss.len() == 0 {
        Seq::<Seq<char>>::empty()
    } else {
        let r = spec_filter_namespaces(sel, nss.drop_last());
        if spec_matches_all(sel, nss.last().labels) {
            r.push(nss.last().name)
        } else {
            r
        }
    }
}

/// Filters a namespace snapshot through a requirement list.
pub fn filter_namespaces(sel: &Vec<SelectorByLabel>, nss: &Vec<NamespaceInfo>) -> (r: Vec<String>)
    ensures
        view_seq(r@) == spec_filter_namespaces(view_seq(sel@), view_seq(nss@)),
{
    let mut r: Vec<String> = Vec::new();
    let mut i: usize = 0;
    while i < nss.len()
        invariant
            i <= nss@.len(),
            view_seq(r@) == spec_filter_namespaces(
                view_seq(sel@),
                view_seq(nss@).take(i as int),
            ),
        decreases nss@.len() - i,
    {
        let ghost pre = view_seq(nss@).take(i as int);
        proof {
            assert(view_seq(nss@).take(i as int + 1).drop_last() =~= pre);
            assert(view_seq(nss@).take(i as int + 1).last() == nss@[i as int]@);
        }
        if matches_all(sel, &nss[i].labels) {
            let ghost old_r = view_seq(r@);
            r.push(nss[i].name.clone());
            proof {
                assert(view_seq(r@) =~= old_r.push(nss@[i as int]@.name));
            }
        }
        i += 1;
    }
    proof {
        assert(view_seq(nss@).take(nss@.len() as int) =~= view_seq(nss@));
    }
    r
}

} // verus!
