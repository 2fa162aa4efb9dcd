//! Annotation access: recognised keys, first-match lookup, insert-only
//! updates, and the two input annotations the engine reads (skip and
//! external-dns hostnames).

use vstd::prelude::*;

use crate::objects::{view_opt, view_pairs, view_seq, Gateway, HttpRoute, Ingress, Metadata, MetadataView};
use crate::strings::{split_commas, str_eq, wildcard_host, wildcard_of};

verus! {

/// First-match lookup in an annotation (or label) list.
pub open spec fn spec_lookup(a: Seq<(Seq<char>, Seq<char>)>, k: Seq<char>) -> Option<Seq<char>>
    decreases a.len(),
{
    if a.len() == 0 {
        None
    } else if a[0].0 == k {
        Some(a[0].1)
    } else {
        spec_lookup(a.drop_first(), k)
    }
}

pub proof fn lemma_spec_lookup_skip(a: Seq<(Seq<char>, Seq<char>)>, k: Seq<char>, i: int)
    requires
        0 <= i <= a.len(),
        forall|j: int| 0 <= j < i ==> a[j].0 != k,
    ensures
        spec_lookup(a, k) == spec_lookup(a.skip(i), k),
    decreases i,
{
    if i > 0 {
        lemma_spec_lookup_skip(a.drop_first(), k, i - 1);
        assert(a.drop_first().skip(i - 1) =~= a.skip(i));
    } else {
        assert(a.skip(0) =~= a);
    }
}

/// Looks an annotation key up, returning the first matching value.
pub fn lookup_annotation<'a>(a: &'a Vec<(String, String)>, key: &str) -> (r: Option<&'a String>)
    ensures
        view_opt(r) == spec_lookup(view_pairs(a@), key@),
{
    let ghost va = view_pairs(a@);
    let mut i: usize = 0;
    while i < a.len()
        invariant
            i <= a@.len(),
            va == view_pairs(a@),
            forall|j: int| 0 <= j < i ==> va[j].0 != key@,
        decreases a@.len() - i,
    {
        if str_eq(a[i].0.as_str(), key) {
            proof {
                lemma_spec_lookup_skip(va, key@, i as int);
                assert(va.skip(i as int)[0] == va[i as int]);
            }
            return Some(&a[i].1);
        }
        proof {
            assert(va[i as int].0 == a@[i as int].0@);
        }
        i += 1;
    }
    proof {
        lemma_spec_lookup_skip(va, key@, a@.len() as int);
        assert(va.skip(va.len() as int) =~= Seq::<(Seq<char>, Seq<char>)>::empty());
    }
    None
}

/// The annotation list after an insert-only update: an existing key is
/// never overwritten; a missing key is appended.
pub open spec fn spec_insert_absent(
    a: Seq<(Seq<char>, Seq<char>)>,
    k: Seq<char>,
    v: Seq<char>,
) -> Seq<(Seq<char>, Seq<char>)> {
    if spec_lookup(a, k) is Some {
        a
    } else {
        a.push((k, v))
    }
}

/// Inserts an annotation only if the key is absent.
pub fn insert_annotation_if_absent(a: &mut Vec<(String, String)>, key: &str, value: &str)
    ensures
        view_pairs(final(a)@) == spec_insert_absent(view_pairs(old(a)@), key@, value@),
{
    let present = lookup_annotation(a, key).is_some();
    if !present {
        let ghost old_a = view_pairs(a@);
        a.push((key.to_owned(), value.to_owned()));
        proof {
            assert(view_pairs(a@) =~= old_a.push((key@, value@)));
        }
    }
}

/// Any value of an existing key survives an insert-only update unchanged.
pub proof fn lemma_insert_absent_preserves(
    a: Seq<(Seq<char>, Seq<char>)>,
    k: Seq<char>,
    v: Seq<char>,
    k2: Seq<char>,
)
    requires
        spec_lookup(a, k2) is Some,
    ensures
        spec_lookup(spec_insert_absent(a, k, v), k2) == spec_lookup(a, k2),
    decreases a.len(),
{
    if spec_lookup(a, k) is Some {
    } else {
        lemma_lookup_push_found(a, k2, (k, v));
    }
}

/// Appending an entry does not change the lookup of a key that was found.
pub proof fn lemma_lookup_push_found(
    a: Seq<(Seq<char>, Seq<char>)>,
    k: Seq<char>,
    p: (Seq<char>, Seq<char>),
)
    requires
        spec_lookup(a, k) is Some,
    ensures
        spec_lookup(a.push(p), k) == spec_lookup(a, k),
    decreases a.len(),
{
    if a.len() == 0 {
    } else if a[0].0 == k {
        assert(a.push(p)[0] == a[0]);
    } else {
        lemma_lookup_push_found(a.drop_first(), k, p);
        assert(a.push(p).drop_first() =~= a.drop_first().push(p));
    }
}

/// Appending an entry leaves every other key's lookup unchanged.
pub proof fn lemma_lookup_push_other(
    a: Seq<(Seq<char>, Seq<char>)>,
    k: Seq<char>,
    p: (Seq<char>, Seq<char>),
)
    requires
        p.0 != k,
    ensures
        spec_lookup(a.push(p), k) == spec_lookup(a, k),
    decreases a.len(),
{
    if a.len() == 0 {
        let e = Seq::<(Seq<char>, Seq<char>)>::empty();
        assert(a.push(p)[0] == p);
        assert(a.push(p).drop_first() =~= e);
        assert(spec_lookup(e, k) is None);
        assert(spec_lookup(a.push(p), k) is None);
    } else {
        lemma_lookup_push_other(a.drop_first(), k, p);
        assert(a.push(p).drop_first() =~= a.drop_first().push(p));
        assert(a.push(p)[0] == a[0]);
    }
}

/// Objects that carry Kubernetes metadata.
pub trait HasMetadata {
    spec fn metadata_view(&self) -> MetadataView;

    fn get_metadata(&self) -> (r: &Metadata)
        ensures
            r@ == self.metadata_view(),
    ;
}

impl HasMetadata for Ingress {
    open spec fn metadata_view(&self) -> MetadataView {
        self.metadata@
    }

    fn get_metadata(&self) -> (r: &Metadata) {
        &self.metadata
    }
}

impl HasMetadata for Gateway {
    open spec fn metadata_view(&self) -> MetadataView {
        self.metadata@
    }

    fn get_metadata(&self) -> (r: &Metadata) {
        &self.metadata
    }
}

impl HasMetadata for HttpRoute {
    open spec fn metadata_view(&self) -> MetadataView {
        self.metadata@
    }

    fn get_metadata(&self) -> (r: &Metadata) {
        &self.metadata
    }
}

/// The value of the skip annotation, if the object carries one.
pub open spec fn spec_skip(m: MetadataView) -> Option<Seq<char>> {
    match m.annotations {
        Some(a) => spec_lookup(a, "ingress-tls.magiclouds.cn/skip"@),
        None => None,
    }
}

/// Whether the object opts out of the policy altogether.
pub open spec fn spec_skip_requested(m: MetadataView) -> bool {
    spec_skip(m) == Some("true"@)
}

/// Reads the skip annotation.
pub fn get_skip<T: HasMetadata>(o: &T) -> (r: Option<&String>)
    ensures
        view_opt(r) == spec_skip(o.metadata_view()),
{
    match &o.get_metadata().annotations {
        Some(a) => lookup_annotation(a, "ingress-tls.magiclouds.cn/skip"),
        None => None,
    }
}

/// The hostnames declared in the external-dns annotation, comma-split, each
/// with a leading dot rewritten to a wildcard.
pub open spec fn spec_external_dns_hostnames(m: MetadataView) -> Option<Seq<Seq<char>>> {
    match m.annotations {
        Some(a) => match spec_lookup(a, "external-dns.alpha.kubernetes.io/hostname"@) {
            Some(v) => Some(split_commas(v).map_values(|h: Seq<char>| wildcard_host(h))),
            None => None,
        },
        None => None,
    }
}

/// Reads the external-dns hostname annotation.
pub fn get_external_dns_hostname<T: HasMetadata>(o: &T) -> (r: Option<Vec<String>>)
    ensures
        match r {
            Some(v) => spec_external_dns_hostnames(o.metadata_view()) == Some(view_seq(v@)),
            None => spec_external_dns_hostnames(o.metadata_view()) is None,
        },
{
    let value = match &o.get_metadata().annotations {
        Some(a) => lookup_annotation(a, "external-dns.alpha.kubernetes.io/hostname"),
        None => None,
    };
    match value {
        Some(v) => {
            let parts = crate::strings::split_at_commas(v.as_str());
            let mut out: Vec<String> = Vec::new();
            let mut i: usize = 0;
            while i < parts.len()
                invariant
                    i <= parts@.len(),
                    out@.len() == i,
                    forall|j: int|
                        0 <= j < i ==> out@[j]@ == wildcard_host(view_seq(parts@)[j]),
                decreases parts@.len() - i,
            {
                out.push(wildcard_of(parts[i].as_str()));
                i += 1;
            }
            proof {
                assert(view_seq(out@) =~= view_seq(parts@).map_values(
                    |h: Seq<char>| wildcard_host(h),
                ));
            }
            Some(out)
        },
        None => None,
    }
}

} // verus!

verus! {

/// The skip check, shared by all three pipelines: an object annotated with
/// the skip value `true` is allowed outright; any other value moves on; no
/// annotation makes the check inapplicable.
pub open spec fn spec_skip_check<PV>(m: MetadataView) -> crate::status::CheckResultView<PV> {
    match spec_skip(m) {
        None => None,
        Some(v) => if v == "true"@ {
            Some(Ok(crate::status::StatusView::Allowed))
        } else {
            Some(Ok(crate::status::StatusView::MoveOn))
        },
    }
}

/// Runs the skip check on an object.
pub fn skip_check<T: HasMetadata, P: View>(o: &T) -> (r: crate::status::CheckResult<P>)
    ensures
        crate::status::check_view(r) == spec_skip_check::<P::V>(o.metadata_view()),
{
    match get_skip(o) {
        None => None,
        Some(v) => {
            if crate::strings::str_eq(v.as_str(), "true") {
                Some(Ok(crate::status::Status::Allowed))
            } else {
                Some(Ok(crate::status::Status::MoveOn))
            }
        },
    }
}

} // verus!

verus! {

/// An insert-only update of one key leaves every other key's lookup
/// unchanged, present or not.
pub proof fn lemma_insert_absent_other(
    a: Seq<(Seq<char>, Seq<char>)>,
    k1: Seq<char>,
    v: Seq<char>,
    k: Seq<char>,
)
    requires
        k1 != k,
    ensures
        spec_lookup(spec_insert_absent(a, k1, v), k) == spec_lookup(a, k),
{
    if spec_lookup(a, k1) is Some {
    } else {
        lemma_lookup_push_other(a, k, (k1, v));
    }
}

/// The skip annotation key differs from every key the mutators write.
pub proof fn lemma_skip_key_distinct()
    ensures
        "ingress-tls.magiclouds.cn/skip"@ != "cert-manager.io/issuer-group"@,
        "ingress-tls.magiclouds.cn/skip"@ != "cert-manager.io/issuer-kind"@,
        "ingress-tls.magiclouds.cn/skip"@ != "cert-manager.io/issuer"@,
        "ingress-tls.magiclouds.cn/skip"@ != "cert-manager.io/cluster-issuer"@,
        "ingress-tls.magiclouds.cn/skip"@ != "traefik.ingress.kubernetes.io/router.middlewares"@,
        "ingress-tls.magiclouds.cn/skip"@ != "nginx.ingress.kubernetes.io/force-ssl-redirect"@,
{
    reveal_strlit("ingress-tls.magiclouds.cn/skip");
    reveal_strlit("cert-manager.io/issuer-group");
    reveal_strlit("cert-manager.io/issuer-kind");
    reveal_strlit("cert-manager.io/issuer");
    reveal_strlit("cert-manager.io/cluster-issuer");
    reveal_strlit("traefik.ingress.kubernetes.io/router.middlewares");
    reveal_strlit("nginx.ingress.kubernetes.io/force-ssl-redirect");
    assert("ingress-tls.magiclouds.cn/skip"@[0] == 'i');
    assert("cert-manager.io/cluster-issuer"@[0] == 'c');
    assert("nginx.ingress.kubernetes.io/force-ssl-redirect"@[0] == 'n');
}

} // verus!
