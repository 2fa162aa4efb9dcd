//! Verified string utilities: comma-splitting, hostname wildcard rewriting,
//! order-preserving de-duplication and ASCII case-insensitive comparison.

use vstd::prelude::*;

use crate::objects::view_seq;

verus! {

/// Splitting a character sequence at every comma, as splitting on `','`
/// does: the result has one more chunk than there are commas, and an empty
/// input yields one empty chunk.
pub open spec fn split_commas(s: Seq<char>) -> Seq<Seq<char>>
    decreases s.len(),
{
    if s.len() == 0 {
        seq![Seq::<char>::empty()]
    } else if s[0] == ',' {
        seq![Seq::<char>::empty()] + split_commas(s.drop_first())
    } else {
        let r = split_commas(s.drop_first());
        seq![seq![s[0]] + r[0]] + r.drop_first()
    }
}

/// A comma-free sequence splits into the single chunk that it is.
pub proof fn lemma_split_commas_none(s: Seq<char>)
    requires
        forall|i: int| 0 <= i < s.len() ==> s[i] != ',',
    ensures
        split_commas(s) == seq![s],
    decreases s.len(),
{
    if s.len() == 0 {
        assert(s =~= Seq::<char>::empty());
        assert(split_commas(s) =~= seq![s]);
    } else {
        lemma_split_commas_none(s.drop_first());
        let r = split_commas(s.drop_first());
        assert(seq![s[0]] + r[0] =~= s);
        assert(split_commas(s) =~= seq![s]);
    }
}

/// Splitting at the first comma: the part before it is the first chunk, and
/// the rest splits on its own.
pub proof fn lemma_split_commas_first(s: Seq<char>, k: int)
    requires
        0 <= k < s.len(),
        s[k] == ',',
        forall|i: int| 0 <= i < k ==> s[i] != ',',
    ensures
        split_commas(s) == seq![s.take(k)] + split_commas(s.skip(k + 1)),
    decreases k,
{
    if k == 0 {
        assert(s.drop_first() =~= s.skip(1));
        assert(s.take(0) =~= Seq::<char>::empty());
        assert(split_commas(s) =~= seq![s.take(0)] + split_commas(s.skip(1)));
    } else {
        let t = s.drop_first();
        lemma_split_commas_first(t, k - 1);
        let r = split_commas(t);
        assert(r == seq![t.take(k - 1)] + split_commas(t.skip(k)));
        assert(seq![s[0]] + r[0] =~= s.take(k));
        assert(r.drop_first() =~= split_commas(t.skip(k)));
        assert(t.skip(k) =~= s.skip(k + 1));
        assert(split_commas(s) =~= seq![s.take(k)] + split_commas(s.skip(k + 1)));
    }
}

/// A hostname beginning with a dot is turned into a wildcard by prepending
/// an asterisk; any other hostname is kept as it is.
pub open spec fn wildcard_host(h: Seq<char>) -> Seq<char> {
    if h.len() > 0 && h[0] == '.' {
        seq!['*'] + h
    } else {
        h
    }
}

/// Order-preserving de-duplication: of equal entries, the first stays.
pub open spec fn dedup(s: Seq<Seq<char>>) -> Seq<Seq<char>>
    decreases s.len(),
{
    if s.len() == 0 {
        Seq::<Seq<char>>::empty()
    } else {
        let r = dedup(s.drop_last());
        if r.contains(s.last()) {
            r
        } else {
            r.push(s.last())
        }
    }
}

/// Lower-casing of the ASCII letters only; other characters are unchanged.
pub open spec fn ascii_lower_char(c: char) -> char {
    if 'A' <= c && c <= 'Z' {
        (((c as u8) + 32) as char)
    } else {
        c
    }
}

/// ASCII-lower-cased form of a character sequence.
pub open spec fn ascii_lower(s: Seq<char>) -> Seq<char> {
    s.map_values(|c: char| ascii_lower_char(c))
}

/// Compares two strings ignoring the case of ASCII letters.
pub fn eq_ignore_ascii_case(a: &str, b: &str) -> (r: bool)
    ensures
        r == (ascii_lower(a@) == ascii_lower(b@)),
{
    let a_len = a.unicode_len();
    let b_len = b.unicode_len();
    if a_len != b_len {
        proof {
            assert(ascii_lower(a@).len() != ascii_lower(b@).len());
        }
        return false;
    }
    let mut i: usize = 0;
    while i < a_len
        invariant
            i <= a_len,
            a_len == a@.len(),
            b_len == b@.len(),
            a_len == b_len,
            forall|j: int| 0 <= j < i ==> ascii_lower_char(a@[j]) == ascii_lower_char(b@[j]),
        decreases a_len - i,
    {
        let ca = a.get_char(i);
        let cb = b.get_char(i);
        let la = if 'A' <= ca && ca <= 'Z' {
            ((ca as u8) + 32) as char
        } else {
            ca
        };
        let lb = if 'A' <= cb && cb <= 'Z' {
            ((cb as u8) + 32) as char
        } else {
            cb
        };
        if la != lb {
            proof {
                assert(ascii_lower(a@)[i as int] != ascii_lower(b@)[i as int]);
            }
            return false;
        }
        i += 1;
    }
    proof {
        assert(ascii_lower(a@) =~= ascii_lower(b@));
    }
    true
}

/// Splits a string at every comma.
pub fn split_at_commas(s: &str) -> (r: Vec<String>)
    ensures
        view_seq(r@) == split_commas(s@),
{
    let n = s.unicode_len();
    let mut out: Vec<String> = Vec::new();
    let mut start: usize = 0;
    let mut i: usize = 0;
    proof {
        assert(s@.skip(0) =~= s@);
        assert(view_seq(out@) + split_commas(s@) =~= split_commas(s@));
    }
    while i < n
        invariant
            start <= i <= n,
            n == s@.len(),
            forall|j: int| start <= j < i ==> s@[j] != ',',
            split_commas(s@) == view_seq(out@) + split_commas(s@.skip(start as int)),
        decreases n - i,
    {
        let c = s.get_char(i);
        if c == ',' {
            let chunk = s.substring_char(start, i).to_owned();
            let ghost old_out = out@;
            out.push(chunk);
            proof {
                let t = s@.skip(start as int);
                lemma_split_commas_first(t, i - start);
                assert(t.take(i - start) =~= s@.subrange(start as int, i as int));
                assert(t.skip(i - start + 1) =~= s@.skip(i as int + 1));
                assert(view_seq(out@) =~= view_seq(old_out).push(s@.subrange(
                    start as int,
                    i as int,
                )));
                assert(view_seq(out@) + split_commas(s@.skip(i as int + 1)) =~= view_seq(old_out)
                    + split_commas(t));
            }
            start = i + 1;
        }
        i += 1;
    }
    let chunk = s.substring_char(start, n).to_owned();
    let ghost old_out = out@;
    out.push(chunk);
    proof {
        let t = s@.skip(start as int);
        lemma_split_commas_none(t);
        assert(t =~= s@.subrange(start as int, n as int));
        assert(view_seq(out@) =~= view_seq(old_out).push(t));
        assert(view_seq(out@) =~= split_commas(s@));
    }
    out
}

/// Rewrites one hostname: a leading dot gains a `*` prefix.
pub fn wildcard_of(h: &str) -> (r: String)
    ensures
        r@ == wildcard_host(h@),
{
    if h.unicode_len() > 0 && h.get_char(0) == '.' {
        let star: String = String::from_str("*");
        proof {
            reveal_strlit("*");
            assert(star@ =~= seq!['*']);
        }
        let r = star.concat(h);
        proof {
            assert(r@ =~= wildcard_host(h@));
        }
        r
    } else {
        h.to_owned()
    }
}

/// Whether some string of `v` has the view `x`.
pub fn contains_string(v: &Vec<String>, x: &str) -> (r: bool)
    ensures
        r == view_seq(v@).contains(x@),
{
    let mut i: usize = 0;
    while i < v.len()
        invariant
            i <= v@.len(),
            forall|j: int| 0 <= j < i ==> view_seq(v@)[j] != x@,
        decreases v@.len() - i,
    {
        if v[i].as_str().unicode_len() == x.unicode_len() && str_eq(v[i].as_str(), x) {
            proof {
                assert(view_seq(v@)[i as int] == x@);
            }
            return true;
        }
        proof {
            assert(view_seq(v@)[i as int] == v@[i as int]@);
        }
        i += 1;
    }
    proof {
        assert forall|j: int| 0 <= j < view_seq(v@).len() implies view_seq(v@)[j] != x@ by {}
    }
    false
}

/// Compares two string slices for character-wise equality.
pub fn str_eq(a: &str, b: &str) -> (r: bool)
    ensures
        r == (a@ == b@),
{
    let a_len = a.unicode_len();
    let b_len = b.unicode_len();
    if a_len != b_len {
        return false;
    }
    let mut i: usize = 0;
    while i < a_len
        invariant
            i <= a_len,
            a_len == a@.len(),
            b_len == b@.len(),
            a_len == b_len,
            forall|j: int| 0 <= j < i ==> a@[j] == b@[j],
        decreases a_len - i,
    {
        if a.get_char(i) != b.get_char(i) {
            return false;
        }
        i += 1;
    }
    proof {
        assert(a@ =~= b@);
    }
    true
}

/// De-duplicates a vector of strings, keeping first occurrences in order.
pub fn dedup_strings(v: Vec<String>) -> (r: Vec<String>)
    ensures
        view_seq(r@) == dedup(view_seq(v@)),
{
    let mut r: Vec<String> = Vec::new();
    let mut i: usize = 0;
    while i < v.len()
        invariant
            i <= v@.len(),
            view_seq(r@) == dedup(view_seq(v@).take(i as int)),
        decreases v@.len() - i,
    {
        let ghost pre = view_seq(v@).take(i as int);
        proof {
            assert(view_seq(v@).take(i as int + 1).drop_last() =~= pre);
            assert(view_seq(v@).take(i as int + 1).last() == v@[i as int]@);
        }
        if !contains_string(&r, v[i].as_str()) {
            let ghost old_r = r@;
            r.push(v[i].clone());
            proof {
                assert(view_seq(r@) =~= view_seq(old_r).push(v@[i as int]@));
            }
        }
        i += 1;
    }
    proof {
        assert(view_seq(v@).take(v@.len() as int) =~= view_seq(v@));
    }
    r
}

} // verus!

verus! {

/// The index of the first slash, or a negative value when there is none.
pub open spec fn first_slash(s: Seq<char>) -> int
    decreases s.len(),
{
    if s.len() == 0 {
        -1
    } else if s[0] == '/' {
        0
    } else {
        let r = first_slash(s.drop_first());
        if r < 0 {
            -1
        } else {
            r + 1
        }
    }
}

pub proof fn lemma_first_slash(s: Seq<char>)
    ensures
        first_slash(s) < 0 ==> forall|i: int| 0 <= i < s.len() ==> s[i] != '/',
        first_slash(s) >= 0 ==> first_slash(s) < s.len() && s[first_slash(s)] == '/' && (
        forall|i: int| 0 <= i < first_slash(s) ==> s[i] != '/'),
    decreases s.len(),
{
    if s.len() > 0 {
        lemma_first_slash(s.drop_first());
        let t = s.drop_first();
        if s[0] != '/' {
            let r = first_slash(t);
            if r < 0 {
                assert forall|i: int| 0 <= i < s.len() implies s[i] != '/' by {
                    if i > 0 {
                        assert(s[i] == t[i - 1]);
                    }
                }
            } else {
                assert(s[r + 1] == t[r]);
                assert forall|i: int| 0 <= i < first_slash(s) implies s[i] != '/' by {
                    if i > 0 {
                        assert(s[i] == t[i - 1]);
                    }
                }
            }
        }
    }
}

/// Splits at the first slash, as `str::split_once('/')` does.
pub open spec fn split_once_slash(s: Seq<char>) -> Option<(Seq<char>, Seq<char>)> {
    let k = first_slash(s);
    if k < 0 {
        None
    } else {
        Some((s.take(k), s.skip(k + 1)))
    }
}

/// Splits a string at its first slash, if it has one.
pub fn split_at_first_slash(s: &str) -> (r: Option<(String, String)>)
    ensures
        match r {
            Some(p) => split_once_slash(s@) == Some((p.0@, p.1@)),
            None => split_once_slash(s@) is None,
        },
{
    let n = s.unicode_len();
    let mut i: usize = 0;
    proof {
        lemma_first_slash(s@);
    }
    while i < n
        invariant
            i <= n,
            n == s@.len(),
            forall|j: int| 0 <= j < i ==> s@[j] != '/',
        decreases n - i,
    {
        if s.get_char(i) == '/' {
            let before = s.substring_char(0, i).to_owned();
            let after = s.substring_char(i + 1, n).to_owned();
            proof {
                lemma_first_slash_at(s@, i as int);
                assert(s@.subrange(0, i as int) =~= s@.take(i as int));
                assert(s@.subrange(i as int + 1, n as int) =~= s@.skip(i as int + 1));
            }
            return Some((before, after));
        }
        i += 1;
    }
    proof {
        lemma_first_slash(s@);
        if first_slash(s@) >= 0 {
            assert(s@[first_slash(s@)] == '/');
        }
    }
    None
}

/// The first slash is at `k` when nothing before `k` is one.
pub proof fn lemma_first_slash_at(s: Seq<char>, k: int)
    requires
        0 <= k < s.len(),
        s[k] == '/',
        forall|i: int| 0 <= i < k ==> s[i] != '/',
    ensures
        first_slash(s) == k,
    decreases k,
{
    if k == 0 {
    } else {
        lemma_first_slash_at(s.drop_first(), k - 1);
    }
}

} // verus!
