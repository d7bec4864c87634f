//! Helpers over lists of crate names, viewed as sequences of character
//! sequences.

use vstd::prelude::*;

verus! {

/// Whether the name `n` occurs in `s`.
pub open spec fn contains_name(s: Seq<Seq<char>>, n: Seq<char>) -> bool {
    exists|i: int| 0 <= i < s.len() && s[i] == n
}

/// Whether no name occurs twice in `s`.
pub open spec fn unique_names(s: Seq<Seq<char>>) -> bool {
    forall|i: int, j: int| 0 <= i < j < s.len() ==> s[i] != s[j]
}

/// Whether every name of `a` occurs in `b`.
pub open spec fn names_subset(a: Seq<Seq<char>>, b: Seq<Seq<char>>) -> bool {
    forall|i: int| 0 <= i < a.len() ==> contains_name(b, #[trigger] a[i])
}

/// Whether `a` and `b` hold the same names, in any order.
pub open spec fn same_names(a: Seq<Seq<char>>, b: Seq<Seq<char>>) -> bool {
    names_subset(a, b) && names_subset(b, a)
}

/// The views of a sequence of strings.
pub open spec fn views_of(s: Seq<String>) -> Seq<Seq<char>> {
    Seq::new(s.len(), |i: int| s[i]@)
}

/// Whether the string `n` holds the characters of `lit`.
pub fn str_is(n: &String, lit: &str) -> (r: bool)
    ensures
        r == (n@ == lit@),
{
    let s = String::from_str(lit);
    *n == s
}

/// Whether the set `s` holds every name of `names`.
pub open spec fn all_in(s: Set<Seq<char>>, names: Seq<Seq<char>>) -> bool {
    forall|i: int| 0 <= i < names.len() ==> s.contains(#[trigger] names[i])
}

/// Whether two strings hold the same characters.
pub fn str_eq(a: &String, b: &String) -> (r: bool)
    ensures
        r == (a@ == b@),
{
    *a == *b
}

/// Whether `v` holds the name `n`.
pub fn names_contain(v: &Vec<String>, n: &String) -> (r: bool)
    ensures
        r == contains_name(v.deep_view(), n@),
{
    let mut i: usize = 0;
    while i < v.len()
        invariant
            0 <= i <= v.len(),
            forall|k: int| 0 <= k < i ==> v.deep_view()[k] != n@,
        decreases v.len() - i,
    {
        if str_eq(&v[i], n) {
            assert(v.deep_view()[i as int] == n@);
            return true;
        }
        i += 1;
    }
    false
}

/// Copies a list of names.
pub fn clone_names(v: &Vec<String>) -> (r: Vec<String>)
    ensures
        r.deep_view() == v.deep_view(),
        r@.len() == v@.len(),
{
    let mut r: Vec<String> = Vec::new();
    let mut i: usize = 0;
    while i < v.len()
        invariant
            0 <= i <= v.len(),
            r@.len() == i,
            forall|k: int| 0 <= k < i ==> r.deep_view()[k] == v.deep_view()[k],
        decreases v.len() - i,
    {
        r.push(v[i].clone());
        i += 1;
    }
    assert(r.deep_view() =~= v.deep_view());
    r
}

/// A name held by a list is, after the front is popped, either that front
/// element or still held by the rest.
pub proof fn lemma_pop_front_contains(s: Seq<Seq<char>>, d: Seq<char>)
    requires
        s.len() > 0,
        contains_name(s, d),
    ensures
        d == s[0] || contains_name(s.remove(0), d),
{
    let i = choose|i: int| 0 <= i < s.len() && s[i] == d;
    if i > 0 {
        assert(s.remove(0)[i - 1] == d);
    }
}

/// A pushed list holds every name the list held, and the pushed one.
pub proof fn lemma_push_contains(s: Seq<Seq<char>>, x: Seq<char>, d: Seq<char>)
    requires
        contains_name(s, d) || d == x,
    ensures
        contains_name(s.push(x), d),
{
    if d == x {
        assert(s.push(x)[s.len() as int] == d);
    } else {
        let i = choose|i: int| 0 <= i < s.len() && s[i] == d;
        assert(s.push(x)[i] == d);
    }
}

/// The names of `b` that do not occur in `a`.
pub fn names_difference(b: &Vec<String>, a: &Vec<String>) -> (r: Vec<String>)
    ensures
        forall|i: int|
            0 <= i < r.deep_view().len() ==> contains_name(b.deep_view(), #[trigger] r.deep_view()[i])
                && !contains_name(a.deep_view(), r.deep_view()[i]),
        forall|i: int|
            0 <= i < b.deep_view().len() && !contains_name(a.deep_view(), #[trigger] b.deep_view()[i])
                ==> contains_name(r.deep_view(), b.deep_view()[i]),
        r@.len() == 0 <==> names_subset(b.deep_view(), a.deep_view()),
{
    let mut r: Vec<String> = Vec::new();
    let mut i: usize = 0;
    while i < b.len()
        invariant
            0 <= i <= b.len(),
            forall|k: int|
                0 <= k < r.deep_view().len() ==> contains_name(
                    b.deep_view(),
                    #[trigger] r.deep_view()[k],
                ) && !contains_name(a.deep_view(), r.deep_view()[k]),
            forall|k: int|
                0 <= k < i && !contains_name(a.deep_view(), #[trigger] b.deep_view()[k])
                    ==> contains_name(r.deep_view(), b.deep_view()[k]),
            r@.len() == 0 ==> forall|k: int|
                0 <= k < i ==> contains_name(a.deep_view(), #[trigger] b.deep_view()[k]),
        decreases b.len() - i,
    {
        if !names_contain(a, &b[i]) {
            let ghost old_r = r.deep_view();
            r.push(b[i].clone());
            assert(r.deep_view() =~= old_r.push(b.deep_view()[i as int]));
            assert(r.deep_view()[old_r.len() as int] == b.deep_view()[i as int]);
            assert(contains_name(r.deep_view(), b.deep_view()[i as int]));
            assert(forall|k: int|
                0 <= k < old_r.len() ==> r.deep_view()[k] == old_r[k]);
            assert(forall|k: int|
                0 <= k < i && contains_name(old_r, #[trigger] b.deep_view()[k]) ==> contains_name(
                    r.deep_view(),
                    b.deep_view()[k],
                ));
        }
        i += 1;
    }
    proof {
        assert(r.deep_view().len() == r@.len());
        if r@.len() != 0 {
            let n = r.deep_view()[0];
            assert(contains_name(b.deep_view(), n) && !contains_name(a.deep_view(), n));
            let i0 = choose|k: int| 0 <= k < b.deep_view().len() && b.deep_view()[k] == n;
            assert(names_subset(b.deep_view(), a.deep_view()) ==> contains_name(
                a.deep_view(),
                b.deep_view()[i0],
            ));
            assert(!names_subset(b.deep_view(), a.deep_view()));
        }
    }
    r
}

} // verus!
