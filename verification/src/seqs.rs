//! Searching and summing sequences: the vocabulary that the contracts of the
//! other modules are written in.

use vstd::prelude::*;

verus! {

/// The index of the first element of `s` that satisfies `p`, or the length
/// of `s` where none does.
pub open spec fn first_index<A>(s: Seq<A>, p: spec_fn(A) -> bool) -> int
    decreases s.len(),
{
    if s.len() == 0 {
        0
    } else if p(s[0]) {
        0
    } else {
        1 + first_index(s.skip(1), p)
    }
}

/// What `first_index` finds: nothing before it satisfies `p`, and the
/// element at it does, unless it is the length.
pub proof fn lemma_first_index<A>(s: Seq<A>, p: spec_fn(A) -> bool)
    ensures
        0 <= first_index(s, p) <= s.len(),
        forall|j: int| 0 <= j < first_index(s, p) ==> !p(#[trigger] s[j]),
        first_index(s, p) < s.len() ==> p(s[first_index(s, p)]),
    decreases s.len(),
{
    if s.len() > 0 && !p(s[0]) {
        let t = s.skip(1);
        lemma_first_index(t, p);
        assert forall|j: int| 0 <= j < first_index(s, p) implies !p(#[trigger] s[j]) by {
            if j > 0 {
                assert(s[j] == t[j - 1]);
            }
        }
        if first_index(s, p) < s.len() {
            assert(s[first_index(s, p)] == t[first_index(t, p)]);
        }
    }
}

/// `first_index` is the only index with that property.
pub proof fn lemma_first_index_is<A>(s: Seq<A>, p: spec_fn(A) -> bool, i: int)
    requires
        0 <= i <= s.len(),
        forall|j: int| 0 <= j < i ==> !p(#[trigger] s[j]),
        i < s.len() ==> p(s[i]),
    ensures
        first_index(s, p) == i,
{
    lemma_first_index(s, p);
    let k = first_index(s, p);
    if k < i {
        assert(!p(s[k]));
    } else if i < k {
        assert(!p(s[i]));
    }
}

/// The sum of `f` over the elements of `s`.
pub open spec fn sum_of<A>(s: Seq<A>, f: spec_fn(A) -> nat) -> nat
    decreases s.len(),
{
    if s.len() == 0 {
        0
    } else {
        sum_of(s.drop_last(), f) + f(s.last())
    }
}

/// The sum over one more element.
pub proof fn lemma_sum_step<A>(s: Seq<A>, f: spec_fn(A) -> nat, i: int)
    requires
        0 <= i < s.len(),
    ensures
        sum_of(s.take(i + 1), f) == sum_of(s.take(i), f) + f(s[i]),
{
    assert(s.take(i + 1).drop_last() =~= s.take(i));
}

/// The sum over a sequence with one more element at its end.
pub proof fn lemma_sum_push<A>(s: Seq<A>, f: spec_fn(A) -> nat, a: A)
    ensures
        sum_of(s.push(a), f) == sum_of(s, f) + f(a),
{
    assert(s.push(a).drop_last() =~= s);
}

/// The sum after one element is taken out.
pub proof fn lemma_sum_remove<A>(s: Seq<A>, f: spec_fn(A) -> nat, i: int)
    requires
        0 <= i < s.len(),
    ensures
        sum_of(s.remove(i), f) + f(s[i]) == sum_of(s, f),
    decreases s.len(),
{
    if i == s.len() - 1 {
        assert(s.remove(i) =~= s.drop_last());
    } else {
        lemma_sum_remove(s.drop_last(), f, i);
        assert(s.remove(i).drop_last() =~= s.drop_last().remove(i));
        assert(s.remove(i).last() == s.last());
    }
}

/// The test whether a text is `key`.
pub open spec fn is_text(key: Seq<char>) -> spec_fn(Seq<char>) -> bool {
    |t: Seq<char>| t == key
}

/// Where `key` first occurs in `keys`, or the length of `keys`.
pub open spec fn text_index(keys: Seq<Seq<char>>, key: Seq<char>) -> int {
    first_index(keys, is_text(key))
}

/// A text has an index among `keys` exactly when it is one of them.
pub proof fn lemma_text_index(keys: Seq<Seq<char>>, key: Seq<char>)
    ensures
        0 <= text_index(keys, key) <= keys.len(),
        text_index(keys, key) < keys.len() <==> keys.contains(key),
        text_index(keys, key) < keys.len() ==> keys[text_index(keys, key)] == key,
{
    lemma_first_index(keys, is_text(key));
    if keys.contains(key) {
        let i = choose|i: int| 0 <= i < keys.len() && keys[i] == key;
        assert(is_text(key)(keys[i]));
    }
}

/// Where `key` first occurs among `keys`, if it does.
pub fn position_of(keys: &Vec<String>, key: &String) -> (r: Option<usize>)
    ensures
        match r {
            Some(i) => i < keys.len() && i == text_index(keys.deep_view(), key@),
            None => text_index(keys.deep_view(), key@) == keys.len(),
        },
{
    let ghost p = is_text(key@);
    let mut i: usize = 0;
    while i < keys.len()
        invariant
            i <= keys.len(),
            p == is_text(key@),
            forall|j: int| 0 <= j < i ==> !p(#[trigger] keys.deep_view()[j]),
        decreases keys.len() - i,
    {
        if keys[i] == *key {
            proof {
                assert(keys.deep_view()[i as int] == keys[i as int]@);
                lemma_first_index_is(keys.deep_view(), p, i as int);
            }
            return Some(i);
        }
        assert(keys.deep_view()[i as int] == keys[i as int]@);
        i = i + 1;
    }
    proof {
        lemma_first_index_is(keys.deep_view(), p, keys.len() as int);
    }
    None
}

/// Whether no text occurs twice among `keys`.
pub fn all_distinct(keys: &Vec<String>) -> (b: bool)
    ensures
        b == keys.deep_view().no_duplicates(),
{
    let ghost texts = keys.deep_view();
    let mut i: usize = 0;
    while i < keys.len()
        invariant
            i <= keys.len(),
            texts == keys.deep_view(),
            forall|a: int, b: int| 0 <= a < b < i ==> texts[a] != texts[b],
        decreases keys.len() - i,
    {
        assert(texts[i as int] == keys[i as int]@);
        proof {
            lemma_first_index(texts, is_text(texts[i as int]));
        }
        match position_of(keys, &keys[i]) {
            Some(p) => {
                if p != i {
                    assert(texts[p as int] == texts[i as int]);
                    return false;
                }
                assert forall|a: int| 0 <= a < i implies texts[a] != texts[i as int] by {
                    assert(!is_text(texts[i as int])(texts[a]));
                }
            },
            None => {
                assert(is_text(texts[i as int])(texts[i as int]));
                return false;
            },
        }
        i = i + 1;
    }
    true
}

} // verus!
