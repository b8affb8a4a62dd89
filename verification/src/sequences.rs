//! What holds of every sequence: membership after joining and pushing.

use vstd::prelude::*;

verus! {

/// A member of two sequences joined is a member of one of them.
pub proof fn lemma_joined_contains<T>(a: Seq<T>, b: Seq<T>, x: T)
    ensures
        (a + b).contains(x) <==> a.contains(x) || b.contains(x),
{
    if (a + b).contains(x) {
        let i = choose|i: int| 0 <= i < (a + b).len() && (a + b)[i] == x;
        if i < a.len() {
            assert(a[i] == x);
        } else {
            assert(b[i - a.len()] == x);
        }
    }
    if a.contains(x) {
        let i = choose|i: int| 0 <= i < a.len() && a[i] == x;
        assert((a + b)[i] == x);
    }
    if b.contains(x) {
        let i = choose|i: int| 0 <= i < b.len() && b[i] == x;
        assert((a + b)[a.len() + i] == x);
    }
}

/// A member of a sequence with one more at its end is a member of the
/// sequence, or the one more.
pub proof fn lemma_pushed_contains<T>(s: Seq<T>, last: T, x: T)
    ensures
        s.push(last).contains(x) <==> s.contains(x) || x == last,
{
    let longer = s.push(last);
    if longer.contains(x) {
        let i = choose|i: int| 0 <= i < longer.len() && longer[i] == x;
        if i < s.len() {
            assert(s[i] == x);
        }
    }
    if s.contains(x) {
        let i = choose|i: int| 0 <= i < s.len() && s[i] == x;
        assert(longer[i] == x);
    }
    assert(longer[s.len() as int] == last);
}

/// The first `i + 1` members of a sequence are the first `i` and the one at
/// `i`.
pub proof fn lemma_next_contains<T>(s: Seq<T>, i: int, x: T)
    requires
        0 <= i < s.len(),
    ensures
        s.take(i + 1).contains(x) <==> s.take(i).contains(x) || x == s[i],
{
    assert(s.take(i + 1) =~= s.take(i).push(s[i]));
    lemma_pushed_contains(s.take(i), s[i], x);
}

/// A sequence is made of its front and its last member.
pub proof fn lemma_last_contains<T>(s: Seq<T>, x: T)
    requires
        s.len() > 0,
    ensures
        s.contains(x) <==> s.drop_last().contains(x) || x == s.last(),
{
    assert(s =~= s.drop_last().push(s.last()));
    lemma_pushed_contains(s.drop_last(), s.last(), x);
}

/// The members of a sequence with one more at its end, as a set, are those
/// of the sequence and the one more.
pub proof fn lemma_pushed_set<T>(s: Seq<T>, last: T)
    ensures
        s.push(last).to_set() == s.to_set().insert(last),
{
    assert forall|x: T| s.push(last).to_set().contains(x) <==> s.to_set().insert(last).contains(
        x,
    ) by {
        lemma_pushed_contains(s, last, x);
    }
    assert(s.push(last).to_set() =~= s.to_set().insert(last));
}

/// Two sequences without repetition that share no member give, joined, a
/// sequence without repetition.
pub proof fn lemma_joined_no_duplicates<T>(a: Seq<T>, b: Seq<T>)
    requires
        a.no_duplicates(),
        b.no_duplicates(),
        forall|x: T| !(a.contains(x) && b.contains(x)),
    ensures
        (a + b).no_duplicates(),
{
    assert forall|i: int, j: int| 0 <= i < (a + b).len() && 0 <= j < (a + b).len() && i
        != j implies (a + b)[i] != (a + b)[j] by {
        if i < a.len() && j < a.len() {
            assert(a[i] != a[j]);
        } else if i >= a.len() && j >= a.len() {
            assert(b[i - a.len()] != b[j - a.len()]);
        } else if i < a.len() {
            assert(a.contains(a[i]));
            assert(b.contains(b[j - a.len()]));
        } else {
            assert(a.contains(a[j]));
            assert(b.contains(b[i - a.len()]));
        }
    }
}

} // verus!
