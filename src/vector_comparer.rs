//! The difference engine: which lines of two sequences have no equal in the
//! other one.

use vstd::prelude::*;

verus! {

/// The lines of `s` that have no equal in `other`, in the order of `s`,
/// repeated lines kept.
pub open spec fn missing_from<A>(s: Seq<A>, other: Seq<A>) -> Seq<A>
    decreases s.len(),
{
    if s.len() == 0 {
        Seq::empty()
    } else {
        let kept = missing_from(s.drop_last(), other);
        if other.contains(s.last()) {
            kept
        } else {
            kept.push(s.last())
        }
    }
}

/// `acc` followed by each line of `s`, in the order of `s`, that is not already
/// in what has been built so far.
pub open spec fn append_absent<A>(acc: Seq<A>, s: Seq<A>) -> Seq<A>
    decreases s.len(),
{
    if s.len() == 0 {
        acc
    } else {
        let built = append_absent(acc, s.drop_last());
        if built.contains(s.last()) {
            built
        } else {
            built.push(s.last())
        }
    }
}

/// The difference of two line sequences. An empty side yields the other side
/// as it is. Otherwise: the lines of `a` missing from `b` (repeats kept), then
/// the lines of `b` missing from `a`, each at most once overall.
pub open spec fn differences<A>(a: Seq<A>, b: Seq<A>) -> Seq<A> {
    if a.len() == 0 {
        b
    } else if b.len() == 0 {
        a
    } else {
        append_absent(missing_from(a, b), missing_from(b, a))
    }
}

/// Each distinct line of `s` once, in the order of its first occurrence.
pub open spec fn first_occurrences<A>(s: Seq<A>) -> Seq<A> {
    append_absent(Seq::empty(), s)
}

proof fn lemma_missing_from_disjoint<A>(s: Seq<A>, other: Seq<A>)
    requires
        forall|x: A| s.contains(x) ==> !other.contains(x),
    ensures
        missing_from(s, other) == s,
    decreases s.len(),
{
    if s.len() > 0 {
        assert(s.contains(s.last()));
        lemma_missing_from_disjoint(s.drop_last(), other);
        assert(s.drop_last().push(s.last()) =~= s);
    }
}

proof fn lemma_missing_from_covered<A>(s: Seq<A>, other: Seq<A>)
    requires
        forall|x: A| s.contains(x) ==> other.contains(x),
    ensures
        missing_from(s, other) == Seq::<A>::empty(),
    decreases s.len(),
{
    if s.len() > 0 {
        assert(s.contains(s.last()));
        lemma_missing_from_covered(s.drop_last(), other);
    }
}

proof fn lemma_append_absent_split<A>(acc: Seq<A>, s: Seq<A>)
    requires
        forall|x: A| s.contains(x) ==> !acc.contains(x),
    ensures
        append_absent(acc, s) == acc + first_occurrences(s),
    decreases s.len(),
{
    if s.len() > 0 {
        let rest = s.drop_last();
        let x = s.last();
        assert(s.contains(x));
        assert forall|y: A| rest.contains(y) implies !acc.contains(y) by {
            let j = choose|j: int| 0 <= j < rest.len() && rest[j] == y;
            assert(s[j] == y);
        }
        lemma_append_absent_split(acc, rest);
        let d = first_occurrences(rest);
        assert((acc + d).contains(x) == d.contains(x)) by {
            if (acc + d).contains(x) {
                let j = choose|j: int| 0 <= j < (acc + d).len() && (acc + d)[j] == x;
                assert(j >= acc.len());
                assert(d[j - acc.len()] == x);
            }
            if d.contains(x) {
                let j = choose|j: int| 0 <= j < d.len() && d[j] == x;
                assert((acc + d)[j + acc.len()] == x);
            }
        }
        assert((acc + d).push(x) =~= acc + d.push(x));
    }
}

/// Comparing a sequence with an empty one, in either order, yields the
/// sequence itself: every line, repeats included, in its order.
pub proof fn law_empty_side_yields_other(a: Seq<Seq<char>>)
    ensures
        differences(a, Seq::empty()) == a,
        differences(Seq::empty(), a) == a,
{
}

/// Two non-empty sequences without a line in common yield every line of the
/// first, in order and with repeats, followed by each distinct line of the
/// second once, in the order of first occurrence.
pub proof fn law_disjoint_inputs(a: Seq<Seq<char>>, b: Seq<Seq<char>>)
    requires
        a.len() > 0,
        b.len() > 0,
        forall|x: Seq<char>| a.contains(x) ==> !b.contains(x),
    ensures
        differences(a, b) == a + first_occurrences(b),
{
    lemma_missing_from_disjoint(a, b);
    lemma_missing_from_disjoint(b, a);
    lemma_append_absent_split(a, b);
}

/// A sequence compared with itself has no differences.
pub proof fn law_equal_inputs(a: Seq<Seq<char>>)
    ensures
        differences(a, a) == Seq::<Seq<char>>::empty(),
{
    if a.len() > 0 {
        lemma_missing_from_covered(a, a);
    }
}

/// Whether some line of `lines` has the same text as `line`.
fn contains_line(lines: &Vec<String>, line: &String) -> (r: bool)
    ensures
        r == lines.deep_view().contains(line@),
{
    let mut i: usize = 0;
    while i < lines.len()
        invariant
            i <= lines.len(),
            forall|j: int| 0 <= j < i ==> lines.deep_view()[j] != line@,
        decreases lines.len() - i,
    {
        if lines[i].eq(line) {
            assert(lines.deep_view()[i as int] == line@);
            return true;
        }
        i += 1;
    }
    false
}

/// Compares two sequences of lines.
pub trait IVectorComparer<T: DeepView>: Sized {
    /// The first sequence held, as values.
    spec fn first_lines(&self) -> Seq<T::V>;

    /// The second sequence held, as values.
    spec fn second_lines(&self) -> Seq<T::V>;

    fn new(vec1: Vec<T>, vec2: Vec<T>) -> (r: Self)
        ensures
            r.first_lines() == vec1.deep_view(),
            r.second_lines() == vec2.deep_view(),
    ;

    /// The lines that differ between the two sequences held.
    fn get_differences(&self) -> (r: Vec<T>)
        ensures
            r.deep_view() == differences(self.first_lines(), self.second_lines()),
    ;
}

/// Two sequences of lines to compare.
#[derive(Debug, Clone)]
pub struct VectorComparer<T> {
    pub vec1: Vec<T>,
    pub vec2: Vec<T>,
}

impl IVectorComparer<String> for VectorComparer<String> {
    open spec fn first_lines(&self) -> Seq<Seq<char>> {
        self.vec1.deep_view()
    }

    open spec fn second_lines(&self) -> Seq<Seq<char>> {
        self.vec2.deep_view()
    }

    fn new(vec1: Vec<String>, vec2: Vec<String>) -> (r: VectorComparer<String>) {
        VectorComparer::<String> { vec1, vec2 }
    }

    fn get_differences(&self) -> (r: Vec<String>) {
        let ghost a = self.vec1.deep_view();
        let ghost b = self.vec2.deep_view();
        if self.vec1.len() == 0 {
            return self.vec2.clone();
        } else if self.vec2.len() == 0 {
            return self.vec1.clone();
        }
        let mut diff: Vec<String> = Vec::new();
        let mut i: usize = 0;
        while i < self.vec1.len()
            invariant
                i <= self.vec1.len(),
                a == self.vec1.deep_view(),
                b == self.vec2.deep_view(),
                diff.deep_view() == missing_from(a.take(i as int), b),
            decreases self.vec1.len() - i,
        {
            let f = &self.vec1[i];
            assert(a.take(i + 1).drop_last() == a.take(i as int));
            if !contains_line(&self.vec2, f) {
                diff.push(f.clone());
                assert(diff.deep_view() == missing_from(a.take(i as int), b).push(f@));
            }
            i += 1;
        }
        assert(a.take(a.len() as int) == a);
        let ghost base = diff.deep_view();
        let mut k: usize = 0;
        while k < self.vec2.len()
            invariant
                k <= self.vec2.len(),
                a == self.vec1.deep_view(),
                b == self.vec2.deep_view(),
                base == missing_from(a, b),
                diff.deep_view() == append_absent(base, missing_from(b.take(k as int), a)),
            decreases self.vec2.len() - k,
        {
            let f = &self.vec2[k];
            assert(b.take(k + 1).drop_last() == b.take(k as int));
            assert(b.take(k + 1).last() == f@);
            let ghost m = missing_from(b.take(k as int), a);
            assert(m.push(f@).drop_last() =~= m);
            if !contains_line(&self.vec1, f) {
                if !contains_line(&diff, f) {
                    diff.push(f.clone());
                    assert(diff.deep_view() == append_absent(
                        base,
                        missing_from(b.take(k as int), a),
                    ).push(f@));
                }
            }
            k += 1;
        }
        assert(b.take(b.len() as int) == b);
        diff
    }
}

} // verus!
