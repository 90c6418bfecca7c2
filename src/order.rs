use vstd::prelude::*;
use vstd::seq_lib::{to_multiset_build, to_multiset_insert};
use crate::model::{Task, TimeEntry, User};

verus! {

/// Rows with a listing order: a total preorder, `before` meaning "may be
/// listed no later than".
pub trait Ranked: Sized {
    spec fn before(self, other: Self) -> bool;

    /// The order is total and transitive.
    proof fn lemma_order(a: Self, b: Self, c: Self)
        ensures
            a.before(b) || b.before(a),
            a.before(b) && b.before(c) ==> a.before(c),
    ;

    fn comes_first(&self, other: &Self) -> (r: bool)
        ensures
            r == self.before(*other),
    ;

    fn duplicate(&self) -> (r: Self)
        ensures
            r == *self,
    ;
}

/// Tasks are listed most recently updated first.
impl Ranked for Task {
    open spec fn before(self, other: Self) -> bool {
        self.updated_at >= other.updated_at
    }

    proof fn lemma_order(a: Self, b: Self, c: Self) {
    }

    fn comes_first(&self, other: &Self) -> (r: bool) {
        self.updated_at >= other.updated_at
    }

    fn duplicate(&self) -> (r: Task) {
        self.copy()
    }
}

/// Time entries are listed newest first.
impl Ranked for TimeEntry {
    open spec fn before(self, other: Self) -> bool {
        self.created_at >= other.created_at
    }

    proof fn lemma_order(a: Self, b: Self, c: Self) {
    }

    fn comes_first(&self, other: &Self) -> (r: bool) {
        self.created_at >= other.created_at
    }

    fn duplicate(&self) -> (r: TimeEntry) {
        self.copy()
    }
}

/// Accounts are listed newest first.
impl Ranked for User {
    open spec fn before(self, other: Self) -> bool {
        self.created_at >= other.created_at
    }

    proof fn lemma_order(a: Self, b: Self, c: Self) {
    }

    fn comes_first(&self, other: &Self) -> (r: bool) {
        self.created_at >= other.created_at
    }

    fn duplicate(&self) -> (r: User) {
        self.copy()
    }
}

/// Each row of `s` may be listed no later than those after it.
pub open spec fn ranked<T: Ranked>(s: Seq<T>) -> bool {
    forall|i: int, j: int| 0 <= i < j < s.len() ==> (#[trigger] s[i]).before(#[trigger] s[j])
}

/// The rows of `v` in listing order; rows that tie keep their order.
pub fn sort_by_rank<T: Ranked>(v: &Vec<T>) -> (r: Vec<T>)
    ensures
        ranked(r@),
        r@.to_multiset() == v@.to_multiset(),
{
    let mut out: Vec<T> = Vec::new();
    assert(out@ =~= v@.subrange(0, 0));
    let mut i: usize = 0;
    while i < v.len()
        invariant
            0 <= i <= v@.len(),
            ranked(out@),
            out@.to_multiset() == v@.subrange(0, i as int).to_multiset(),
        decreases v@.len() - i,
    {
        let x = v[i].duplicate();
        let mut j: usize = 0;
        let mut found = false;
        while j < out.len() && !found
            invariant
                0 <= j <= out@.len(),
                forall|k: int| 0 <= k < j ==> (#[trigger] out@[k]).before(x),
                found ==> j < out@.len() && !out@[j as int].before(x),
            decreases out@.len() - j + (if found {
                0int
            } else {
                1int
            }),
        {
            if out[j].comes_first(&x) {
                j = j + 1;
            } else {
                found = true;
            }
        }
        let ghost prev = out@;
        out.insert(j, x);
        proof {
            assert(out@ == prev.insert(j as int, x));
            assert forall|a: int, b: int| 0 <= a < b < out@.len() implies (#[trigger] out@[a]).before(
                #[trigger] out@[b],
            ) by {
                if b < j {
                    assert(out@[a] == prev[a] && out@[b] == prev[b]);
                } else if b == j {
                    assert(out@[a] == prev[a]);
                } else if a == j {
                    assert(out@[b] == prev[b - 1]);
                    T::lemma_order(x, prev[j as int], prev[b - 1]);
                    if b - 1 > j {
                        assert(prev[j as int].before(prev[b - 1]));
                    }
                } else if a < j {
                    assert(out@[a] == prev[a] && out@[b] == prev[b - 1]);
                } else {
                    assert(out@[a] == prev[a - 1] && out@[b] == prev[b - 1]);
                }
            }
            to_multiset_insert(prev, j as int, x);
            assert(v@.subrange(0, i + 1) =~= v@.subrange(0, i as int).push(v@[i as int]));
            to_multiset_build(v@.subrange(0, i as int), v@[i as int]);
        }
        i = i + 1;
    }
    proof {
        assert(v@.subrange(0, v@.len() as int) =~= v@);
    }
    out
}

/// `a` sorts no later than `b`, comparing characters from the first on.
pub open spec fn lex_le(a: Seq<char>, b: Seq<char>) -> bool
    decreases a.len(),
{
    if a.len() == 0 {
        true
    } else if b.len() == 0 {
        false
    } else if a[0] != b[0] {
        a[0] < b[0]
    } else {
        lex_le(a.drop_first(), b.drop_first())
    }
}

/// Character order on texts is total, antisymmetric and transitive.
pub proof fn lemma_lex(a: Seq<char>, b: Seq<char>, c: Seq<char>)
    ensures
        lex_le(a, b) || lex_le(b, a),
        lex_le(a, b) && lex_le(b, a) ==> a == b,
        lex_le(a, b) && lex_le(b, c) ==> lex_le(a, c),
    decreases a.len(),
{
    if a.len() > 0 && b.len() > 0 && a[0] == b[0] {
        if c.len() > 0 {
            lemma_lex(a.drop_first(), b.drop_first(), c.drop_first());
        } else {
            lemma_lex(a.drop_first(), b.drop_first(), c);
        }
        if lex_le(a, b) && lex_le(b, a) {
            assert(a.drop_first() == b.drop_first());
            assert(a =~= b) by {
                assert forall|i: int| 0 <= i < a.len() implies a[i] == b[i] by {
                    if i > 0 {
                        assert(a[i] == a.drop_first()[i - 1]);
                        assert(b[i] == b.drop_first()[i - 1]);
                    }
                }
            }
        }
    }
    if a.len() == 0 && b.len() == 0 {
        assert(a =~= b);
    }
}

/// Whether `a` sorts no later than `b` in character order.
pub fn text_le(a: &String, b: &String) -> (r: bool)
    ensures
        r == lex_le(a@, b@),
{
    let x = a.as_str();
    let y = b.as_str();
    let n = x.unicode_len();
    let m = y.unicode_len();
    let mut i: usize = 0;
    assert(a@.subrange(0, n as int) =~= a@);
    assert(b@.subrange(0, m as int) =~= b@);
    while i < n && i < m
        invariant
            i <= n,
            i <= m,
            n == x@.len(),
            m == y@.len(),
            x@ == a@,
            y@ == b@,
            lex_le(a@, b@) == lex_le(a@.subrange(i as int, n as int), b@.subrange(i as int, m as int)),
        decreases n - i,
    {
        let c = x.get_char(i);
        let d = y.get_char(i);
        let ghost xs = a@.subrange(i as int, n as int);
        let ghost ys = b@.subrange(i as int, m as int);
        assert(xs[0] == c && ys[0] == d);
        if c != d {
            return c < d;
        }
        assert(xs.drop_first() =~= a@.subrange(i + 1, n as int));
        assert(ys.drop_first() =~= b@.subrange(i + 1, m as int));
        i = i + 1;
    }
    if i == n {
        assert(a@.subrange(i as int, n as int).len() == 0);
        true
    } else {
        assert(b@.subrange(i as int, m as int).len() == 0);
        false
    }
}

} // verus!
