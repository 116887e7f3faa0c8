use vstd::prelude::*;

verus! {

/// An inclusive interval of integers.
pub type Interval = (u128, u128);

/// A canonical list of intervals: each non-empty, sorted, and separated
/// from the next by at least one integer not in the list.
pub open spec fn iv_wf(s: Seq<Interval>) -> bool {
    &&& forall|i: int| 0 <= i < s.len() ==> (#[trigger] s[i]).0 <= s[i].1
    &&& forall|i: int, j: int| 0 <= i < j < s.len() ==> (#[trigger] s[i]).1 + 1 < (#[trigger] s[j]).0
}

/// `x` lies in one of the intervals of `s`.
pub open spec fn iv_mem(s: Seq<Interval>, x: u128) -> bool {
    exists|i: int| 0 <= i < s.len() && (#[trigger] s[i]).0 <= x <= s[i].1
}

proof fn lemma_mem_push(s: Seq<Interval>, v: Interval, x: u128)
    ensures
        iv_mem(s.push(v), x) == (iv_mem(s, x) || (v.0 <= x <= v.1)),
{
    if iv_mem(s.push(v), x) {
        let i = choose|i: int| 0 <= i < s.push(v).len() && (#[trigger] s.push(v)[i]).0 <= x <= s.push(v)[i].1;
        if i < s.len() {
            assert(s[i] == s.push(v)[i]);
        }
    }
    if iv_mem(s, x) {
        let i = choose|i: int| 0 <= i < s.len() && (#[trigger] s[i]).0 <= x <= s[i].1;
        assert(s.push(v)[i] == s[i]);
    }
    if v.0 <= x <= v.1 {
        assert(s.push(v)[s.len() as int] == v);
    }
}

pub proof fn lemma_mem_extend(s: Seq<Interval>, i: int, x: u128)
    requires
        0 <= i < s.len(),
    ensures
        iv_mem(s.subrange(0, i + 1), x) == (iv_mem(s.subrange(0, i), x) || (s[i].0 <= x <= s[i].1)),
{
    assert(s.subrange(0, i + 1) =~= s.subrange(0, i).push(s[i]));
    lemma_mem_push(s.subrange(0, i), s[i], x);
}

proof fn lemma_wf_push(s: Seq<Interval>, v: Interval)
    requires
        iv_wf(s),
        v.0 <= v.1,
        s.len() > 0 ==> s.last().1 + 1 < v.0,
    ensures
        iv_wf(s.push(v)),
{
    let t = s.push(v);
    assert forall|i: int, j: int| 0 <= i < j < t.len() implies (#[trigger] t[i]).1 + 1 < (
    #[trigger] t[j]).0 by {
        if j == s.len() {
            if i < s.len() - 1 {
                assert(s[i].1 + 1 < s[s.len() - 1].0);
            }
        } else {
            assert(t[i] == s[i] && t[j] == s[j]);
        }
    }
    assert forall|i: int| 0 <= i < t.len() implies (#[trigger] t[i]).0 <= t[i].1 by {
        if i < s.len() {
            assert(t[i] == s[i]);
        }
    }
}

/// The canonical list holding the members of `s` and of `[lo, hi]`.
pub fn insert_interval(s: &Vec<Interval>, lo: u128, hi: u128) -> (r: Vec<Interval>)
    requires
        iv_wf(s@),
        lo <= hi,
    ensures
        iv_wf(r@),
        forall|x: u128| iv_mem(r@, x) == (iv_mem(s@, x) || (lo <= x <= hi)),
{
    let n = s.len();
    let mut r: Vec<Interval> = Vec::new();
    let mut i: usize = 0;
    while i < n && s[i].1 < lo && lo - s[i].1 >= 2
        invariant
            i <= n == s@.len(),
            iv_wf(s@),
            r@ == s@.subrange(0, i as int),
            forall|k: int| 0 <= k < i ==> (#[trigger] s@[k]).1 + 1 < lo,
        decreases n - i,
    {
        r.push(s[i]);
        proof {
            assert(s@.subrange(0, i + 1) =~= s@.subrange(0, i as int).push(s@[i as int]));
        }
        i = i + 1;
    }
    let i0 = i;
    let mut nlo = lo;
    let mut nhi = hi;
    while i < n && (s[i].0 == 0 || s[i].0 - 1 <= nhi)
        invariant
            i0 <= i <= n == s@.len(),
            iv_wf(s@),
            r@ == s@.subrange(0, i0 as int),
            forall|k: int| 0 <= k < i0 ==> (#[trigger] s@[k]).1 + 1 < lo,
            i0 < n ==> !(s@[i0 as int].1 + 1 < lo),
            nlo <= lo <= hi <= nhi,
            i > i0 ==> nlo == if s@[i0 as int].0 < lo { s@[i0 as int].0 } else { lo },
            i == i0 ==> nlo == lo,
            i > i0 ==> nhi >= s@[i - 1].1,
            forall|x: u128|
                (nlo <= x <= nhi) == ((lo <= x <= hi) || iv_mem(
                    s@.subrange(i0 as int, i as int),
                    x,
                )),
        decreases n - i,
    {
        let (a, b) = s[i];
        let ghost na: u128 = if a < nlo { a } else { nlo };
        let ghost nb: u128 = if b > nhi { b } else { nhi };
        proof {
            assert forall|x: u128|
                (na <= x <= nb) == ((lo <= x <= hi) || #[trigger] iv_mem(
                    s@.subrange(i0 as int, i + 1),
                    x,
                )) by {
                let t = s@.subrange(i0 as int, i + 1);
                assert(t =~= s@.subrange(i0 as int, i as int).push(s@[i as int]));
                lemma_mem_push(s@.subrange(i0 as int, i as int), s@[i as int], x);
                if i > i0 {
                    assert(s@[i - 1].1 + 1 < a);
                    assert(s@[i0 as int].0 <= s@[i - 1].0);
                }
            }
        }
        if a < nlo {
            nlo = a;
        }
        if b > nhi {
            nhi = b;
        }
        i = i + 1;
    }
    proof {
        lemma_wf_push(r@, (nlo, nhi));
    }
    let ghost r0 = r@;
    r.push((nlo, nhi));
    let i1 = i;
    proof {
        assert forall|x: u128|
            iv_mem(r@, x) == (iv_mem(s@.subrange(0, i0 as int), x) || (nlo <= x <= nhi)
                || iv_mem(s@.subrange(i1 as int, i as int), x)) by {
            lemma_mem_push(r0, (nlo, nhi), x);
            assert(s@.subrange(i1 as int, i as int) =~= Seq::<Interval>::empty());
        }
    }
    while i < n
        invariant
            i1 <= i <= n == s@.len(),
            iv_wf(s@),
            iv_wf(r@),
            r.len() > 0,
            i < n ==> r@.last().1 + 1 < s@[i as int].0,
            forall|x: u128|
                iv_mem(r@, x) == (iv_mem(s@.subrange(0, i0 as int), x) || (nlo <= x <= nhi)
                    || iv_mem(s@.subrange(i1 as int, i as int), x)),
        decreases n - i,
    {
        proof {
            if i + 1 < n {
                assert(s@[i as int].1 + 1 < s@[i + 1].0);
            }
            lemma_wf_push(r@, s@[i as int]);
        }
        let ghost rp = r@;
        r.push(s[i]);
        i = i + 1;
        proof {
            assert forall|x: u128|
                iv_mem(r@, x) == (iv_mem(s@.subrange(0, i0 as int), x) || (nlo <= x <= nhi)
                    || iv_mem(s@.subrange(i1 as int, i as int), x)) by {
                lemma_mem_push(rp, s@[i - 1], x);
                assert(s@.subrange(i1 as int, i as int) =~= s@.subrange(i1 as int, i - 1).push(
                    s@[i - 1],
                ));
                lemma_mem_push(s@.subrange(i1 as int, i - 1), s@[i - 1], x);
            }
        }
    }
    proof {
        assert forall|x: u128| iv_mem(r@, x) == (iv_mem(s@, x) || (lo <= x <= hi)) by {
            lemma_mem_split3(s@, i0 as int, i1 as int, x);
        }
    }
    r
}

proof fn lemma_mem_split3(s: Seq<Interval>, a: int, b: int, x: u128)
    requires
        0 <= a <= b <= s.len(),
    ensures
        iv_mem(s, x) == (iv_mem(s.subrange(0, a), x) || iv_mem(s.subrange(a, b), x) || iv_mem(
            s.subrange(b, s.len() as int),
            x,
        )),
{
    if iv_mem(s, x) {
        let i = choose|i: int| 0 <= i < s.len() && (#[trigger] s[i]).0 <= x <= s[i].1;
        if i < a {
            assert(s.subrange(0, a)[i] == s[i]);
        } else if i < b {
            assert(s.subrange(a, b)[i - a] == s[i]);
        } else {
            assert(s.subrange(b, s.len() as int)[i - b] == s[i]);
        }
    }
    if iv_mem(s.subrange(0, a), x) {
        let i = choose|i: int| 0 <= i < a && (#[trigger] s.subrange(0, a)[i]).0 <= x <= s.subrange(0, a)[i].1;
        assert(s.subrange(0, a)[i] == s[i]);
    }
    if iv_mem(s.subrange(a, b), x) {
        let i = choose|i: int| 0 <= i < b - a && (#[trigger] s.subrange(a, b)[i]).0 <= x <= s.subrange(a, b)[i].1;
        assert(s.subrange(a, b)[i] == s[i + a]);
    }
    if iv_mem(s.subrange(b, s.len() as int), x) {
        let i = choose|i: int|
            0 <= i < s.len() - b && (#[trigger] s.subrange(b, s.len() as int)[i]).0 <= x <= s.subrange(
                b,
                s.len() as int,
            )[i].1;
        assert(s.subrange(b, s.len() as int)[i] == s[i + b]);
    }
}

/// A copy of the list `s`.
pub fn copy_list(s: &Vec<Interval>) -> (r: Vec<Interval>)
    ensures
        r@ == s@,
{
    let mut r: Vec<Interval> = Vec::new();
    let mut i: usize = 0;
    while i < s.len()
        invariant
            i <= s@.len(),
            r@ == s@.subrange(0, i as int),
        decreases s@.len() - i,
    {
        r.push(s[i]);
        proof {
            assert(s@.subrange(0, i + 1) =~= s@.subrange(0, i as int).push(s@[i as int]));
        }
        i = i + 1;
    }
    proof {
        assert(s@.subrange(0, s@.len() as int) =~= s@);
    }
    r
}

/// The canonical list holding the members of `s` outside `[lo, hi]`.
pub fn remove_interval(s: &Vec<Interval>, lo: u128, hi: u128) -> (r: Vec<Interval>)
    requires
        iv_wf(s@),
        lo <= hi,
    ensures
        iv_wf(r@),
        forall|x: u128| iv_mem(r@, x) == (iv_mem(s@, x) && !(lo <= x <= hi)),
{
    let n = s.len();
    let mut r: Vec<Interval> = Vec::new();
    let mut i: usize = 0;
    while i < n
        invariant
            i <= n == s@.len(),
            iv_wf(s@),
            iv_wf(r@),
            lo <= hi,
            r@.len() > 0 ==> i > 0 && r@.last().1 <= s@[i - 1].1,
            forall|x: u128|
                iv_mem(r@, x) == (iv_mem(s@.subrange(0, i as int), x) && !(lo <= x <= hi)),
        decreases n - i,
    {
        let (a, b) = s[i];
        let ghost r0 = r@;
        proof {
            if r@.len() > 0 {
                assert(s@[i - 1].1 + 1 < s@[i as int].0);
            }
        }
        if b < lo || a > hi {
            proof {
                lemma_wf_push(r@, (a, b));
            }
            r.push((a, b));
            proof {
                assert forall|x: u128|
                    iv_mem(r@, x) == (iv_mem(s@.subrange(0, i + 1), x) && !(lo <= x <= hi)) by {
                    lemma_mem_push(r0, (a, b), x);
                    lemma_mem_extend(s@, i as int, x);
                }
            }
        } else {
            if a < lo {
                proof {
                    lemma_wf_push(r@, (a, (lo - 1) as u128));
                }
                r.push((a, lo - 1));
            }
            let ghost r1 = r@;
            if b > hi {
                proof {
                    if a < lo {
                        assert(r@.last() == (a, (lo - 1) as u128));
                        assert(r@.last().1 + 1 < hi + 1);
                    } else if r@.len() > 0 {
                        assert(r@ == r0);
                        assert(r0.last().1 <= s@[i - 1].1);
                        assert(s@[i - 1].1 + 1 < a);
                        assert(a <= hi);
                        assert(r@.last().1 + 1 < hi + 1);
                    }
                    lemma_wf_push(r@, ((hi + 1) as u128, b));
                }
                r.push((hi + 1, b));
            }
            proof {
                assert forall|x: u128|
                    iv_mem(r@, x) == (iv_mem(s@.subrange(0, i + 1), x) && !(lo <= x <= hi)) by {
                    if a < lo {
                        lemma_mem_push(r0, (a, (lo - 1) as u128), x);
                    }
                    if b > hi {
                        lemma_mem_push(r1, ((hi + 1) as u128, b), x);
                    }
                    lemma_mem_extend(s@, i as int, x);
                }
            }
        }
        i = i + 1;
    }
    proof {
        assert(s@.subrange(0, n as int) =~= s@);
    }
    r
}

/// The canonical list holding the members of `a` or `b`.
pub fn union(a: &Vec<Interval>, b: &Vec<Interval>) -> (r: Vec<Interval>)
    requires
        iv_wf(a@),
        iv_wf(b@),
    ensures
        iv_wf(r@),
        forall|x: u128| iv_mem(r@, x) == (iv_mem(a@, x) || iv_mem(b@, x)),
{
    let mut r = copy_list(a);
    let mut k: usize = 0;
    while k < b.len()
        invariant
            k <= b@.len(),
            iv_wf(b@),
            iv_wf(r@),
            forall|x: u128|
                iv_mem(r@, x) == (iv_mem(a@, x) || iv_mem(b@.subrange(0, k as int), x)),
        decreases b@.len() - k,
    {
        let (lo, hi) = b[k];
        let ghost r0 = r@;
        r = insert_interval(&r, lo, hi);
        proof {
            assert forall|x: u128|
                iv_mem(r@, x) == (iv_mem(a@, x) || iv_mem(b@.subrange(0, k + 1), x)) by {
                lemma_mem_extend(b@, k as int, x);
            }
        }
        k = k + 1;
    }
    proof {
        assert(b@.subrange(0, b@.len() as int) =~= b@);
    }
    r
}

/// The canonical list holding the members of `a` not in `b`.
pub fn difference(a: &Vec<Interval>, b: &Vec<Interval>) -> (r: Vec<Interval>)
    requires
        iv_wf(a@),
        iv_wf(b@),
    ensures
        iv_wf(r@),
        forall|x: u128| iv_mem(r@, x) == (iv_mem(a@, x) && !iv_mem(b@, x)),
{
    let mut r = copy_list(a);
    let mut k: usize = 0;
    while k < b.len()
        invariant
            k <= b@.len(),
            iv_wf(b@),
            iv_wf(r@),
            forall|x: u128|
                iv_mem(r@, x) == (iv_mem(a@, x) && !iv_mem(b@.subrange(0, k as int), x)),
        decreases b@.len() - k,
    {
        let (lo, hi) = b[k];
        r = remove_interval(&r, lo, hi);
        proof {
            assert forall|x: u128|
                iv_mem(r@, x) == (iv_mem(a@, x) && !iv_mem(b@.subrange(0, k + 1), x)) by {
                lemma_mem_extend(b@, k as int, x);
            }
        }
        k = k + 1;
    }
    proof {
        assert(b@.subrange(0, b@.len() as int) =~= b@);
    }
    r
}

/// The canonical list holding the members of both `a` and `b`.
pub fn intersection(a: &Vec<Interval>, b: &Vec<Interval>) -> (r: Vec<Interval>)
    requires
        iv_wf(a@),
        iv_wf(b@),
    ensures
        iv_wf(r@),
        forall|x: u128| iv_mem(r@, x) == (iv_mem(a@, x) && iv_mem(b@, x)),
{
    let d = difference(a, b);
    difference(a, &d)
}

/// `x` lies in one of the intervals of `s`.
pub fn contains(s: &Vec<Interval>, x: u128) -> (r: bool)
    ensures
        r == iv_mem(s@, x),
{
    let mut i: usize = 0;
    while i < s.len()
        invariant
            i <= s@.len(),
            forall|k: int| 0 <= k < i ==> !((#[trigger] s@[k]).0 <= x <= s@[k].1),
        decreases s@.len() - i,
    {
        let (a, b) = s[i];
        if a <= x && x <= b {
            return true;
        }
        i = i + 1;
    }
    false
}

/// Two lists are equal.
pub fn equal(a: &Vec<Interval>, b: &Vec<Interval>) -> (r: bool)
    ensures
        r == (a@ == b@),
{
    if a.len() != b.len() {
        return false;
    }
    let mut i: usize = 0;
    while i < a.len()
        invariant
            i <= a@.len() == b@.len(),
            forall|k: int| 0 <= k < i ==> a@[k] == b@[k],
        decreases a@.len() - i,
    {
        let (p, q) = a[i];
        let (u, v) = b[i];
        if p != u || q != v {
            return false;
        }
        i = i + 1;
    }
    assert(a@ =~= b@);
    true
}

/// A canonical list is determined by its members.
pub proof fn lemma_canonical(a: Seq<Interval>, b: Seq<Interval>)
    requires
        iv_wf(a),
        iv_wf(b),
        forall|x: u128| iv_mem(a, x) == iv_mem(b, x),
    ensures
        a == b,
    decreases a.len() + b.len(),
{
    if a.len() == 0 || b.len() == 0 {
        if a.len() > 0 {
            assert(iv_mem(a, a[0].0));
            assert(false);
        }
        if b.len() > 0 {
            assert(iv_mem(b, b[0].0));
            assert(false);
        }
        assert(a =~= b);
    } else {
        let (p, q) = a[0];
        let (u, v) = b[0];
        assert(iv_mem(a, p));
        assert(iv_mem(b, u));
        // the least members agree
        if p < u {
            assert(iv_mem(b, p));
            let j = choose|j: int| 0 <= j < b.len() && (#[trigger] b[j]).0 <= p <= b[j].1;
            if j > 0 {
                assert(b[0].1 + 1 < b[j].0);
            }
            assert(false);
        }
        if u < p {
            assert(iv_mem(a, u));
            let j = choose|j: int| 0 <= j < a.len() && (#[trigger] a[j]).0 <= u <= a[j].1;
            if j > 0 {
                assert(a[0].1 + 1 < a[j].0);
            }
            assert(false);
        }
        // the first intervals end together
        if q < v {
            let y = (q + 1) as u128;
            assert(iv_mem(b, y));
            let j = choose|j: int| 0 <= j < a.len() && (#[trigger] a[j]).0 <= y <= a[j].1;
            if j > 0 {
                assert(a[0].1 + 1 < a[j].0);
            }
            assert(false);
        }
        if v < q {
            let y = (v + 1) as u128;
            assert(iv_mem(a, y));
            let j = choose|j: int| 0 <= j < b.len() && (#[trigger] b[j]).0 <= y <= b[j].1;
            if j > 0 {
                assert(b[0].1 + 1 < b[j].0);
            }
            assert(false);
        }
        let ra = a.drop_first();
        let rb = b.drop_first();
        assert forall|x: u128| iv_mem(ra, x) == iv_mem(rb, x) by {
            lemma_mem_tail(a, x);
            lemma_mem_tail(b, x);
        }
        assert(iv_wf(ra)) by {
            assert forall|i: int, j: int| 0 <= i < j < ra.len() implies (#[trigger] ra[i]).1 + 1 < (
            #[trigger] ra[j]).0 by {
                assert(ra[i] == a[i + 1] && ra[j] == a[j + 1]);
            }
            assert forall|i: int| 0 <= i < ra.len() implies (#[trigger] ra[i]).0 <= ra[i].1 by {
                assert(ra[i] == a[i + 1]);
            }
        }
        assert(iv_wf(rb)) by {
            assert forall|i: int, j: int| 0 <= i < j < rb.len() implies (#[trigger] rb[i]).1 + 1 < (
            #[trigger] rb[j]).0 by {
                assert(rb[i] == b[i + 1] && rb[j] == b[j + 1]);
            }
            assert forall|i: int| 0 <= i < rb.len() implies (#[trigger] rb[i]).0 <= rb[i].1 by {
                assert(rb[i] == b[i + 1]);
            }
        }
        lemma_canonical(ra, rb);
        assert(a =~= seq![a[0]] + ra);
        assert(b =~= seq![b[0]] + rb);
    }
}

/// The members of the tail of a canonical list are the members beyond its
/// first interval.
proof fn lemma_mem_tail(a: Seq<Interval>, x: u128)
    requires
        iv_wf(a),
        a.len() > 0,
    ensures
        iv_mem(a.drop_first(), x) == (iv_mem(a, x) && x > a[0].1),
{
    if iv_mem(a.drop_first(), x) {
        let j = choose|j: int| 0 <= j < a.len() - 1 && (#[trigger] a.drop_first()[j]).0 <= x <= a.drop_first()[j].1;
        assert(a.drop_first()[j] == a[j + 1]);
        assert(a[0].1 + 1 < a[j + 1].0);
    }
    if iv_mem(a, x) && x > a[0].1 {
        let j = choose|j: int| 0 <= j < a.len() && (#[trigger] a[j]).0 <= x <= a[j].1;
        assert(j != 0);
        assert(a.drop_first()[j - 1] == a[j]);
    }
}

} // verus!
