use vstd::prelude::*;

verus! {

/// Most resolutions that the settings screen offers.
pub const MAX_RESOLUTIONS: usize = 6;

/// A display mode: width and height in pixels.
pub type Mode = (u32, u32);

/// Modes ordered by width, then height.
pub open spec fn mode_lt(a: Mode, b: Mode) -> bool {
    a.0 < b.0 || (a.0 == b.0 && a.1 < b.1)
}

/// Each mode comes before every later one: sorted, with no repeats.
pub open spec fn strictly_sorted(s: Seq<Mode>) -> bool {
    forall|i: int, j: int| 0 <= i < j < s.len() ==> mode_lt(#[trigger] s[i], #[trigger] s[j])
}

/// A mode with both dimensions nonzero.
pub open spec fn usable(m: Mode) -> bool {
    m.0 > 0 && m.1 > 0
}

/// The distinct usable modes in a reported list.
pub open spec fn usable_modes(modes: Seq<Mode>) -> Set<Mode> {
    Set::new(|m: Mode| modes.contains(m) && usable(m))
}

/// The list of a finite set of modes in increasing order.
pub open spec fn sorted_of(s: Set<Mode>) -> Seq<Mode> {
    choose|u: Seq<Mode>| strictly_sorted(u) && forall|m: Mode| u.contains(m) <==> s.contains(m)
}

/// Position in a sorted list of `len` modes of the `i`-th of six evenly
/// spaced picks: `i * (len - 1) / 5`, rounded to nearest.
pub open spec fn sample_index(i: int, len: int) -> int {
    (i * (len - 1) + 2) / 5
}

/// A sorted list cut down to at most six evenly spaced entries.
pub open spec fn sample(u: Seq<Mode>) -> Seq<Mode> {
    if u.len() <= MAX_RESOLUTIONS {
        u
    } else {
        Seq::new(MAX_RESOLUTIONS as nat, |i: int| u[sample_index(i, u.len() as int)])
    }
}

/// The resolutions offered for a reported list of modes.
pub open spec fn spec_normalize_resolutions(modes: Seq<Mode>) -> Seq<Mode> {
    if usable_modes(modes).is_empty() {
        seq![(800u32, 600u32)]
    } else {
        sample(sorted_of(usable_modes(modes)))
    }
}

/// Two sorted lists without repeats that hold the same modes are the same list.
pub proof fn lemma_strictly_sorted_unique(a: Seq<Mode>, b: Seq<Mode>)
    requires
        strictly_sorted(a),
        strictly_sorted(b),
        forall|m: Mode| a.contains(m) <==> b.contains(m),
    ensures
        a == b,
    decreases a.len(),
{
    if a.len() == 0 {
        if b.len() > 0 {
            assert(b.contains(b[0]));
        }
        assert(a =~= b);
    } else if b.len() == 0 {
        assert(a.contains(a[0]));
    } else {
        assert(a.contains(a[0]));
        assert(b.contains(b[0]));
        let k = choose|k: int| 0 <= k < b.len() && b[k] == a[0];
        let j = choose|j: int| 0 <= j < a.len() && a[j] == b[0];
        if k > 0 && j > 0 {
            assert(mode_lt(b[0], b[k]));
            assert(mode_lt(a[0], a[j]));
        }
        assert(a[0] == b[0]);
        let a1 = a.drop_first();
        let b1 = b.drop_first();
        assert forall|m: Mode| a1.contains(m) implies b1.contains(m) by {
            let i = choose|i: int| 0 <= i < a1.len() && a1[i] == m;
            assert(a[i + 1] == m);
            assert(mode_lt(a[0], a[i + 1]));
            assert(a.contains(m));
            let i2 = choose|i2: int| 0 <= i2 < b.len() && b[i2] == m;
            assert(i2 != 0);
            assert(b1[i2 - 1] == m);
        }
        assert forall|m: Mode| b1.contains(m) implies a1.contains(m) by {
            let i = choose|i: int| 0 <= i < b1.len() && b1[i] == m;
            assert(b[i + 1] == m);
            assert(mode_lt(b[0], b[i + 1]));
            assert(b.contains(m));
            let i2 = choose|i2: int| 0 <= i2 < a.len() && a[i2] == m;
            assert(i2 != 0);
            assert(a1[i2 - 1] == m);
        }
        lemma_strictly_sorted_unique(a1, b1);
        assert(a =~= seq![a[0]] + a1);
        assert(b =~= seq![b[0]] + b1);
    }
}

/// Inserts `m` into a sorted list without repeats, keeping it so.
fn insert_sorted(v: &mut Vec<Mode>, m: Mode)
    requires
        strictly_sorted(old(v)@),
    ensures
        strictly_sorted(final(v)@),
        forall|x: Mode| #[trigger] final(v)@.contains(x) <==> (old(v)@.contains(x) || x == m),
{
    let mut i: usize = 0;
    while i < v.len() && (v[i].0 < m.0 || (v[i].0 == m.0 && v[i].1 < m.1))
        invariant
            i <= v.len(),
            v@ == old(v)@,
            forall|j: int| 0 <= j < i ==> mode_lt(#[trigger] v@[j], m),
        decreases v.len() - i,
    {
        i = i + 1;
    }
    if i < v.len() && v[i].0 == m.0 && v[i].1 == m.1 {
        assert(v@[i as int] == m);
        assert(old(v)@.contains(m));
        return;
    }
    let ghost before = v@;
    assert(before == old(v)@);
    v.insert(i, m);
    assert forall|a: int, b: int| 0 <= a < b < v@.len() implies mode_lt(
        #[trigger] v@[a],
        #[trigger] v@[b],
    ) by {
        if b < i {
        } else if b == i {
        } else if a < i {
            assert(mode_lt(before[a], m));
            assert(!mode_lt(before[i as int], m));
            if a < b - 1 {
                assert(mode_lt(before[a], before[b - 1]));
            }
        } else if a == i {
            assert(!mode_lt(before[i as int], m));
            if i < b - 1 {
                assert(mode_lt(before[i as int], before[b - 1]));
            }
        } else {
            assert(mode_lt(before[a - 1], before[b - 1]));
        }
    }
    assert forall|x: Mode| #[trigger] v@.contains(x) <==> (old(v)@.contains(x) || x == m) by {
        if v@.contains(x) {
            let k = choose|k: int| 0 <= k < v@.len() && v@[k] == x;
            if k < i {
                assert(before[k] == x);
            } else if k > i {
                assert(before[k - 1] == x);
            }
        }
        if before.contains(x) {
            let k = choose|k: int| 0 <= k < before.len() && before[k] == x;
            if k < i {
                assert(v@[k] == x);
            } else {
                assert(v@[k + 1] == x);
            }
        }
        if x == m {
            assert(v@[i as int] == m);
        }
    }
}

/// The resolutions the settings screen offers: the distinct modes with a
/// nonzero size in increasing order, cut down to six evenly spaced ones
/// that keep both extremes, or 800x600 when none is usable.
pub fn normalize_resolutions(modes: Vec<Mode>) -> (r: Vec<Mode>)
    ensures
        r@ == spec_normalize_resolutions(modes@),
        strictly_sorted(r@),
        1 <= r@.len() <= MAX_RESOLUTIONS,
        usable_modes(modes@).is_empty() ==> r@ == seq![(800u32, 600u32)],
        !usable_modes(modes@).is_empty() ==> {
            &&& forall|i: int| 0 <= i < r@.len() ==> usable_modes(modes@).contains(#[trigger] r@[i])
            &&& forall|m: Mode| #[trigger]
                usable_modes(modes@).contains(m) ==> mode_le(r@[0], m) && mode_le(m, r@[r@.len() - 1])
            &&& r@.len() < MAX_RESOLUTIONS ==> forall|m: Mode| #[trigger]
                usable_modes(modes@).contains(m) ==> r@.contains(m)
        },
        spec_normalize_resolutions(r@) == r@,
{
    let mut sorted: Vec<Mode> = Vec::new();
    let n = modes.len();
    let mut k: usize = 0;
    while k < n
        invariant
            n == modes@.len(),
            k <= n,
            strictly_sorted(sorted@),
            forall|x: Mode| #[trigger]
                sorted@.contains(x) <==> (modes@.take(k as int).contains(x) && usable(x)),
        decreases n - k,
    {
        let m = modes[k];
        let ghost before = sorted@;
        let ghost t0 = modes@.take(k as int);
        let ghost t1 = modes@.take(k + 1);
        assert forall|x: Mode| #[trigger] before.contains(x) <==> (t0.contains(x) && usable(x)) by {}
        if m.0 > 0 && m.1 > 0 {
            insert_sorted(&mut sorted, m);
        }
        assert forall|x: Mode| #[trigger] sorted@.contains(x) <==> (t1.contains(x) && usable(x)) by {
            assert(before.contains(x) <==> (t0.contains(x) && usable(x)));
            if t0.contains(x) {
                let j = choose|j: int| 0 <= j < t0.len() && t0[j] == x;
                assert(t1[j] == x);
            }
            if t1.contains(x) {
                let j = choose|j: int| 0 <= j < t1.len() && t1[j] == x;
                if j < k {
                    assert(t0[j] == x);
                }
            }
            assert(t1[k as int] == m);
        }
        k = k + 1;
    }
    let ghost s = usable_modes(modes@);
    assert(modes@.take(n as int) =~= modes@);
    assert forall|x: Mode| sorted@.contains(x) <==> s.contains(x) by {}
    if sorted.len() == 0 {
        assert(s =~= Set::empty()) by {
            assert forall|x: Mode| !s.contains(x) by {
                if s.contains(x) {
                    assert(sorted@.contains(x));
                }
            }
        }
        let r = vec![(800, 600)];
        proof {
            assert(r@ =~= seq![(800u32, 600u32)]);
            lemma_normalized_is_fixed(r@);
        }
        return r;
    }
    assert(sorted@.contains(sorted@[0]));
    assert(s.contains(sorted@[0]));
    assert(!s.is_empty());
    let ghost u = sorted_of(s);
    assert(strictly_sorted(u) && forall|m: Mode| u.contains(m) <==> s.contains(m));
    proof {
        lemma_strictly_sorted_unique(u, sorted@);
    }
    proof {
        lemma_sorted_extremes(sorted@);
    }
    if sorted.len() <= MAX_RESOLUTIONS {
        proof {
            assert forall|i: int| 0 <= i < sorted@.len() implies s.contains(#[trigger] sorted@[i]) by {
                assert(sorted@.contains(sorted@[i]));
            }
            lemma_normalized_is_fixed(sorted@);
        }
        return sorted;
    }
    let last = sorted.len() - 1;
    let mut out: Vec<Mode> = Vec::new();
    for i in 0..MAX_RESOLUTIONS
        invariant
            last + 1 == sorted@.len(),
            last >= MAX_RESOLUTIONS,
            out@.len() == i,
            forall|j: int| 0 <= j < i ==> #[trigger] out@[j] == sorted@[sample_index(j, sorted@.len() as int)],
    {
        let q = last / 5;
        let rem = last % 5;
        assert(q * i <= last && rem * i + 2 <= 22) by (nonlinear_arith)
            requires
                q == last / 5,
                rem == last % 5,
                i < 6,
        ;
        assert(q * i + (rem * i + 2) / 5 == (i * last + 2) / 5 && (i * last + 2) / 5 <= last)
            by (nonlinear_arith)
            requires
                q == last / 5,
                rem == last % 5,
                i < 6,
        ;
        let idx = q * i + (rem * i + 2) / 5;
        out.push(sorted[idx]);
    }
    assert(out@ =~= sample(sorted@));
    proof {
        lemma_sample_keeps_extremes(sorted@);
        assert forall|i: int| 0 <= i < out@.len() implies s.contains(#[trigger] out@[i]) by {
            assert(sorted@.contains(out@[i]));
        }
        lemma_normalized_is_fixed(out@);
    }
    out
}

/// Whether `a` comes no later than `b`.
pub open spec fn mode_le(a: Mode, b: Mode) -> bool {
    a == b || mode_lt(a, b)
}

/// The first entry of a sorted list comes no later than any entry, and the
/// last no earlier.
proof fn lemma_sorted_extremes(u: Seq<Mode>)
    requires
        strictly_sorted(u),
        u.len() > 0,
    ensures
        forall|m: Mode| #[trigger] u.contains(m) ==> mode_le(u[0], m) && mode_le(m, u[u.len() - 1]),
{
    assert forall|m: Mode| #[trigger] u.contains(m) implies mode_le(u[0], m) && mode_le(m, u[u.len() - 1]) by {
        let j = choose|j: int| 0 <= j < u.len() && u[j] == m;
        if j > 0 {
            assert(mode_lt(u[0], u[j]));
        }
        if j < u.len() - 1 {
            assert(mode_lt(u[j], u[u.len() - 1]));
        }
    }
}

/// A sorted list of at most six usable modes is its own normal form.
pub proof fn lemma_normalized_is_fixed(r: Seq<Mode>)
    requires
        strictly_sorted(r),
        1 <= r.len() <= MAX_RESOLUTIONS,
        forall|i: int| 0 <= i < r.len() ==> usable(#[trigger] r[i]),
    ensures
        spec_normalize_resolutions(r) == r,
{
    let s = usable_modes(r);
    assert(r.contains(r[0]));
    assert(s.contains(r[0]));
    assert forall|m: Mode| r.contains(m) <==> s.contains(m) by {
        if r.contains(m) {
            let j = choose|j: int| 0 <= j < r.len() && r[j] == m;
            assert(usable(r[j]));
        }
    }
    assert(strictly_sorted(r) && forall|m: Mode| r.contains(m) <==> s.contains(m));
    let u = sorted_of(s);
    assert(strictly_sorted(u) && forall|m: Mode| u.contains(m) <==> s.contains(m));
    lemma_strictly_sorted_unique(u, r);
}

/// Long mode lists are cut to six entries that keep the smallest and the
/// largest mode, in increasing order and drawn from the list.
pub proof fn lemma_sample_keeps_extremes(u: Seq<Mode>)
    requires
        strictly_sorted(u),
        u.len() > MAX_RESOLUTIONS,
    ensures
        sample(u).len() == MAX_RESOLUTIONS,
        sample(u)[0] == u[0],
        sample(u)[MAX_RESOLUTIONS - 1] == u[u.len() - 1],
        strictly_sorted(sample(u)),
        forall|i: int| 0 <= i < MAX_RESOLUTIONS ==> u.contains(#[trigger] sample(u)[i]),
{
    let n = u.len() as int;
    assert(sample_index(5, n) == n - 1);
    assert forall|i: int, j: int| 0 <= i < j < MAX_RESOLUTIONS implies mode_lt(
        #[trigger] sample(u)[i],
        #[trigger] sample(u)[j],
    ) by {
        assert(sample_index(i, n) < sample_index(j, n)) by (nonlinear_arith)
            requires
                0 <= i < j,
                n > 6,
        ;
        assert(0 <= sample_index(i, n)) by (nonlinear_arith)
            requires
                0 <= i,
                n > 6,
        ;
        assert(sample_index(j, n) < n) by (nonlinear_arith)
            requires
                j < 6,
                n > 6,
        ;
    }
    assert forall|i: int| 0 <= i < MAX_RESOLUTIONS implies u.contains(#[trigger] sample(u)[i]) by {
        assert(0 <= sample_index(i, n) < n) by (nonlinear_arith)
            requires
                0 <= i < 6,
                n > 6,
        ;
    }
}

} // verus!
