//! The order in which the mixer adds its voices up makes no difference.

use vstd::prelude::*;
use crate::mixer::{mix, mixed, names_each_once, scaled, span, wrapped, Voice};

verus! {

/// What a voice gives to sample `i` of a buffer of `n` samples: its
/// scaled sample while it has one to give, else nothing.
pub open spec fn gift(v: Voice, i: int, n: int) -> int {
    if i < span(v, n) {
        scaled(v.samples[(v.index + i) % (v.samples.len() as int)], v.volume) as int
    } else {
        0
    }
}

/// What the voices of the numbers in `order` give to sample `i` of a
/// buffer of `n` samples, added up without wrapping.
pub open spec fn total(voices: Map<usize, Voice>, order: Seq<usize>, i: int, n: int) -> int
    decreases order.len(),
{
    if order.len() == 0 {
        0
    } else {
        total(voices, order.drop_last(), i, n) + gift(voices[order.last()], i, n)
    }
}

/// Wrapping a sum that was wrapped on its way is wrapping the whole sum.
proof fn lemma_wrapped_twice(x: int, y: int)
    ensures
        wrapped(wrapped(x) + y) == wrapped(x + y),
{
    let m: int = 0x1_0000;
    let a = x + 0x8000;
    assert(wrapped(x) == a % m - 0x8000);
    assert((a % m + y) % m == (a + y) % m) by {
        vstd::arithmetic::div_mod::lemma_add_mod_noop(a, y, m);
        vstd::arithmetic::div_mod::lemma_add_mod_noop(a % m, y, m);
        vstd::arithmetic::div_mod::lemma_mod_twice(a, m);
    }
}

/// Every sample of a mixed buffer is the wrapped sum of what it was and
/// what the voices gave to it.
pub proof fn lemma_mix_is_a_sum(out: Seq<i16>, voices: Map<usize, Voice>, order: Seq<usize>)
    ensures
        mix(out, voices, order).len() == out.len(),
        forall|i: int|
            0 <= i < out.len() ==> #[trigger] mix(out, voices, order)[i] == wrapped(
                out[i] + total(voices, order, i, out.len() as int),
            ),
    decreases order.len(),
{
    if order.len() > 0 {
        let before = mix(out, voices, order.drop_last());
        let v = voices[order.last()];
        lemma_mix_is_a_sum(out, voices, order.drop_last());
        assert forall|i: int| 0 <= i < out.len() implies #[trigger] mix(out, voices, order)[i]
            == wrapped(out[i] + total(voices, order, i, out.len() as int)) by {
            let t = total(voices, order.drop_last(), i, out.len() as int);
            let g = gift(v, i, out.len() as int);
            assert(before[i] == wrapped(out[i] + t));
            assert(mixed(before, v)[i] == wrapped(before[i] + g));
            lemma_wrapped_twice(out[i] + t, g);
        }
    }
}

/// Leaving one number out of an order takes what its voice gives out of
/// the total.
proof fn lemma_total_without(voices: Map<usize, Voice>, s: Seq<usize>, p: int, i: int, n: int)
    requires
        0 <= p < s.len(),
    ensures
        total(voices, s, i, n) == total(voices, s.remove(p), i, n) + gift(voices[s[p]], i, n),
    decreases s.len(),
{
    if p == s.len() - 1 {
        assert(s.remove(p) =~= s.drop_last());
    } else {
        lemma_total_without(voices, s.drop_last(), p, i, n);
        assert(s.remove(p).drop_last() =~= s.drop_last().remove(p));
        assert(s.remove(p).last() == s.last());
        assert(s.drop_last()[p] == s[p]);
    }
}

/// Two orders that name the same numbers, each once, give the same total.
proof fn lemma_total_of_any_order(
    voices: Map<usize, Voice>,
    a: Seq<usize>,
    b: Seq<usize>,
    i: int,
    n: int,
)
    requires
        a.no_duplicates(),
        b.no_duplicates(),
        a.to_set() == b.to_set(),
    ensures
        total(voices, a, i, n) == total(voices, b, i, n),
    decreases a.len(),
{
    if a.len() == 0 {
        if b.len() > 0 {
            assert(b.contains(b[0]));
            assert(b.to_set().contains(b[0]));
            assert(a.to_set().contains(b[0]));
            assert(a.contains(b[0]));
        }
    } else {
        let x = a.last();
        assert(a.contains(x));
        assert(a.to_set().contains(x));
        assert(b.to_set().contains(x));
        assert(b.contains(x));
        let p = choose|p: int| 0 <= p < b.len() && b[p] == x;
        let a1 = a.drop_last();
        let b1 = b.remove(p);
        assert(a1.no_duplicates());
        assert(b1.no_duplicates()) by {
            assert forall|j: int, k: int| 0 <= j < b1.len() && 0 <= k < b1.len() && j
                != k implies b1[j] != b1[k] by {
                let jj = if j < p {
                    j
                } else {
                    j + 1
                };
                let kk = if k < p {
                    k
                } else {
                    k + 1
                };
                assert(b1[j] == b[jj] && b1[k] == b[kk]);
            }
        }
        assert forall|y: usize| a1.contains(y) <==> b1.contains(y) by {
            if a1.contains(y) {
                let j = choose|j: int| 0 <= j < a1.len() && a1[j] == y;
                assert(a[j] == y);
                assert(y != x);
                assert(a.contains(y));
                assert(a.to_set().contains(y));
                assert(b.to_set().contains(y));
                assert(b.contains(y));
                let k = choose|k: int| 0 <= k < b.len() && b[k] == y;
                assert(k != p);
                let kk = if k < p {
                    k
                } else {
                    k - 1
                };
                assert(b1[kk] == y);
            }
            if b1.contains(y) {
                let k = choose|k: int| 0 <= k < b1.len() && b1[k] == y;
                let kk = if k < p {
                    k
                } else {
                    k + 1
                };
                assert(b[kk] == y);
                assert(y != x);
                assert(b.contains(y));
                assert(b.to_set().contains(y));
                assert(a.to_set().contains(y));
                assert(a.contains(y));
                let j = choose|j: int| 0 <= j < a.len() && a[j] == y;
                assert(j != a.len() - 1);
                assert(a1[j] == y);
            }
        }
        assert(a1.to_set() =~= b1.to_set());
        lemma_total_of_any_order(voices, a1, b1, i, n);
        lemma_total_without(voices, b, p, i, n);
    }
}

/// The mixer may add its voices up in any order: two orders that name
/// every voice once give the same buffer, sample for sample.
pub proof fn mixing_order_is_free(
    out: Seq<i16>,
    voices: Map<usize, Voice>,
    a: Seq<usize>,
    b: Seq<usize>,
)
    requires
        names_each_once(a, voices),
        names_each_once(b, voices),
    ensures
        mix(out, voices, a) == mix(out, voices, b),
{
    lemma_mix_is_a_sum(out, voices, a);
    lemma_mix_is_a_sum(out, voices, b);
    assert forall|i: int| 0 <= i < out.len() implies mix(out, voices, a)[i] == mix(
        out,
        voices,
        b,
    )[i] by {
        lemma_total_of_any_order(voices, a, b, i, out.len() as int);
    }
    assert(mix(out, voices, a) =~= mix(out, voices, b));
}

} // verus!
