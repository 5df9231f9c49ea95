//! Byte chunks written out front first: the facts shared by every function
//! that accounts for a partial write over a sequence of buffers.

use vstd::prelude::*;

verus! {

/// The number of bytes held by the first `j` chunks of `s`.
pub open spec fn prefix_len(s: Seq<Seq<u8>>, j: int) -> int
    decreases j,
{
    if j <= 0 || s.len() == 0 {
        0
    } else {
        s[0].len() + prefix_len(s.drop_first(), j - 1)
    }
}

/// The number of bytes held by all chunks of `s`.
pub open spec fn total_len(s: Seq<Seq<u8>>) -> int {
    prefix_len(s, s.len() as int)
}

/// Every chunk of `s` holds at least one byte.
pub open spec fn all_nonempty(s: Seq<Seq<u8>>) -> bool {
    forall|i: int| 0 <= i < s.len() ==> #[trigger] s[i].len() > 0
}

/// Every chunk of `s` fits in one I/O slice on every platform: at most
/// `u32::MAX` bytes.
pub open spec fn fits_io_slices(s: Seq<Seq<u8>>) -> bool {
    forall|i: int| 0 <= i < s.len() ==> #[trigger] s[i].len() <= u32::MAX
}

/// The bytes of `s` once the first `n` of them are gone, still cut at the
/// chunk boundaries of `s`: the chunks written whole are dropped and the
/// first chunk written in part loses its written front.
pub open spec fn drop_written(s: Seq<Seq<u8>>, n: int) -> Seq<Seq<u8>>
    decreases s.len(),
{
    if s.len() == 0 {
        s
    } else if s[0].len() <= n {
        drop_written(s.drop_first(), n - s[0].len())
    } else {
        s.update(0, s[0].skip(n))
    }
}

/// Adding one more chunk to a prefix adds its length.
pub proof fn lemma_prefix_len_step(s: Seq<Seq<u8>>, k: int)
    requires
        0 <= k < s.len(),
    ensures
        prefix_len(s, k + 1) == prefix_len(s, k) + s[k].len(),
    decreases k,
{
    let t = s.drop_first();
    assert(prefix_len(s, k + 1) == s[0].len() + prefix_len(t, k));
    if k > 0 {
        assert(t[k - 1] == s[k]);
        assert(prefix_len(s, k) == s[0].len() + prefix_len(t, k - 1));
        lemma_prefix_len_step(t, k - 1);
    } else {
        assert(prefix_len(t, 0) == 0);
    }
}

/// A prefix never holds more bytes than a longer prefix.
pub proof fn lemma_prefix_len_monotone(s: Seq<Seq<u8>>, j: int, k: int)
    requires
        0 <= j <= k <= s.len(),
    ensures
        0 <= prefix_len(s, j) <= prefix_len(s, k),
    decreases k - j,
{
    if j < k {
        lemma_prefix_len_step(s, k - 1);
        lemma_prefix_len_monotone(s, j, k - 1);
    } else {
        lemma_prefix_len_nonneg(s, j);
    }
}

/// Prefix lengths are never negative.
pub proof fn lemma_prefix_len_nonneg(s: Seq<Seq<u8>>, j: int)
    ensures
        prefix_len(s, j) >= 0,
    decreases j,
{
    if j > 0 && s.len() > 0 {
        lemma_prefix_len_nonneg(s.drop_first(), j - 1);
    }
}

/// The concatenation of all chunks holds `total_len` bytes.
pub proof fn lemma_flatten_len(s: Seq<Seq<u8>>)
    ensures
        s.flatten().len() == total_len(s),
    decreases s.len(),
{
    if s.len() > 0 {
        lemma_flatten_len(s.drop_first());
    }
}

/// Dropping the bytes of the first `k` chunks from the concatenation leaves
/// the concatenation of the other chunks.
pub proof fn lemma_flatten_skip_prefix(s: Seq<Seq<u8>>, k: int)
    requires
        0 <= k <= s.len(),
    ensures
        s.flatten().skip(prefix_len(s, k)) =~= s.skip(k).flatten(),
    decreases k,
{
    if k > 0 {
        let t = s.drop_first();
        lemma_flatten_skip_prefix(t, k - 1);
        lemma_prefix_len_monotone(t, k - 1, t.len() as int);
        lemma_flatten_len(t);
        let x = prefix_len(t, k - 1);
        assert(prefix_len(s, k) == s[0].len() + x);
        assert(s.flatten() == s[0] + t.flatten());
        assert((s[0] + t.flatten()).skip(s[0].len() + x) =~= t.flatten().skip(x));
        assert(s.skip(k) =~= t.skip(k - 1));
    } else {
        assert(s.skip(0) =~= s);
    }
}

/// Trimming the front of the first chunk trims the concatenation.
pub proof fn lemma_flatten_trim_first(s: Seq<Seq<u8>>, t: int)
    requires
        s.len() > 0,
        0 <= t <= s[0].len(),
    ensures
        s.update(0, s[0].skip(t)).flatten() =~= s.flatten().skip(t),
{
    let u = s.update(0, s[0].skip(t));
    assert(u.drop_first() =~= s.drop_first());
    assert(u.flatten() == u[0] + u.drop_first().flatten());
    assert(s.flatten() == s[0] + s.drop_first().flatten());
}

/// What `drop_written` leaves is exactly the concatenation without its
/// first `n` bytes.
pub proof fn lemma_drop_written_flatten(s: Seq<Seq<u8>>, n: int)
    requires
        0 <= n <= total_len(s),
    ensures
        drop_written(s, n).flatten() =~= s.flatten().skip(n),
    decreases s.len(),
{
    if s.len() > 0 {
        let t = s.drop_first();
        lemma_flatten_len(t);
        assert(s.flatten() == s[0] + t.flatten());
        if s[0].len() <= n {
            lemma_drop_written_flatten(t, n - s[0].len());
            assert((s[0] + t.flatten()).skip(n) =~= t.flatten().skip(n - s[0].len()));
        } else {
            lemma_flatten_trim_first(s, n);
        }
    } else {
        assert(s.flatten() =~= Seq::<u8>::empty());
    }
}

/// When `n` falls inside chunk `k`, `drop_written` keeps the chunks from `k`
/// on, with chunk `k` trimmed by the rest of `n`.
pub proof fn lemma_drop_written_at(s: Seq<Seq<u8>>, n: int, k: int)
    requires
        0 <= k < s.len(),
        prefix_len(s, k) <= n < prefix_len(s, k + 1),
    ensures
        drop_written(s, n) =~= s.skip(k).update(0, s[k].skip(n - prefix_len(s, k))),
    decreases k,
{
    lemma_prefix_len_step(s, k);
    if k > 0 {
        let t = s.drop_first();
        lemma_prefix_len_step(t, k - 1);
        lemma_prefix_len_nonneg(t, k - 1);
        assert(s[0].len() <= n);
        lemma_drop_written_at(t, n - s[0].len(), k - 1);
        assert(s.skip(k) =~= t.skip(k - 1));
    } else {
        assert(s.skip(0) =~= s);
    }
}

/// When `n` covers every byte, `drop_written` leaves no chunk.
pub proof fn lemma_drop_written_all(s: Seq<Seq<u8>>, n: int)
    requires
        total_len(s) <= n,
    ensures
        drop_written(s, n) =~= Seq::<Seq<u8>>::empty(),
    decreases s.len(),
{
    if s.len() > 0 {
        let t = s.drop_first();
        lemma_prefix_len_nonneg(t, t.len() as int);
        lemma_drop_written_all(t, n - s[0].len());
    }
}

/// The concatenation of two runs of chunks is the concatenation of each.
pub proof fn lemma_flatten_append(a: Seq<Seq<u8>>, b: Seq<Seq<u8>>)
    ensures
        (a + b).flatten() =~= a.flatten() + b.flatten(),
    decreases a.len(),
{
    if a.len() == 0 {
        assert(a + b =~= b);
    } else {
        lemma_flatten_append(a.drop_first(), b);
        assert((a + b).drop_first() =~= a.drop_first() + b);
    }
}

/// Dropping written bytes only shortens chunks: what fitted in I/O slices
/// still does.
pub proof fn lemma_drop_written_fits(s: Seq<Seq<u8>>, n: int)
    requires
        0 <= n,
        fits_io_slices(s),
    ensures
        fits_io_slices(drop_written(s, n)),
    decreases s.len(),
{
    if s.len() > 0 {
        let t = s.drop_first();
        if s[0].len() <= n {
            assert forall|i: int| 0 <= i < t.len() implies #[trigger] t[i].len() <= u32::MAX by {
                assert(t[i] == s[i + 1]);
            }
            lemma_drop_written_fits(t, n - s[0].len());
        } else {
            let u = drop_written(s, n);
            assert(u == s.update(0, s[0].skip(n)));
            assert forall|i: int| 0 <= i < u.len() implies #[trigger] u[i].len() <= u32::MAX by {
                if i == 0 {
                    assert(u[0] == s[0].skip(n));
                    assert(s[0].len() <= u32::MAX);
                } else {
                    assert(u[i] == s[i]);
                }
            }
        }
    }
}

} // verus!
