use vstd::prelude::*;

use crate::app::SortKey;
use crate::text::{lowercase, to_lowercase_chars};

verus! {

/// One row of the process table.
pub struct ProcessInfo {
    pub pid: u32,
    pub name: String,
    /// CPU usage as an order key: the bits of the `f32` percentage, arranged
    /// so that comparing keys compares the percentages (a non-negative value
    /// `x` has the key `x.to_bits() | 0x8000_0000`).
    pub cpu: u32,
    /// Resident memory in bytes.
    pub mem: u64,
    pub status: String,
}

impl Clone for ProcessInfo {
    fn clone(&self) -> (r: Self)
        ensures
            r == *self,
    {
        ProcessInfo {
            pid: self.pid,
            name: self.name.clone(),
            cpu: self.cpu,
            mem: self.mem,
            status: self.status.clone(),
        }
    }
}

/// Lexicographic order on characters by code point, which is the order of
/// `String`'s `Ord` (UTF-8 preserves code point order byte by byte).
pub open spec fn lex_le(a: Seq<char>, b: Seq<char>) -> bool
    decreases a.len(),
{
    if a.len() == 0 {
        true
    } else if b.len() == 0 {
        false
    } else if a[0] < b[0] {
        true
    } else if a[0] == b[0] {
        lex_le(a.drop_first(), b.drop_first())
    } else {
        false
    }
}

/// Whether `a` may stand before `b` when the table is ordered by `sort`
/// (ascending): CPU, memory and PID by value, names by their lowercase form.
pub open spec fn key_le(sort: SortKey, a: ProcessInfo, b: ProcessInfo) -> bool {
    match sort {
        SortKey::Cpu => a.cpu <= b.cpu,
        SortKey::Memory => a.mem <= b.mem,
        SortKey::Name => lex_le(lowercase(a.name@), lowercase(b.name@)),
        SortKey::Pid => a.pid <= b.pid,
    }
}

/// `p` lists each index below `n` exactly once.
pub open spec fn is_permutation(p: Seq<int>, n: int) -> bool {
    &&& p.len() == n
    &&& forall|i: int| 0 <= i < n ==> 0 <= #[trigger] p[i] < n
    &&& forall|i: int, j: int| 0 <= i < j < n ==> p[i] != p[j]
    &&& forall|v: int| 0 <= v < n ==> #[trigger] p.contains(v)
}

/// `new` is `old` rearranged by `p` (`new[i]` is `old[p[i]]`), in ascending
/// `sort` order, with rows of equal key in their original relative order.
pub open spec fn stably_sorted_by(
    sort: SortKey,
    old: Seq<ProcessInfo>,
    new: Seq<ProcessInfo>,
    p: Seq<int>,
) -> bool {
    &&& new.len() == old.len()
    &&& is_permutation(p, old.len() as int)
    &&& forall|i: int| 0 <= i < new.len() ==> #[trigger] new[i] == old[p[i]]
    &&& forall|i: int, j: int| 0 <= i < j < new.len() ==> key_le(sort, #[trigger] new[i], #[trigger] new[j])
    &&& forall|i: int, j: int|
        0 <= i < j < new.len() && key_le(sort, #[trigger] new[j], #[trigger] new[i]) ==> p[i] < p[j]
}

/// `new` is what a stable ascending sort of `old` by `sort` gives.
pub open spec fn is_stable_sort(sort: SortKey, old: Seq<ProcessInfo>, new: Seq<ProcessInfo>) -> bool {
    exists|p: Seq<int>| stably_sorted_by(sort, old, new, p)
}

pub proof fn lemma_lex_le_total(a: Seq<char>, b: Seq<char>)
    ensures
        lex_le(a, b) || lex_le(b, a),
    decreases a.len(),
{
    if a.len() > 0 && b.len() > 0 && a[0] == b[0] {
        lemma_lex_le_total(a.drop_first(), b.drop_first());
    }
}

pub proof fn lemma_lex_le_transitive(a: Seq<char>, b: Seq<char>, c: Seq<char>)
    requires
        lex_le(a, b),
        lex_le(b, c),
    ensures
        lex_le(a, c),
    decreases a.len(),
{
    if a.len() > 0 && b.len() > 0 && c.len() > 0 && a[0] == b[0] && b[0] == c[0] {
        lemma_lex_le_transitive(a.drop_first(), b.drop_first(), c.drop_first());
    }
}

pub proof fn lemma_key_le_total(sort: SortKey, a: ProcessInfo, b: ProcessInfo)
    ensures
        key_le(sort, a, b) || key_le(sort, b, a),
{
    if sort == SortKey::Name {
        lemma_lex_le_total(lowercase(a.name@), lowercase(b.name@));
    }
}

pub proof fn lemma_key_le_transitive(sort: SortKey, a: ProcessInfo, b: ProcessInfo, c: ProcessInfo)
    requires
        key_le(sort, a, b),
        key_le(sort, b, c),
    ensures
        key_le(sort, a, c),
{
    if sort == SortKey::Name {
        lemma_lex_le_transitive(lowercase(a.name@), lowercase(b.name@), lowercase(c.name@));
    }
}

/// Whether `a` comes strictly before `b` in lexicographic order.
fn lex_lt(a: &Vec<char>, b: &Vec<char>) -> (r: bool)
    ensures
        r == !lex_le(b@, a@),
{
    let mut i: usize = 0;
    assert(a@.subrange(0, a@.len() as int) =~= a@);
    assert(b@.subrange(0, b@.len() as int) =~= b@);
    while i < a.len() && i < b.len()
        invariant
            i <= a@.len(),
            i <= b@.len(),
            a@.subrange(0, i as int) == b@.subrange(0, i as int),
            lex_le(b@, a@) == lex_le(b@.subrange(i as int, b@.len() as int), a@.subrange(i as int, a@.len() as int)),
        decreases a@.len() - i,
    {
        let x = a[i];
        let y = b[i];
        if x != y {
            assert(b@.subrange(i as int, b@.len() as int)[0] == y);
            assert(a@.subrange(i as int, a@.len() as int)[0] == x);
            return y > x;
        }
        assert(b@.subrange(i as int, b@.len() as int).drop_first() =~= b@.subrange(i + 1, b@.len() as int));
        assert(a@.subrange(i as int, a@.len() as int).drop_first() =~= a@.subrange(i + 1, a@.len() as int));
        assert(a@.subrange(0, i + 1) =~= a@.subrange(0, i as int).push(x));
        assert(b@.subrange(0, i + 1) =~= b@.subrange(0, i as int).push(y));
        i += 1;
    }
    // One of the two is used up: `b` is not after `a` exactly when `a` is a proper prefix of `b`.
    i < b.len()
}

/// Whether `a` comes strictly before `b` in `sort` order; `ka` and `kb` are the
/// lowercase names when `sort` is `Name`.
fn key_lt(sort: SortKey, a: &ProcessInfo, ka: &Vec<char>, b: &ProcessInfo, kb: &Vec<char>) -> (r: bool)
    requires
        sort == SortKey::Name ==> ka@ == lowercase(a.name@) && kb@ == lowercase(b.name@),
    ensures
        r == !key_le(sort, *b, *a),
{
    match sort {
        SortKey::Cpu => a.cpu < b.cpu,
        SortKey::Memory => a.mem < b.mem,
        SortKey::Name => lex_lt(ka, kb),
        SortKey::Pid => a.pid < b.pid,
    }
}


/// Inserting the next row of `orig` (index `k`) at `q`, after every row that
/// does not sort above it, keeps the result a stable sort of the longer prefix.
proof fn lemma_insert_step(
    sort: SortKey,
    orig: Seq<ProcessInfo>,
    out: Seq<ProcessInfo>,
    p: Seq<int>,
    k: int,
    q: int,
)
    requires
        0 <= k < orig.len(),
        stably_sorted_by(sort, orig.take(k), out, p),
        0 <= q <= k,
        forall|i: int| 0 <= i < q ==> key_le(sort, #[trigger] out[i], orig[k]),
        q < k ==> !key_le(sort, out[q], orig[k]),
    ensures
        stably_sorted_by(sort, orig.take(k + 1), out.insert(q, orig[k]), p.insert(q, k)),
{
    let x = orig[k];
    let o1 = orig.take(k);
    let o2 = orig.take(k + 1);
    let n2 = out.insert(q, x);
    let p2 = p.insert(q, k);
    assert(out.len() == k);
    assert forall|i: int| 0 <= i < k + 1 implies 0 <= #[trigger] p2[i] < k + 1 by {
        if i > q {
            assert(p2[i] == p[i - 1]);
        }
    }
    assert forall|i: int, j: int| 0 <= i < j < k + 1 implies p2[i] != p2[j] by {
        if i < q && j > q {
            assert(p2[j] == p[j - 1]);
        } else if i > q {
            assert(p2[i] == p[i - 1] && p2[j] == p[j - 1]);
        } else if j == q {
            assert(p2[i] == p[i]);
            assert(0 <= p[i] < k);
        } else if i == q {
            assert(p2[j] == p[j - 1]);
            assert(0 <= p[j - 1] < k);
        }
    }
    assert forall|v: int| 0 <= v < k + 1 implies #[trigger] p2.contains(v) by {
        if v == k {
            assert(p2[q] == v);
        } else {
            assert(p.contains(v));
            let w = choose|w: int| 0 <= w < p.len() && p[w] == v;
            if w < q {
                assert(p2[w] == v);
            } else {
                assert(p2[w + 1] == v);
            }
        }
    }
    assert forall|i: int| 0 <= i < n2.len() implies #[trigger] n2[i] == o2[p2[i]] by {
        if i < q {
            assert(n2[i] == out[i] && out[i] == o1[p[i]]);
        } else if i > q {
            assert(n2[i] == out[i - 1] && out[i - 1] == o1[p[i - 1]]);
        }
    }
    assert forall|i: int, j: int| 0 <= i < j < n2.len() implies key_le(sort, #[trigger] n2[i], #[trigger] n2[j]) by {
        if j < q {
            assert(n2[i] == out[i] && n2[j] == out[j]);
        } else if j == q {
            assert(n2[i] == out[i]);
        } else if i == q {
            assert(n2[j] == out[j - 1]);
            lemma_key_le_total(sort, out[q], x);
            if j - 1 > q {
                assert(key_le(sort, out[q], out[j - 1]));
                lemma_key_le_transitive(sort, x, out[q], out[j - 1]);
            }
        } else if i < q {
            assert(n2[i] == out[i] && n2[j] == out[j - 1]);
        } else {
            assert(n2[i] == out[i - 1] && n2[j] == out[j - 1]);
        }
    }
    assert forall|i: int, j: int|
        0 <= i < j < n2.len() && key_le(sort, #[trigger] n2[j], #[trigger] n2[i]) implies p2[i] < p2[j] by {
        if j < q {
            assert(n2[i] == out[i] && n2[j] == out[j]);
        } else if j == q {
            assert(p2[i] == p[i]);
            assert(0 <= p[i] < k);
        } else if i == q {
            assert(n2[j] == out[j - 1]);
            if j - 1 > q {
                assert(key_le(sort, out[q], out[j - 1]));
                lemma_key_le_transitive(sort, out[q], out[j - 1], x);
            }
        } else if i < q {
            assert(n2[i] == out[i] && n2[j] == out[j - 1]);
            assert(p2[i] == p[i] && p2[j] == p[j - 1]);
        } else {
            assert(n2[i] == out[i - 1] && n2[j] == out[j - 1]);
            assert(p2[i] == p[i - 1] && p2[j] == p[j - 1]);
        }
    }
}

/// Where a row `x` goes in the sorted rows `out`, searching from `i`: after
/// every row that does not sort above it.
proof fn lemma_insert_point(sort: SortKey, out: Seq<ProcessInfo>, x: ProcessInfo, i: int) -> (q: int)
    requires
        0 <= i <= out.len(),
        forall|j: int| 0 <= j < i ==> key_le(sort, #[trigger] out[j], x),
    ensures
        i <= q <= out.len(),
        forall|j: int| 0 <= j < q ==> key_le(sort, #[trigger] out[j], x),
        q < out.len() ==> !key_le(sort, out[q], x),
    decreases out.len() - i,
{
    if i == out.len() || !key_le(sort, out[i], x) {
        i
    } else {
        lemma_insert_point(sort, out, x, i + 1)
    }
}

/// The first `k` rows have a stable sort: inserting each row in turn after
/// the rows that do not sort above it builds one.
proof fn lemma_prefix_sort_exists(sort: SortKey, rows: Seq<ProcessInfo>, k: int) -> (r: (
    Seq<ProcessInfo>,
    Seq<int>,
))
    requires
        0 <= k <= rows.len(),
    ensures
        stably_sorted_by(sort, rows.take(k), r.0, r.1),
    decreases k,
{
    if k == 0 {
        let e = Seq::<ProcessInfo>::empty();
        let p = Seq::<int>::empty();
        assert(rows.take(0) =~= e);
        (e, p)
    } else {
        let (out, p) = lemma_prefix_sort_exists(sort, rows, k - 1);
        let q = lemma_insert_point(sort, out, rows[k - 1], 0);
        lemma_insert_step(sort, rows, out, p, k - 1, q);
        (out.insert(q, rows[k - 1]), p.insert(q, k - 1))
    }
}

/// Every list of rows has a stable sort, and `stable_sorted` is it: ascending
/// by `sort`, rows of equal key in their original order.
pub proof fn lemma_stable_sorted_sorts(sort: SortKey, rows: Seq<ProcessInfo>)
    ensures
        is_stable_sort(sort, rows, stable_sorted(sort, rows)),
        stable_sorted(sort, rows).len() == rows.len(),
        forall|i: int, j: int|
            0 <= i < j < rows.len() ==> key_le(
                sort,
                #[trigger] stable_sorted(sort, rows)[i],
                #[trigger] stable_sorted(sort, rows)[j],
            ),
{
    let (s, p) = lemma_prefix_sort_exists(sort, rows, rows.len() as int);
    assert(rows.take(rows.len() as int) =~= rows);
    assert(stably_sorted_by(sort, rows, s, p));
    lemma_stable_sorted_is(sort, rows, s);
}

/// The rows of `v` in the opposite order.
fn reverse_rows(v: Vec<ProcessInfo>) -> (r: Vec<ProcessInfo>)
    ensures
        r@ == v@.reverse(),
{
    let mut v = v;
    let ghost orig = v@;
    let mut r: Vec<ProcessInfo> = Vec::new();
    while v.len() > 0
        invariant
            v@.len() + r@.len() == orig.len(),
            v@ == orig.take(v@.len() as int),
            forall|j: int| 0 <= j < r@.len() ==> #[trigger] r@[j] == orig[orig.len() - 1 - j],
        decreases v@.len(),
    {
        let x = v.pop().unwrap();
        r.push(x);
        assert(v@ =~= orig.take(v@.len() as int));
    }
    assert(r@ =~= orig.reverse());
    r
}

/// The rows in ascending `sort` order, rows of equal key kept in their
/// original order (there is exactly one such order: `lemma_stable_sort_unique`).
pub open spec fn stable_sorted(sort: SortKey, rows: Seq<ProcessInfo>) -> Seq<ProcessInfo> {
    choose|s: Seq<ProcessInfo>| is_stable_sort(sort, rows, s)
}

/// The rows as the table orders them: ascending, or turned around when `desc`.
pub open spec fn ordered_rows(sort: SortKey, desc: bool, rows: Seq<ProcessInfo>) -> Seq<ProcessInfo> {
    if desc {
        stable_sorted(sort, rows).reverse()
    } else {
        stable_sorted(sort, rows)
    }
}

/// A stable sort that exists is the one `stable_sorted` names.
pub proof fn lemma_stable_sorted_is(sort: SortKey, rows: Seq<ProcessInfo>, s: Seq<ProcessInfo>)
    requires
        is_stable_sort(sort, rows, s),
    ensures
        stable_sorted(sort, rows) == s,
{
    lemma_stable_sort_unique(sort, rows, stable_sorted(sort, rows), s);
}

/// Orders the process rows by `sort`, largest first when `desc`: a stable
/// ascending sort, reversed when `desc`.
pub fn sort_processes(list: &mut Vec<ProcessInfo>, sort: SortKey, desc: bool)
    ensures
        !desc ==> is_stable_sort(sort, old(list)@, final(list)@),
        desc ==> is_stable_sort(sort, old(list)@, final(list)@.reverse()),
        final(list)@ == ordered_rows(sort, desc, old(list)@),
{
    let mut src: Vec<ProcessInfo> = Vec::new();
    std::mem::swap(list, &mut src);
    let ghost orig = src@;
    let n = src.len();
    let mut out: Vec<ProcessInfo> = Vec::new();
    let mut keys: Vec<Vec<char>> = Vec::new();
    let ghost mut p: Seq<int> = Seq::empty();
    let mut k: usize = 0;
    assert(orig.subrange(0, n as int) =~= orig);
    assert(stably_sorted_by(sort, orig.take(0), out@, p));
    while k < n
        invariant
            n == orig.len(),
            k <= n,
            src@ == orig.subrange(k as int, n as int),
            out@.len() == k,
            keys@.len() == k,
            stably_sorted_by(sort, orig.take(k as int), out@, p),
            sort == SortKey::Name ==> forall|i: int|
                0 <= i < k ==> (#[trigger] keys@[i])@ == lowercase(out@[i].name@),
        decreases n - k,
    {
        assert(src@[0] == orig[k as int]);
        let x = src.remove(0);
        assert(src@ =~= orig.subrange(k + 1, n as int));
        let kx = match sort {
            SortKey::Name => to_lowercase_chars(x.name.as_str()),
            _ => Vec::new(),
        };
        let mut q: usize = 0;
        while q < out.len() && !key_lt(sort, &x, &kx, &out[q], &keys[q])
            invariant
                q <= out@.len(),
                out@.len() == keys@.len(),
                sort == SortKey::Name ==> kx@ == lowercase(x.name@),
                sort == SortKey::Name ==> forall|i: int|
                    0 <= i < out@.len() ==> (#[trigger] keys@[i])@ == lowercase(out@[i].name@),
                forall|i: int| 0 <= i < q ==> key_le(sort, #[trigger] out@[i], x),
            decreases out@.len() - q,
        {
            q += 1;
        }
        proof {
            lemma_insert_step(sort, orig, out@, p, k as int, q as int);
            p = p.insert(q as int, k as int);
        }
        out.insert(q, x);
        keys.insert(q, kx);
        k += 1;
    }
    assert(orig.take(n as int) =~= orig);
    proof {
        lemma_stable_sorted_is(sort, orig, out@);
    }
    if desc {
        let r = reverse_rows(out);
        assert(r@.reverse() =~= out@);
        *list = r;
    } else {
        *list = out;
    }
}


/// Two stable sorts of the same rows move every row to the same place.
proof fn lemma_orders_agree(
    sort: SortKey,
    old: Seq<ProcessInfo>,
    a: Seq<ProcessInfo>,
    b: Seq<ProcessInfo>,
    p1: Seq<int>,
    p2: Seq<int>,
    i: int,
)
    requires
        stably_sorted_by(sort, old, a, p1),
        stably_sorted_by(sort, old, b, p2),
        0 <= i <= old.len(),
    ensures
        forall|m: int| 0 <= m < i ==> p1[m] == p2[m],
    decreases i,
{
    if i > 0 {
        lemma_orders_agree(sort, old, a, b, p1, p2, i - 1);
        let m0 = i - 1;
        let x = p1[m0];
        let y = p2[m0];
        if x != y {
            assert(0 <= x < old.len() && 0 <= y < old.len());
            assert(p2.contains(x));
            let m = choose|m: int| 0 <= m < p2.len() && p2[m] == x;
            assert(p1.contains(y));
            let m2 = choose|m: int| 0 <= m < p1.len() && p1[m] == y;
            if m < m0 {
                assert(p1[m] == p2[m]);
            }
            if m2 < m0 {
                assert(p1[m2] == p2[m2]);
            }
            assert(m > m0 && m2 > m0);
            assert(b[m0] == old[y] && b[m] == old[x]);
            assert(a[m0] == old[x] && a[m2] == old[y]);
            assert(key_le(sort, b[m0], b[m]));
            assert(key_le(sort, a[m0], a[m2]));
            assert(p2[m0] < p2[m]);
            assert(p1[m0] < p1[m2]);
        }
    }
}

/// Rows of equal key keep their relative order, so a stable sort has only
/// one possible result.
pub proof fn lemma_stable_sort_unique(
    sort: SortKey,
    old: Seq<ProcessInfo>,
    a: Seq<ProcessInfo>,
    b: Seq<ProcessInfo>,
)
    requires
        is_stable_sort(sort, old, a),
        is_stable_sort(sort, old, b),
    ensures
        a == b,
{
    let p1 = choose|p: Seq<int>| stably_sorted_by(sort, old, a, p);
    let p2 = choose|p: Seq<int>| stably_sorted_by(sort, old, b, p);
    lemma_orders_agree(sort, old, a, b, p1, p2, old.len() as int);
    assert forall|m: int| 0 <= m < a.len() implies a[m] == b[m] by {
        assert(a[m] == old[p1[m]]);
        assert(b[m] == old[p2[m]]);
    }
    assert(a =~= b);
}

/// Sorting largest first gives exactly the ascending order turned around.
pub proof fn lemma_descending_reverses_ascending(
    sort: SortKey,
    old: Seq<ProcessInfo>,
    asc: Seq<ProcessInfo>,
    desc: Seq<ProcessInfo>,
)
    requires
        is_stable_sort(sort, old, asc),
        is_stable_sort(sort, old, desc.reverse()),
    ensures
        desc == asc.reverse(),
{
    lemma_stable_sort_unique(sort, old, asc, desc.reverse());
    assert(desc =~= desc.reverse().reverse());
}

/// Sorting rows that are already in ascending order leaves them as they are.
pub proof fn lemma_sort_idempotent(
    sort: SortKey,
    old: Seq<ProcessInfo>,
    once: Seq<ProcessInfo>,
    twice: Seq<ProcessInfo>,
)
    requires
        is_stable_sort(sort, old, once),
        is_stable_sort(sort, once, twice),
    ensures
        twice == once,
{
    let n = once.len();
    let id = Seq::new(n, |i: int| i);
    assert forall|v: int| 0 <= v < n implies #[trigger] id.contains(v) by {
        assert(id[v] == v);
    }
    assert(stably_sorted_by(sort, once, once, id));
    lemma_stable_sort_unique(sort, once, once, twice);
}

} // verus!
