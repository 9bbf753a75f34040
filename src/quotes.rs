use vstd::prelude::*;

verus! {

/// Why no price series could be had for a symbol. Every failure of the
/// market-data provider is reported as this one kind.
#[derive(Clone, Copy, Debug, PartialEq, Eq, Structural)]
pub enum RetrievalError {
    InvalidData,
}

/// Quote `a` comes before quote `b`: an earlier timestamp, or the same
/// timestamp and an earlier position in the provider's answer.
pub open spec fn precedes(ts: Seq<u64>, a: int, b: int) -> bool {
    ts[a] < ts[b] || (ts[a] == ts[b] && a < b)
}

/// `ord` lists every position of `ts` once, by ascending timestamp, keeping
/// the provider's order among equal timestamps.
pub open spec fn is_time_order(ts: Seq<u64>, ord: Seq<usize>) -> bool {
    &&& ord.len() == ts.len()
    &&& forall|i: int| 0 <= i < ord.len() ==> ord[i] < ts.len()
    &&& forall|x: usize| x < ts.len() ==> #[trigger] ord.contains(x)
    &&& forall|i: int, j: int|
        0 <= i < j < ord.len() ==> #[trigger] precedes(ts, ord[i] as int, ord[j] as int)
}

/// Positions of the quotes sorted by timestamp, stably.
pub fn time_order(ts: &Vec<u64>) -> (ord: Vec<usize>)
    ensures
        is_time_order(ts@, ord@),
{
    let n: usize = ts.len();
    let mut ord: Vec<usize> = Vec::new();
    let mut k: usize = 0;
    while k < n
        invariant
            k <= n,
            n == ts@.len(),
            ord@.len() == k,
            forall|i: int| 0 <= i < ord@.len() ==> ord@[i] < k,
            forall|x: usize| x < k ==> #[trigger] ord@.contains(x),
            forall|i: int, j: int|
                0 <= i < j < ord@.len() ==> #[trigger] precedes(ts@, ord@[i] as int, ord@[j] as int),
        decreases n - k,
    {
        let tk = ts[k];
        let mut p: usize = 0;
        while p < ord.len() && ts[ord[p]] <= tk
            invariant
                p <= ord@.len(),
                k < n,
                n == ts@.len(),
                tk == ts@[k as int],
                forall|i: int| 0 <= i < ord@.len() ==> ord@[i] < k,
                forall|i: int| 0 <= i < p ==> ts@[ord@[i] as int] <= tk,
            decreases ord@.len() - p,
        {
            p = p + 1;
        }
        proof {
            assert forall|i: int| p <= i < ord@.len() implies tk < ts@[ord@[i] as int] by {
                if i > p {
                    assert(precedes(ts@, ord@[p as int] as int, ord@[i] as int));
                }
            }
        }
        let ghost prev = ord@;
        ord.insert(p, k);
        proof {
            assert forall|i: int, j: int|
                0 <= i < j < ord@.len() implies #[trigger] precedes(ts@, ord@[i] as int, ord@[j] as int) by {
                if j < p {
                    assert(precedes(ts@, prev[i] as int, prev[j] as int));
                } else if i > p {
                    assert(precedes(ts@, prev[i - 1] as int, prev[j - 1] as int));
                } else if i < p {
                    assert(ord@[j] == k || ord@[j] == prev[j - 1]);
                }
            }
            assert forall|x: usize| x <= k implies #[trigger] ord@.contains(x) by {
                if x == k {
                    assert(ord@[p as int] == x);
                } else {
                    assert(prev.contains(x));
                    let i = choose|i: int| 0 <= i < prev.len() && prev[i] == x;
                    if i < p {
                        assert(ord@[i] == x);
                    } else {
                        assert(ord@[i + 1] == x);
                    }
                }
            }
        }
        k = k + 1;
    }
    ord
}

/// A time order of `ts` is unique: the positions that it lists depend on the
/// timestamps alone.
pub proof fn lemma_time_order_unique(ts: Seq<u64>, a: Seq<usize>, b: Seq<usize>)
    requires
        is_time_order(ts, a),
        is_time_order(ts, b),
    ensures
        a == b,
{
    assert forall|i: int| 0 <= i < a.len() implies a[i] == b[i] by {
        lemma_same_up_to(ts, a, b, i);
    }
    assert(a =~= b);
}

proof fn lemma_same_up_to(ts: Seq<u64>, a: Seq<usize>, b: Seq<usize>, i: int)
    requires
        is_time_order(ts, a),
        is_time_order(ts, b),
        0 <= i < a.len(),
    ensures
        a[i] == b[i],
    decreases i,
{
    if a[i] != b[i] {
        let x = a[i];
        let y = b[i];
        assert(b.contains(x));
        assert(a.contains(y));
        let j = choose|j: int| 0 <= j < b.len() && b[j] == x;
        let k = choose|k: int| 0 <= k < a.len() && a[k] == y;
        if j < i {
            lemma_same_up_to(ts, a, b, j);
            assert(precedes(ts, a[j] as int, a[i] as int));
        } else if k < i {
            lemma_same_up_to(ts, a, b, k);
            assert(precedes(ts, b[k] as int, b[i] as int));
        } else {
            assert(precedes(ts, b[i] as int, b[j] as int));
            assert(precedes(ts, a[i] as int, a[k] as int));
        }
    }
}

/// Timestamps of a list of (timestamp, close) pairs.
pub open spec fn quote_times<P>(quotes: Seq<(u64, P)>) -> Seq<u64> {
    quotes.map_values(|q: (u64, P)| q.0)
}

/// Closes of `quotes` taken at the positions listed in `ord`.
pub open spec fn closes_at<P>(quotes: Seq<(u64, P)>, ord: Seq<usize>) -> Seq<P> {
    ord.map_values(|i: usize| quotes[i as int].1)
}

/// The closing prices of `quotes`, each a pair of timestamp and close, in
/// ascending time order.
pub fn closes_by_time<P: Copy>(quotes: &Vec<(u64, P)>) -> (r: Vec<P>)
    ensures
        exists|ord: Seq<usize>|
            #[trigger] is_time_order(quote_times(quotes@), ord) && r@ == closes_at(quotes@, ord),
{
    let mut ts: Vec<u64> = Vec::new();
    let mut i: usize = 0;
    while i < quotes.len()
        invariant
            i <= quotes@.len(),
            ts@ == quotes@.subrange(0, i as int).map_values(|q: (u64, P)| q.0),
        decreases quotes@.len() - i,
    {
        ts.push(quotes[i].0);
        i = i + 1;
        assert(quotes@.subrange(0, i as int).map_values(|q: (u64, P)| q.0)
            =~= ts@);
    }
    assert(quotes@.subrange(0, quotes@.len() as int) =~= quotes@);
    let ord = time_order(&ts);
    let mut r: Vec<P> = Vec::new();
    let mut j: usize = 0;
    while j < ord.len()
        invariant
            j <= ord@.len(),
            is_time_order(ts@, ord@),
            ts@.len() == quotes@.len(),
            r@ == ord@.subrange(0, j as int).map_values(|i: usize| quotes@[i as int].1),
        decreases ord@.len() - j,
    {
        r.push(quotes[ord[j]].1);
        j = j + 1;
        assert(ord@.subrange(0, j as int).map_values(|i: usize| quotes@[i as int].1) =~= r@);
    }
    assert(ord@.subrange(0, ord@.len() as int) =~= ord@);
    assert(is_time_order(quote_times(quotes@), ord@));
    r
}

/// Ordering the same quotes twice gives the same closes, element for element:
/// nothing but the quotes decides the series.
pub proof fn lemma_closes_by_time_deterministic<P>(
    quotes: Seq<(u64, P)>,
    ord1: Seq<usize>,
    ord2: Seq<usize>,
)
    requires
        is_time_order(quote_times(quotes), ord1),
        is_time_order(quote_times(quotes), ord2),
    ensures
        closes_at(quotes, ord1) == closes_at(quotes, ord2),
{
    lemma_time_order_unique(quote_times(quotes), ord1, ord2);
}

} // verus!
