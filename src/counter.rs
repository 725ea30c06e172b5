use vstd::prelude::*;

verus! {

broadcast use vstd::seq_lib::group_to_multiset_ensures;

/// Sum of the prices `s`.
pub open spec fn sum_of(s: Seq<u64>) -> nat
    decreases s.len(),
{
    if s.len() == 0 {
        0
    } else {
        sum_of(s.drop_last()) + s.last() as nat
    }
}

/// Arithmetic mean of the prices `s`, rounded down to a whole unit.
/// No prices have no mean; zero stands for it here.
pub open spec fn mean_of(s: Seq<u64>) -> nat {
    if s.len() == 0 {
        0
    } else {
        sum_of(s) / s.len()
    }
}

pub proof fn lemma_sum_bound(s: Seq<u64>)
    ensures
        sum_of(s) <= s.len() * (u64::MAX as nat),
    decreases s.len(),
{
    if s.len() > 0 {
        lemma_sum_bound(s.drop_last());
        assert(sum_of(s.drop_last()) + s.last() <= (s.len() - 1) * (u64::MAX as nat) + (
        u64::MAX as nat)) by (nonlinear_arith)
            requires
                sum_of(s.drop_last()) <= (s.len() - 1) * (u64::MAX as nat),
                s.last() <= u64::MAX,
        ;
        assert((s.len() - 1) * (u64::MAX as nat) + (u64::MAX as nat) == s.len() * (
        u64::MAX as nat)) by (nonlinear_arith);
    }
}

pub proof fn lemma_sum_remove(s: Seq<u64>, j: int)
    requires
        0 <= j < s.len(),
    ensures
        sum_of(s) == sum_of(s.remove(j)) + s[j],
    decreases s.len(),
{
    if j == s.len() - 1 {
        assert(s.remove(j) =~= s.drop_last());
    } else {
        lemma_sum_remove(s.drop_last(), j);
        assert(s.remove(j).drop_last() =~= s.drop_last().remove(j));
        assert(s.remove(j).last() == s.last());
    }
}

/// Reordering the prices leaves their sum unchanged.
pub proof fn lemma_sum_permutation(a: Seq<u64>, b: Seq<u64>)
    requires
        a.to_multiset() == b.to_multiset(),
    ensures
        sum_of(a) == sum_of(b),
    decreases a.len(),
{
    assert(a.len() == a.to_multiset().len());
    assert(b.len() == b.to_multiset().len());
    if a.len() > 0 {
        let x = a.last();
        let a1 = a.drop_last();
        assert(a1.push(x) =~= a);
        assert(a.to_multiset() =~= a1.to_multiset().insert(x));
        assert(b.to_multiset().count(x) > 0);
        assert(b.contains(x));
        let j = choose|j: int| 0 <= j < b.len() && b[j] == x;
        let b1 = b.remove(j);
        assert(b1.to_multiset() =~= b.to_multiset().remove(x));
        assert(a1.to_multiset() =~= b1.to_multiset());
        lemma_sum_permutation(a1, b1);
        lemma_sum_remove(b, j);
    }
}

/// The mean of a set of prices does not depend on the order in which they
/// arrived: any two arrangements of the same prices have the same mean.
pub proof fn lemma_mean_order_independent(a: Seq<u64>, b: Seq<u64>)
    requires
        a.to_multiset() == b.to_multiset(),
    ensures
        a.len() == b.len(),
        mean_of(a) == mean_of(b),
{
    assert(a.len() == a.to_multiset().len());
    assert(b.len() == b.to_multiset().len());
    lemma_sum_permutation(a, b);
}

/// The frames `f` joined with a newline between each two.
pub open spec fn joined(f: Seq<Seq<char>>) -> Seq<char>
    decreases f.len(),
{
    if f.len() == 0 {
        Seq::empty()
    } else if f.len() == 1 {
        f[0]
    } else {
        joined(f.drop_last()) + seq!['\n'] + f.last()
    }
}

/// The samples of one session: each accepted price with the frame it came from.
pub struct RunningCounter {
    values: Vec<u64>,
    data: Vec<String>,
}

impl RunningCounter {
    /// The prices recorded so far, in arrival order.
    pub closed spec fn prices(&self) -> Seq<u64> {
        self.values@
    }

    /// The raw frames recorded so far, in arrival order.
    pub closed spec fn frames(&self) -> Seq<Seq<char>> {
        self.data@.map_values(|d: String| d@)
    }

    /// Each price is paired with its frame.
    pub closed spec fn wf(&self) -> bool {
        self.values@.len() == self.data@.len()
    }

    pub fn new() -> (r: RunningCounter)
        ensures
            r.wf(),
            r.prices() == Seq::<u64>::empty(),
            r.frames() == Seq::<Seq<char>>::empty(),
    {
        let r = RunningCounter { values: Vec::new(), data: Vec::new() };
        assert(r.frames() =~= Seq::<Seq<char>>::empty());
        r
    }

    /// Records one price and the frame it was read from; accepts any value.
    pub fn add_price(&mut self, value: u64, raw: String)
        requires
            old(self).wf(),
        ensures
            final(self).wf(),
            final(self).prices() == old(self).prices().push(value),
            final(self).frames() == old(self).frames().push(raw@),
    {
        self.values.push(value);
        self.data.push(raw);
        assert(self.frames() =~= old(self).frames().push(raw@));
    }

    /// Number of samples recorded.
    pub fn len(&self) -> (r: usize)
        requires
            self.wf(),
        ensures
            r == self.prices().len(),
            r == self.frames().len(),
    {
        self.values.len()
    }

    /// The price of sample `i`.
    pub fn price_at(&self, i: usize) -> (r: u64)
        requires
            i < self.prices().len(),
        ensures
            r == self.prices()[i as int],
    {
        self.values[i]
    }

    /// The frame of sample `i`.
    pub fn frame_at(&self, i: usize) -> (r: &String)
        requires
            self.wf(),
            i < self.frames().len(),
        ensures
            r@ == self.frames()[i as int],
    {
        &self.data[i]
    }

    /// The recorded frames, one per line.
    pub fn data_points(&self) -> (r: String)
        requires
            self.wf(),
        ensures
            r@ == joined(self.frames()),
    {
        let mut out = String::new();
        let mut i: usize = 0;
        while i < self.data.len()
            invariant
                i <= self.data@.len() == self.values@.len(),
                out@ == joined(self.frames().take(i as int)),
            decreases self.data@.len() - i,
        {
            let ghost f = self.frames().take(i + 1);
            assert(f.drop_last() =~= self.frames().take(i as int));
            if i > 0 {
                out.append("\n");
            }
            out.append(self.data[i].as_str());
            proof {
                reveal_strlit("\n");
                assert(f.last() == self.data@[i as int]@);
                assert(out@ =~= joined(f));
            }
            i = i + 1;
        }
        assert(self.frames().take(i as int) =~= self.frames());
        out
    }

    /// Mean of all recorded prices (rounded down), or `None` when no price
    /// has been recorded.
    pub fn calculate_average(&self) -> (r: Option<u64>)
        ensures
            match r {
                Some(m) => self.prices().len() > 0 && m == mean_of(self.prices()),
                None => self.prices().len() == 0,
            },
    {
        let n = self.values.len();
        if n == 0 {
            return None;
        }
        let mut sum: u128 = 0;
        let mut i: usize = 0;
        while i < n
            invariant
                i <= n == self.values@.len(),
                sum == sum_of(self.values@.take(i as int)),
                sum <= i * (u64::MAX as nat),
            decreases n - i,
        {
            proof {
                assert(self.values@.take(i + 1).drop_last() =~= self.values@.take(i as int));
                lemma_sum_bound(self.values@.take(i + 1));
                assert((i + 1) * (u64::MAX as nat) < u128::MAX) by (nonlinear_arith)
                    requires
                        i < n <= usize::MAX,
                ;
            }
            sum = sum + self.values[i] as u128;
            i = i + 1;
        }
        assert(self.values@.take(n as int) =~= self.values@);
        proof {
            assert((sum as nat) / (n as nat) <= u64::MAX) by (nonlinear_arith)
                requires
                    sum <= n * (u64::MAX as nat),
                    n > 0,
            ;
        }
        Some((sum / n as u128) as u64)
    }
}

} // verus!
