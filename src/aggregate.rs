use vstd::prelude::*;
use crate::counter::{lemma_sum_bound, mean_of, sum_of, RunningCounter};
use crate::session::SessionResult;
use crate::sign::{price_message, price_text, signature_valid, verify_signature, KeyRegistry};

verus! {

/// A session's result as the aggregate sees it.
#[derive(Clone, Copy, Debug, PartialEq, Eq, Structural)]
pub struct Verdict {
    pub average: u64,
    pub verified: bool,
}

/// Whether a verdict counts towards the overall mean: a verified, non-zero average.
pub open spec fn contributes(v: Verdict) -> bool {
    v.verified && v.average != 0
}

/// The averages that count, in order.
pub open spec fn kept(vs: Seq<Verdict>) -> Seq<u64>
    decreases vs.len(),
{
    if vs.len() == 0 {
        Seq::empty()
    } else if contributes(vs.last()) {
        kept(vs.drop_last()).push(vs.last().average)
    } else {
        kept(vs.drop_last())
    }
}

/// The mean of the averages that count, or `None` when none does.
pub open spec fn overall_mean(vs: Seq<Verdict>) -> Option<nat> {
    if kept(vs).len() == 0 {
        None
    } else {
        Some(mean_of(kept(vs)))
    }
}

/// The verdict on one session: a failed session counts as unverified; a
/// result is verified when its feed's registered key accepts its signature
/// over the text of its average.
pub open spec fn verdict_spec(keys: KeyRegistry, r: Option<SessionResult>) -> Verdict {
    match r {
        None => Verdict { average: 0, verified: false },
        Some(s) => Verdict {
            average: s.average,
            verified: match keys.key(s.feed) {
                Some(k) => signature_valid(k, price_message(s.average as nat), s.signature@),
                None => false,
            },
        },
    }
}

/// The overall result of a run.
pub struct Overall {
    /// The mean of the contributing averages, `None` when no feed contributed.
    pub mean: Option<u64>,
    /// How many feeds contributed.
    pub contributors: usize,
}

pub open spec fn overall_matches(r: Overall, vs: Seq<Verdict>) -> bool {
    &&& r.contributors == kept(vs).len()
    &&& match r.mean {
        Some(m) => overall_mean(vs) == Some(m as nat),
        None => overall_mean(vs) is None,
    }
}

proof fn lemma_kept_len(vs: Seq<Verdict>)
    ensures
        kept(vs).len() <= vs.len(),
    decreases vs.len(),
{
    if vs.len() > 0 {
        lemma_kept_len(vs.drop_last());
    }
}

/// Folds the verdicts into the overall mean of the verified, non-zero averages.
pub fn aggregate(verdicts: &Vec<Verdict>) -> (r: Overall)
    ensures
        overall_matches(r, verdicts@),
{
    let n = verdicts.len();
    let mut sum: u128 = 0;
    let mut count: usize = 0;
    let mut i: usize = 0;
    while i < n
        invariant
            i <= n == verdicts@.len(),
            count == kept(verdicts@.take(i as int)).len(),
            count <= i,
            sum == sum_of(kept(verdicts@.take(i as int))),
            sum <= count * (u64::MAX as nat),
        decreases n - i,
    {
        let v = verdicts[i];
        proof {
            assert(verdicts@.take(i + 1).drop_last() =~= verdicts@.take(i as int));
            lemma_sum_bound(kept(verdicts@.take(i + 1)));
            lemma_kept_len(verdicts@.take(i + 1));
            let k0 = kept(verdicts@.take(i as int));
            if contributes(v) {
                assert(kept(verdicts@.take(i + 1)) == k0.push(v.average));
                assert(k0.push(v.average).drop_last() =~= k0);
            }
            assert((i + 1) * (u64::MAX as nat) < u128::MAX) by (nonlinear_arith)
                requires
                    i < n <= usize::MAX,
            ;
            assert(kept(verdicts@.take(i + 1)).len() * (u64::MAX as nat) <= (i + 1) * (
            u64::MAX as nat)) by (nonlinear_arith)
                requires
                    kept(verdicts@.take(i + 1)).len() <= i + 1,
            ;
        }
        if v.verified && v.average != 0 {
            sum = sum + v.average as u128;
            count = count + 1;
        }
        i = i + 1;
    }
    assert(verdicts@.take(n as int) =~= verdicts@);
    if count == 0 {
        return Overall { mean: None, contributors: 0 };
    }
    proof {
        assert((sum as nat) / (count as nat) <= u64::MAX) by (nonlinear_arith)
            requires
                sum <= count * (u64::MAX as nat),
                count > 0,
        ;
    }
    Overall { mean: Some((sum / count as u128) as u64), contributors: count }
}

/// Checks one session's result against the registered keys.
pub fn verdict_of(keys: &KeyRegistry, result: &Option<SessionResult>) -> (r: Verdict)
    ensures
        r == verdict_spec(*keys, *result),
{
    match result {
        None => Verdict { average: 0, verified: false },
        Some(s) => {
            let verified = match keys.get(s.feed) {
                Some(k) => verify_signature(k, &price_text(s.average), &s.signature),
                None => false,
            };
            Verdict { average: s.average, verified }
        },
    }
}

/// Verifies every session's result and folds the verified, non-zero
/// averages into the overall mean; a failed session is `None`.
pub fn combine(keys: &KeyRegistry, results: &Vec<Option<SessionResult>>) -> (r: (Overall, Vec<Verdict>))
    ensures
        r.1@ == results@.map_values(|x: Option<SessionResult>| verdict_spec(*keys, x)),
        overall_matches(r.0, r.1@),
{
    let mut verdicts: Vec<Verdict> = Vec::new();
    let mut i: usize = 0;
    while i < results.len()
        invariant
            i <= results@.len(),
            verdicts@ == results@.take(i as int).map_values(
                |x: Option<SessionResult>| verdict_spec(*keys, x),
            ),
        decreases results@.len() - i,
    {
        let v = verdict_of(keys, &results[i]);
        verdicts.push(v);
        assert(results@.take(i + 1).map_values(|x: Option<SessionResult>| verdict_spec(*keys, x))
            =~= results@.take(i as int).map_values(
            |x: Option<SessionResult>| verdict_spec(*keys, x),
        ).push(v));
        i = i + 1;
    }
    assert(results@.take(results@.len() as int) =~= results@);
    let overall = aggregate(&verdicts);
    (overall, verdicts)
}

proof fn lemma_kept_remove(vs: Seq<Verdict>, i: int)
    requires
        0 <= i < vs.len(),
        !contributes(vs[i]),
    ensures
        kept(vs.remove(i)) == kept(vs),
    decreases vs.len(),
{
    if i == vs.len() - 1 {
        assert(vs.remove(i) =~= vs.drop_last());
    } else {
        lemma_kept_remove(vs.drop_last(), i);
        assert(vs.remove(i).drop_last() =~= vs.drop_last().remove(i));
        assert(vs.remove(i).last() == vs.last());
    }
}

/// A session whose signature did not verify is left out of the overall
/// mean, whatever its average: the run gives the same result without it.
pub proof fn lemma_unverified_excluded(vs: Seq<Verdict>, i: int)
    requires
        0 <= i < vs.len(),
        !vs[i].verified,
    ensures
        kept(vs.remove(i)) == kept(vs),
        overall_mean(vs.remove(i)) == overall_mean(vs),
{
    lemma_kept_remove(vs, i);
}

/// A session that recorded no price reports a zero average, and a zero
/// average is left out of the overall mean: the run gives the same result
/// without it.
pub proof fn lemma_empty_session_excluded(c: RunningCounter, vs: Seq<Verdict>, i: int)
    requires
        c.prices().len() == 0,
        0 <= i < vs.len(),
        vs[i].average == mean_of(c.prices()),
    ensures
        vs[i].average == 0,
        kept(vs.remove(i)) == kept(vs),
        overall_mean(vs.remove(i)) == overall_mean(vs),
{
    lemma_kept_remove(vs, i);
}

} // verus!
