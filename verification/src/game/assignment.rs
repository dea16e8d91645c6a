//! What every job assignment of a room satisfies.

use vstd::prelude::*;

use super::classic_game::{
    assist_jobs, count_in, fill_jobs, first_non_couple, is_job_assignment, is_perm, job_template,
    lemma_count_in_multiset, lemma_perm_len, pair_couple, special_count, special_jobs, special_outcome,
    special_pool,
};
use super::job::JobList;

verus! {

broadcast use vstd::seq_lib::group_to_multiset_ensures;

proof fn lemma_count_add(a: Seq<JobList>, b: Seq<JobList>, j: JobList)
    ensures
        count_in(a + b, j) == count_in(a, j) + count_in(b, j),
    decreases a.len(),
{
    if a.len() == 0 {
        assert(a + b =~= b);
    } else {
        assert((a + b).drop_first() =~= a.drop_first() + b);
        assert((a + b)[0] == a[0]);
        lemma_count_add(a.drop_first(), b, j);
    }
}

proof fn lemma_count_single(x: JobList, j: JobList)
    ensures
        count_in(seq![x], j) == if x == j { 1nat } else { 0nat },
{
    reveal_with_fuel(count_in, 2);
    assert(seq![x].drop_first() =~= Seq::<JobList>::empty());
}

proof fn lemma_count_take_le(s: Seq<JobList>, k: int, j: JobList)
    requires
        0 <= k <= s.len(),
    ensures
        count_in(s.take(k), j) <= count_in(s, j),
{
    assert(s =~= s.take(k) + s.skip(k));
    lemma_count_add(s.take(k), s.skip(k), j);
}

proof fn lemma_count_update(s: Seq<JobList>, i: int, x: JobList, j: JobList)
    requires
        0 <= i < s.len(),
    ensures
        count_in(s.update(i, x), j) + (if s[i] == j { 1int } else { 0int })
            == count_in(s, j) + (if x == j { 1int } else { 0int }),
{
    let pre = s.take(i);
    let post = s.skip(i + 1);
    assert(s =~= pre + seq![s[i]] + post);
    assert(s.update(i, x) =~= pre + seq![x] + post);
    lemma_count_add(pre + seq![s[i]], post, j);
    lemma_count_add(pre, seq![s[i]], j);
    lemma_count_add(pre + seq![x], post, j);
    lemma_count_add(pre, seq![x], j);
    assert(seq![s[i]].drop_first() =~= Seq::<JobList>::empty());
    assert(seq![x].drop_first() =~= Seq::<JobList>::empty());
}

proof fn lemma_count_perm(a: Seq<JobList>, b: Seq<JobList>, j: JobList)
    requires
        is_perm(a, b),
    ensures
        count_in(a, j) == count_in(b, j),
{
    lemma_count_in_multiset(a, j);
    lemma_count_in_multiset(b, j);
}

proof fn lemma_count_contains(s: Seq<JobList>, j: JobList)
    ensures
        s.contains(j) <==> count_in(s, j) > 0,
{
    lemma_count_in_multiset(s, j);
}

proof fn lemma_all_couples(s: Seq<JobList>)
    requires
        first_non_couple(s) >= s.len(),
    ensures
        count_in(s, JobList::Couple) == s.len(),
    decreases s.len(),
{
    if s.len() > 0 {
        lemma_all_couples(s.drop_first());
    }
}

proof fn lemma_first_non_couple_bound(s: Seq<JobList>)
    ensures
        first_non_couple(s) <= s.len(),
        first_non_couple(s) < s.len() ==> s[first_non_couple(s) as int] != JobList::Couple,
    decreases s.len(),
{
    if s.len() > 0 && s[0] == JobList::Couple {
        lemma_first_non_couple_bound(s.drop_first());
    }
}

proof fn lemma_fill(p: Seq<JobList>, s: Seq<JobList>, a: Seq<JobList>, j: JobList)
    requires
        count_in(p, JobList::Special) <= s.len(),
        count_in(p, JobList::Assist) <= a.len(),
    ensures
        fill_jobs(p, s, a).len() == p.len(),
        count_in(fill_jobs(p, s, a), j)
            == (if j == JobList::Special || j == JobList::Assist { 0 } else { count_in(p, j) })
            + count_in(s.take(count_in(p, JobList::Special) as int), j)
            + count_in(a.take(count_in(p, JobList::Assist) as int), j),
    decreases p.len(),
{
    if p.len() == 0 {
        assert(s.take(0) =~= Seq::<JobList>::empty());
        assert(a.take(0) =~= Seq::<JobList>::empty());
    } else {
        let rest = p.drop_first();
        let cs = count_in(p, JobList::Special) as int;
        let ca = count_in(p, JobList::Assist) as int;
        let f = fill_jobs(p, s, a);
        assert(count_in(p, JobList::Special) == (if p[0] == JobList::Special { 1nat } else { 0nat }) + count_in(rest, JobList::Special));
        assert(count_in(p, JobList::Assist) == (if p[0] == JobList::Assist { 1nat } else { 0nat }) + count_in(rest, JobList::Assist));
        assert(count_in(p, j) == (if p[0] == j { 1nat } else { 0nat }) + count_in(rest, j));
        if p[0] == JobList::Special {
            lemma_fill(rest, s.drop_first(), a, j);
            assert(f =~= seq![s[0]] + fill_jobs(rest, s.drop_first(), a));
            assert(s.take(cs) =~= seq![s[0]] + s.drop_first().take(cs - 1));
            lemma_count_add(seq![s[0]], s.drop_first().take(cs - 1), j);
            lemma_count_add(seq![s[0]], fill_jobs(rest, s.drop_first(), a), j);
            lemma_count_single(s[0], j);
        } else if p[0] == JobList::Assist {
            lemma_fill(rest, s, a.drop_first(), j);
            assert(f =~= seq![a[0]] + fill_jobs(rest, s, a.drop_first()));
            assert(a.take(ca) =~= seq![a[0]] + a.drop_first().take(ca - 1));
            lemma_count_add(seq![a[0]], a.drop_first().take(ca - 1), j);
            lemma_count_add(seq![a[0]], fill_jobs(rest, s, a.drop_first()), j);
            lemma_count_single(a[0], j);
        } else {
            lemma_fill(rest, s, a, j);
            assert(f =~= seq![p[0]] + fill_jobs(rest, s, a));
            lemma_count_add(seq![p[0]], fill_jobs(rest, s, a), j);
            lemma_count_single(p[0], j);
        }
    }
}

proof fn lemma_pool_counts(n: nat)
    ensures
        special_pool(n).len() == if special_count(n) == 1 { 9int } else { 10int },
        count_in(special_pool(n), JobList::Couple) == if special_count(n) == 1 { 0nat } else { 1nat },
        count_in(special_pool(n), JobList::Mafia) == 0,
        count_in(special_pool(n), JobList::Special) == 0,
        count_in(special_pool(n), JobList::Assist) == 0,
        count_in(assist_jobs(), JobList::Couple) == 0,
        count_in(assist_jobs(), JobList::Mafia) == 0,
        count_in(assist_jobs(), JobList::Special) == 0,
        count_in(assist_jobs(), JobList::Assist) == 0,
        count_in(special_pool(n), JobList::Police) == 0,
        count_in(special_pool(n), JobList::Doctor) == 0,
        count_in(special_pool(n), JobList::Cult) == 0,
        count_in(assist_jobs(), JobList::Police) == 0,
        count_in(assist_jobs(), JobList::Doctor) == 0,
        count_in(assist_jobs(), JobList::Cult) == 0,
{
    reveal_with_fuel(count_in, 11);
    let pool = special_pool(n);
    if special_count(n) == 1 {
        assert(pool =~= seq![
            JobList::Priest, JobList::Soldier, JobList::Politician, JobList::Shaman,
            JobList::Reporter, JobList::Gangster, JobList::Ghoul, JobList::Terrorist,
            JobList::Detective,
        ]);
    } else {
        assert(pool =~= special_jobs());
    }
}

/// The special jobs dealt: as many as the room gets, no mafia, no
/// placeholder, and lovers in pairs (two or none; none in a room of four).
proof fn lemma_special_outcome(n: nat, q: Seq<JobList>, s: Seq<JobList>)
    requires
        4 <= n <= 12,
        is_perm(q, special_pool(n)),
        special_outcome(n, q, s),
    ensures
        s.len() == special_count(n),
        count_in(s, JobList::Mafia) == 0,
        count_in(s, JobList::Special) == 0,
        count_in(s, JobList::Assist) == 0,
        count_in(s, JobList::Couple) == 0 || count_in(s, JobList::Couple) == 2,
        n == 4 ==> count_in(s, JobList::Couple) == 0,
{
    lemma_pool_counts(n);
    lemma_perm_len(q, special_pool(n));
    let k = special_count(n) as int;
    let drawn = q.take(k);
    lemma_count_perm(q, special_pool(n), JobList::Mafia);
    lemma_count_perm(q, special_pool(n), JobList::Special);
    lemma_count_perm(q, special_pool(n), JobList::Assist);
    lemma_count_perm(q, special_pool(n), JobList::Couple);
    lemma_count_take_le(q, k, JobList::Mafia);
    lemma_count_take_le(q, k, JobList::Special);
    lemma_count_take_le(q, k, JobList::Assist);
    lemma_count_take_le(q, k, JobList::Couple);
    if drawn.contains(JobList::Couple) {
        lemma_count_contains(drawn, JobList::Couple);
        assert(count_in(drawn, JobList::Couple) == 1);
        assert(k >= 2);
        let f = first_non_couple(drawn);
        lemma_first_non_couple_bound(drawn);
        if f >= drawn.len() {
            lemma_all_couples(drawn);
        }
        assert(f < drawn.len());
        let paired = pair_couple(drawn);
        assert(paired == drawn.update(f as int, JobList::Couple));
        lemma_count_update(drawn, f as int, JobList::Couple, JobList::Couple);
        lemma_count_update(drawn, f as int, JobList::Couple, JobList::Mafia);
        lemma_count_update(drawn, f as int, JobList::Couple, JobList::Special);
        lemma_count_update(drawn, f as int, JobList::Couple, JobList::Assist);
        lemma_perm_len(s, paired);
        lemma_count_perm(s, paired, JobList::Mafia);
        lemma_count_perm(s, paired, JobList::Special);
        lemma_count_perm(s, paired, JobList::Assist);
        lemma_count_perm(s, paired, JobList::Couple);
    } else {
        lemma_count_contains(drawn, JobList::Couple);
    }
}

/// A job that the special pool does not hold, other than the couple, is
/// not among the special jobs dealt.
proof fn lemma_special_absent(n: nat, q: Seq<JobList>, s: Seq<JobList>, j: JobList)
    requires
        is_perm(q, special_pool(n)),
        special_outcome(n, q, s),
        j != JobList::Couple,
        count_in(special_pool(n), j) == 0,
    ensures
        count_in(s, j) == 0,
{
    lemma_pool_counts(n);
    lemma_perm_len(q, special_pool(n));
    let k = special_count(n) as int;
    let drawn = q.take(k);
    lemma_count_perm(q, special_pool(n), j);
    if k <= q.len() {
        lemma_count_take_le(q, k, j);
    } else {
        assert(drawn =~= q);
    }
    if drawn.contains(JobList::Couple) {
        let f = first_non_couple(drawn);
        lemma_first_non_couple_bound(drawn);
        let paired = pair_couple(drawn);
        if f < drawn.len() {
            lemma_count_update(drawn, f as int, JobList::Couple, j);
        }
        lemma_count_perm(s, paired, j);
    }
}

/// A job assignment for a room of `n` players (4 to 12) gives every seat a
/// real job (no `Special` or `Assist` placeholder is left), deals as many
/// mafia as the room's template holds, one police, one doctor, a cult
/// leader from nine players on, and deals lovers in pairs: two or none, and
/// none in a room of four.
pub proof fn lemma_job_assignment(n: nat, v: Seq<JobList>)
    requires
        4 <= n <= 12,
        is_job_assignment(n, v),
    ensures
        v.len() == n,
        count_in(v, JobList::Special) == 0,
        count_in(v, JobList::Assist) == 0,
        count_in(v, JobList::Mafia) == count_in(job_template().take(n as int), JobList::Mafia),
        count_in(v, JobList::Couple) == 0 || count_in(v, JobList::Couple) == 2,
        n == 4 ==> count_in(v, JobList::Couple) == 0,
        count_in(v, JobList::Police) == 1,
        count_in(v, JobList::Doctor) == 1,
        count_in(v, JobList::Cult) == if n >= 9 { 1nat } else { 0nat },
{
    let (p, q, s, a) = choose|p: Seq<JobList>, q: Seq<JobList>, s: Seq<JobList>, a: Seq<JobList>|
        #![trigger fill_jobs(p, s, a), is_perm(q, special_pool(n))]
        is_perm(p, job_template().take(n as int))
        && is_perm(q, special_pool(n))
        && special_outcome(n, q, s)
        && is_perm(a, assist_jobs())
        && v == fill_jobs(p, s, a);
    let t = job_template().take(n as int);
    lemma_template_counts_all(n);
    lemma_perm_len(p, t);
    lemma_perm_len(a, assist_jobs());
    lemma_special_outcome(n, q, s);
    lemma_pool_counts(n);
    lemma_count_perm(p, t, JobList::Special);
    lemma_count_perm(p, t, JobList::Assist);
    lemma_count_perm(p, t, JobList::Mafia);
    lemma_count_perm(p, t, JobList::Couple);
    lemma_count_perm(a, assist_jobs(), JobList::Couple);
    lemma_count_perm(a, assist_jobs(), JobList::Mafia);
    lemma_count_perm(a, assist_jobs(), JobList::Special);
    lemma_count_perm(a, assist_jobs(), JobList::Assist);
    let cs = count_in(p, JobList::Special) as int;
    let ca = count_in(p, JobList::Assist) as int;
    assert(s.take(cs) =~= s);
    lemma_count_take_le(a, ca, JobList::Couple);
    lemma_count_take_le(a, ca, JobList::Mafia);
    lemma_count_take_le(a, ca, JobList::Special);
    lemma_count_take_le(a, ca, JobList::Assist);
    lemma_fill(p, s, a, JobList::Special);
    lemma_fill(p, s, a, JobList::Assist);
    lemma_fill(p, s, a, JobList::Mafia);
    lemma_fill(p, s, a, JobList::Couple);
    lemma_special_absent(n, q, s, JobList::Police);
    lemma_special_absent(n, q, s, JobList::Doctor);
    lemma_special_absent(n, q, s, JobList::Cult);
    lemma_count_perm(p, t, JobList::Police);
    lemma_count_perm(p, t, JobList::Doctor);
    lemma_count_perm(p, t, JobList::Cult);
    lemma_count_perm(a, assist_jobs(), JobList::Police);
    lemma_count_perm(a, assist_jobs(), JobList::Doctor);
    lemma_count_perm(a, assist_jobs(), JobList::Cult);
    lemma_count_take_le(a, ca, JobList::Police);
    lemma_count_take_le(a, ca, JobList::Doctor);
    lemma_count_take_le(a, ca, JobList::Cult);
    lemma_fill(p, s, a, JobList::Police);
    lemma_fill(p, s, a, JobList::Doctor);
    lemma_fill(p, s, a, JobList::Cult);
}

pub(crate) proof fn lemma_template_counts_all(n: nat)
    requires
        n <= 12,
    ensures
        count_in(job_template().take(n as int), JobList::Special) == special_count(n),
        count_in(job_template().take(n as int), JobList::Assist) == if n >= 6 { 1nat } else { 0nat },
        count_in(job_template().take(n as int), JobList::Couple) == 0,
        count_in(job_template().take(n as int), JobList::Police) == if n >= 2 { 1nat } else { 0nat },
        count_in(job_template().take(n as int), JobList::Doctor) == if n >= 3 { 1nat } else { 0nat },
        count_in(job_template().take(n as int), JobList::Cult) == if n >= 9 { 1nat } else { 0nat },
    decreases n,
{
    let t = job_template();
    if n == 0 {
        assert(t.take(0) =~= Seq::<JobList>::empty());
    } else {
        lemma_template_counts_all((n - 1) as nat);
        assert(t.take(n as int) =~= t.take(n - 1) + seq![t[n - 1]]);
        lemma_count_add(t.take(n - 1), seq![t[n - 1]], JobList::Special);
        lemma_count_add(t.take(n - 1), seq![t[n - 1]], JobList::Assist);
        lemma_count_add(t.take(n - 1), seq![t[n - 1]], JobList::Couple);
        lemma_count_single(t[n - 1], JobList::Special);
        lemma_count_single(t[n - 1], JobList::Assist);
        lemma_count_single(t[n - 1], JobList::Couple);
        lemma_count_add(t.take(n - 1), seq![t[n - 1]], JobList::Police);
        lemma_count_single(t[n - 1], JobList::Police);
        lemma_count_add(t.take(n - 1), seq![t[n - 1]], JobList::Doctor);
        lemma_count_single(t[n - 1], JobList::Doctor);
        lemma_count_add(t.take(n - 1), seq![t[n - 1]], JobList::Cult);
        lemma_count_single(t[n - 1], JobList::Cult);
    }
}

} // verus!
