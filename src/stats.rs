//! Timings of analyser runs over the generated corpus, and their summaries.
use vstd::prelude::*;
use vstd::seq_lib::*;
use crate::fmt::join;
use crate::text::{digits, push_char, push_digits, push_digits_u64};
use crate::typing::is_digit;

verus! {

broadcast use vstd::seq_lib::group_to_multiset_ensures;

/// One analyser run: its wall-clock time in milliseconds and the number of
/// classes of the module it checked.
#[derive(Clone, Copy, PartialEq, Eq, Structural, Debug)]
pub struct Run {
    pub duration_ms: u64,
    pub id: u32,
}

impl Run {
    pub fn new(duration_ms: u64, num_classes: u32) -> (r: Self)
        ensures
            r.duration_ms == duration_ms,
            r.id == num_classes,
    {
        Run { duration_ms, id: num_classes }
    }

    /// `(classes, milliseconds)`, a point of the runtime plot.
    pub fn to_point(&self) -> (r: (u32, u64))
        ensures
            r == (self.id, self.duration_ms),
    {
        (self.id, self.duration_ms)
    }

    /// Orders runs by their number of classes.
    pub fn cmp_num(&self, other: &Self) -> (r: core::cmp::Ordering)
        ensures
            (r == core::cmp::Ordering::Less) == (self.id < other.id),
            (r == core::cmp::Ordering::Equal) == (self.id == other.id),
            (r == core::cmp::Ordering::Greater) == (self.id > other.id),
    {
        if self.id < other.id {
            core::cmp::Ordering::Less
        } else if self.id == other.id {
            core::cmp::Ordering::Equal
        } else {
            core::cmp::Ordering::Greater
        }
    }
}

pub open spec fn sorted_by_id(rs: Seq<Run>) -> bool {
    forall|i: int, j: int| 0 <= i < j < rs.len() ==> rs[i].id <= rs[j].id
}

pub open spec fn sorted_u64(v: Seq<u64>) -> bool {
    forall|i: int, j: int| 0 <= i < j < v.len() ==> v[i] <= v[j]
}

pub open spec fn sum_ms(rs: Seq<Run>) -> nat
    decreases rs.len(),
{
    if rs.len() == 0 {
        0
    } else {
        sum_ms(rs.drop_last()) + rs.last().duration_ms as nat
    }
}

/// Twice the median of sorted values: the middle one doubled, or the two
/// middle ones added.
pub open spec fn twice_median(v: Seq<u64>) -> nat {
    let h = (v.len() / 2) as int;
    if v.len() % 2 == 1 {
        2 * (v[h] as nat)
    } else {
        (v[h - 1] as nat) + (v[h] as nat)
    }
}

/// `id millis`
pub open spec fn run_line(r: Run) -> Seq<char> {
    digits(r.id as nat) + seq![' '] + digits(r.duration_ms as nat)
}

pub open spec fn digit_val(c: char) -> nat {
    (c as u32 - '0' as u32) as nat
}

/// The number that the decimal digits of `cs` spell, read in order and
/// skipping every other character.
pub open spec fn number_in(cs: Seq<char>) -> nat
    decreases cs.len(),
{
    if cs.len() == 0 {
        0
    } else if is_digit(cs.last()) {
        number_in(cs.drop_last()) * 10 + digit_val(cs.last())
    } else {
        number_in(cs.drop_last())
    }
}

pub open spec fn has_digit(cs: Seq<char>) -> bool {
    exists|i: int| 0 <= i < cs.len() && is_digit(#[trigger] cs[i])
}

/// The number of classes in a corpus file's stem (`generated-12` gives
/// 12): its digits read as one decimal number; `None` without digits or
/// when the number exceeds `u32`.
pub fn get_num_classes(stem: &Vec<char>) -> (r: Option<u32>)
    ensures
        r == if has_digit(stem@) && number_in(stem@) <= u32::MAX as nat {
            Some(number_in(stem@) as u32)
        } else {
            None::<u32>
        },
{
    let mut v: u64 = 0;
    let mut seen = false;
    let mut over = false;
    let mut i: usize = 0;
    while i < stem.len()
        invariant
            i <= stem@.len(),
            seen == has_digit(stem@.take(i as int)),
            !over ==> v as nat == number_in(stem@.take(i as int)) && v <= u32::MAX,
            over ==> number_in(stem@.take(i as int)) > u32::MAX as nat,
        decreases stem@.len() - i,
    {
        let c = stem[i];
        proof {
            assert(stem@.take(i + 1).drop_last() =~= stem@.take(i as int));
            assert(stem@.take(i + 1).last() == c);
            if is_digit(c) {
                assert(stem@.take(i + 1)[i as int] == c);
            }
            if !is_digit(c) && has_digit(stem@.take(i + 1)) {
                let w = choose|w: int| 0 <= w < i + 1 && is_digit(#[trigger] stem@.take(i + 1)[w]);
                assert(stem@.take(i as int)[w] == stem@.take(i + 1)[w]);
            }
            if has_digit(stem@.take(i as int)) {
                let w = choose|w: int| 0 <= w < i && is_digit(#[trigger] stem@.take(i as int)[w]);
                assert(stem@.take(i + 1)[w] == stem@.take(i as int)[w]);
            }
        }
        if '0' <= c && c <= '9' {
            seen = true;
            if !over {
                let d = (c as u32 - '0' as u32) as u64;
                let next = v * 10 + d;
                if next > u32::MAX as u64 {
                    over = true;
                } else {
                    v = next;
                }
            }
        }
        i += 1;
    }
    proof {
        assert(stem@.take(stem@.len() as int) =~= stem@);
    }
    if !seen || over {
        None
    } else {
        Some(v as u32)
    }
}

/// The runs by their number of classes, stable for equal numbers.
pub fn sort_runs(v: &Vec<Run>) -> (r: Vec<Run>)
    ensures
        sorted_by_id(r@),
        r@.to_multiset() == v@.to_multiset(),
{
    let mut r: Vec<Run> = Vec::new();
    let mut k: usize = 0;
    while k < v.len()
        invariant
            k <= v@.len(),
            sorted_by_id(r@),
            r@.to_multiset() == v@.take(k as int).to_multiset(),
        decreases v@.len() - k,
    {
        let x = v[k];
        let mut p: usize = r.len();
        while p > 0 && r[p - 1].id > x.id
            invariant
                p <= r@.len(),
                sorted_by_id(r@),
                forall|j: int| p <= j < r@.len() ==> r@[j].id > x.id,
            decreases p,
        {
            p -= 1;
        }
        let ghost before = r@;
        r.insert(p, x);
        proof {
            assert(r@ == before.insert(p as int, x));
            to_multiset_insert(before, p as int, x);
            assert(v@.take(k + 1) =~= v@.take(k as int).push(x));
            assert forall|i: int, j: int| 0 <= i < j < r@.len() implies r@[i].id <= r@[j].id by {
                if i < p && j > p {
                    assert(r@[i] == before[i]);
                    assert(r@[j] == before[j - 1]);
                    if p > 0 {
                        assert(before[p - 1].id <= x.id);
                    }
                }
            }
        }
        k += 1;
    }
    assert(v@.take(v@.len() as int) =~= v@);
    r
}

/// The values in ascending order.
pub fn sort_u64(v: &Vec<u64>) -> (r: Vec<u64>)
    ensures
        sorted_u64(r@),
        r@.to_multiset() == v@.to_multiset(),
{
    let mut r: Vec<u64> = Vec::new();
    let mut k: usize = 0;
    while k < v.len()
        invariant
            k <= v@.len(),
            sorted_u64(r@),
            r@.to_multiset() == v@.take(k as int).to_multiset(),
        decreases v@.len() - k,
    {
        let x = v[k];
        let mut p: usize = r.len();
        while p > 0 && r[p - 1] > x
            invariant
                p <= r@.len(),
                sorted_u64(r@),
                forall|j: int| p <= j < r@.len() ==> r@[j] > x,
            decreases p,
        {
            p -= 1;
        }
        let ghost before = r@;
        r.insert(p, x);
        proof {
            to_multiset_insert(before, p as int, x);
            assert(v@.take(k + 1) =~= v@.take(k as int).push(x));
            assert forall|i: int, j: int| 0 <= i < j < r@.len() implies r@[i] <= r@[j] by {
                if i < p && j > p {
                    assert(r@[i] == before[i]);
                    assert(r@[j] == before[j - 1]);
                    if p > 0 {
                        assert(before[p - 1] <= x);
                    }
                }
            }
        }
        k += 1;
    }
    assert(v@.take(v@.len() as int) =~= v@);
    r
}

/// The runs of one analyser, sorted by number of classes on demand.
pub struct BenchmarkResult {
    pub runs: Vec<Run>,
    pub is_sorted: bool,
}

impl BenchmarkResult {
    pub open spec fn wf(&self) -> bool {
        self.is_sorted ==> sorted_by_id(self.runs@)
    }

    pub fn new() -> (r: Self)
        ensures
            r.runs@.len() == 0,
            r.wf(),
    {
        BenchmarkResult { runs: Vec::new(), is_sorted: false }
    }

    pub fn size(&self) -> (r: usize)
        ensures
            r == self.runs@.len(),
    {
        self.runs.len()
    }

    pub fn push(&mut self, r: Run)
        ensures
            final(self).runs@ == old(self).runs@.push(r),
            !final(self).is_sorted,
            final(self).wf(),
    {
        self.is_sorted = false;
        self.runs.push(r)
    }

    /// The longest run time; `None` without runs.
    pub fn max_time(&self) -> (r: Option<u64>)
        ensures
            r is None <==> self.runs@.len() == 0,
            r matches Some(m) ==> (exists|k: int| 0 <= k < self.runs@.len() && self.runs@[k].duration_ms == m)
                && forall|k: int| 0 <= k < self.runs@.len() ==> self.runs@[k].duration_ms <= m,
    {
        if self.runs.len() == 0 {
            return None;
        }
        let mut m = self.runs[0].duration_ms;
        let mut i: usize = 1;
        while i < self.runs.len()
            invariant
                1 <= i <= self.runs@.len(),
                exists|k: int| 0 <= k < i && self.runs@[k].duration_ms == m,
                forall|k: int| 0 <= k < i ==> self.runs@[k].duration_ms <= m,
            decreases self.runs@.len() - i,
        {
            if self.runs[i].duration_ms > m {
                m = self.runs[i].duration_ms;
            }
            i += 1;
        }
        Some(m)
    }

    /// The shortest run time; `None` without runs.
    pub fn min_time(&self) -> (r: Option<u64>)
        ensures
            r is None <==> self.runs@.len() == 0,
            r matches Some(m) ==> (exists|k: int| 0 <= k < self.runs@.len() && self.runs@[k].duration_ms == m)
                && forall|k: int| 0 <= k < self.runs@.len() ==> self.runs@[k].duration_ms >= m,
    {
        if self.runs.len() == 0 {
            return None;
        }
        let mut m = self.runs[0].duration_ms;
        let mut i: usize = 1;
        while i < self.runs.len()
            invariant
                1 <= i <= self.runs@.len(),
                exists|k: int| 0 <= k < i && self.runs@[k].duration_ms == m,
                forall|k: int| 0 <= k < i ==> self.runs@[k].duration_ms >= m,
            decreases self.runs@.len() - i,
        {
            if self.runs[i].duration_ms < m {
                m = self.runs[i].duration_ms;
            }
            i += 1;
        }
        Some(m)
    }

    /// The largest number of classes; `None` without runs.
    pub fn max_num(&self) -> (r: Option<u32>)
        ensures
            r is None <==> self.runs@.len() == 0,
            r matches Some(m) ==> (exists|k: int| 0 <= k < self.runs@.len() && self.runs@[k].id == m)
                && forall|k: int| 0 <= k < self.runs@.len() ==> self.runs@[k].id <= m,
    {
        if self.runs.len() == 0 {
            return None;
        }
        let mut m = self.runs[0].id;
        let mut i: usize = 1;
        while i < self.runs.len()
            invariant
                1 <= i <= self.runs@.len(),
                exists|k: int| 0 <= k < i && self.runs@[k].id == m,
                forall|k: int| 0 <= k < i ==> self.runs@[k].id <= m,
            decreases self.runs@.len() - i,
        {
            if self.runs[i].id > m {
                m = self.runs[i].id;
            }
            i += 1;
        }
        Some(m)
    }

    /// Sorts the runs by number of classes, unless they already are.
    pub fn sort(&mut self)
        requires
            old(self).wf(),
        ensures
            final(self).is_sorted,
            final(self).wf(),
            sorted_by_id(final(self).runs@),
            final(self).runs@.to_multiset() == old(self).runs@.to_multiset(),
            old(self).is_sorted ==> final(self).runs@ == old(self).runs@,
    {
        if !self.is_sorted {
            self.runs = sort_runs(&self.runs);
            self.is_sorted = true;
        }
    }

    /// The first `n` runs by number of classes.
    pub fn take(&mut self, n: usize) -> (r: BenchmarkResult)
        requires
            old(self).wf(),
        ensures
            final(self).is_sorted,
            sorted_by_id(final(self).runs@),
            final(self).runs@.to_multiset() == old(self).runs@.to_multiset(),
            r.is_sorted,
            r.wf(),
            r.runs@ == final(self).runs@.take(if n < final(self).runs@.len() { n as int } else { final(self).runs@.len() as int }),
    {
        self.sort();
        let mut runs: Vec<Run> = Vec::new();
        let mut i: usize = 0;
        while i < n && i < self.runs.len()
            invariant
                i <= self.runs@.len(),
                i <= n,
                runs@ == self.runs@.take(i as int),
            decreases self.runs@.len() - i,
        {
            runs.push(self.runs[i]);
            i += 1;
            assert(runs@ =~= self.runs@.take(i as int));
        }
        let r = BenchmarkResult { runs, is_sorted: true };
        proof {
            assert forall|a: int, b: int| 0 <= a < b < r.runs@.len() implies r.runs@[a].id <= r.runs@[b].id by {
                assert(r.runs@[a] == self.runs@[a] && r.runs@[b] == self.runs@[b]);
            }
        }
        r
    }

    /// The runs as plot points, by number of classes.
    pub fn to_points(&mut self) -> (r: Vec<(u32, u64)>)
        requires
            old(self).wf(),
        ensures
            final(self).is_sorted,
            sorted_by_id(final(self).runs@),
            final(self).runs@.to_multiset() == old(self).runs@.to_multiset(),
            r@ == final(self).runs@.map_values(|x: Run| (x.id, x.duration_ms)),
    {
        self.sort();
        let mut r: Vec<(u32, u64)> = Vec::new();
        let mut i: usize = 0;
        while i < self.runs.len()
            invariant
                i <= self.runs@.len(),
                r@ == self.runs@.take(i as int).map_values(|x: Run| (x.id, x.duration_ms)),
            decreases self.runs@.len() - i,
        {
            r.push(self.runs[i].to_point());
            i += 1;
            assert(r@ =~= self.runs@.take(i as int).map_values(|x: Run| (x.id, x.duration_ms)));
        }
        assert(self.runs@.take(self.runs@.len() as int) =~= self.runs@);
        r
    }

    /// The run times, in the order of the runs.
    pub fn times(&self) -> (r: Vec<u64>)
        ensures
            r@ == self.runs@.map_values(|x: Run| x.duration_ms),
    {
        let mut r: Vec<u64> = Vec::new();
        let mut i: usize = 0;
        while i < self.runs.len()
            invariant
                i <= self.runs@.len(),
                r@ == self.runs@.take(i as int).map_values(|x: Run| x.duration_ms),
            decreases self.runs@.len() - i,
        {
            r.push(self.runs[i].duration_ms);
            i += 1;
            assert(r@ =~= self.runs@.take(i as int).map_values(|x: Run| x.duration_ms));
        }
        assert(self.runs@.take(self.runs@.len() as int) =~= self.runs@);
        r
    }

    /// The sum of the run times, in milliseconds.
    pub fn total_time(&self) -> (r: u128)
        requires
            self.runs@.len() <= u64::MAX,
        ensures
            r == sum_ms(self.runs@),
    {
        let mut t: u128 = 0;
        let mut i: usize = 0;
        while i < self.runs.len()
            invariant
                i <= self.runs@.len(),
                self.runs@.len() <= u64::MAX,
                t == sum_ms(self.runs@.take(i as int)),
                t <= i * (u64::MAX as nat),
            decreases self.runs@.len() - i,
        {
            proof {
                assert(self.runs@.take(i + 1).drop_last() =~= self.runs@.take(i as int));
                assert((i + 1) * (u64::MAX as nat) == i * (u64::MAX as nat) + u64::MAX as nat) by (nonlinear_arith);
                assert(i * (u64::MAX as nat) <= u64::MAX as nat * u64::MAX as nat) by (nonlinear_arith)
                    requires i <= u64::MAX;
            }
            t = t + self.runs[i].duration_ms as u128;
            i += 1;
        }
        assert(self.runs@.take(self.runs@.len() as int) =~= self.runs@);
        t
    }

    /// Twice the median run time (the middle time of the sorted times, or the
    /// sum of the two middle ones); `None` without runs.
    pub fn median2(&self) -> (r: Option<u128>)
        ensures
            r is None <==> self.runs@.len() == 0,
            r matches Some(m) ==> exists|v: Seq<u64>|
                sorted_u64(v) && v.to_multiset() == self.runs@.map_values(|x: Run| x.duration_ms).to_multiset()
                    && m == twice_median(v),
    {
        let t = self.times();
        let v = sort_u64(&t);
        proof {
            v@.to_multiset_ensures();
            t@.to_multiset_ensures();
        }
        let n = v.len();
        if n == 0 {
            return None;
        }
        let m: u128 = if n % 2 == 1 {
            2 * v[n / 2] as u128
        } else {
            v[n / 2 - 1] as u128 + v[n / 2] as u128
        };
        Some(m)
    }

    /// One `classes millis` line per run.
    pub fn format(&self) -> (r: String)
        ensures
            r@ == join(self.runs@.map_values(|x: Run| run_line(x)), seq!['\n']),
    {
        let mut out = String::new();
        let ghost parts = self.runs@.map_values(|x: Run| run_line(x));
        let mut i: usize = 0;
        while i < self.runs.len()
            invariant
                i <= self.runs@.len(),
                parts == self.runs@.map_values(|x: Run| run_line(x)),
                out@ == join(parts.take(i as int), seq!['\n']),
            decreases self.runs@.len() - i,
        {
            if i > 0 {
                push_char(&mut out, '\n');
            }
            let ghost before = out@;
            push_digits(&mut out, self.runs[i].id);
            push_char(&mut out, ' ');
            push_digits_u64(&mut out, self.runs[i].duration_ms);
            proof {
                crate::fmt::lemma_join_step(parts, i as int, seq!['\n']);
                assert(out@ =~= before + run_line(self.runs@[i as int]));
            }
            i += 1;
            assert(out@ =~= join(parts.take(i as int), seq!['\n']));
        }
        assert(parts.take(self.runs@.len() as int) =~= parts);
        out
    }
}

} // verus!
