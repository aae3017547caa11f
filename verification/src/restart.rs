use vstd::prelude::*;

verus! {

/// `n` is one of 1, 4, 16, 64, ...
pub open spec fn is_power_of_four(n: int) -> bool
    decreases n,
{
    if n == 1 {
        true
    } else if n >= 4 && n % 4 == 0 {
        is_power_of_four(n / 4)
    } else {
        false
    }
}

/// The largest power of four at or below `t`, and 0 for `t == 0`.
pub open spec fn largest_power_of_four_at_most(t: nat) -> nat
    decreases t,
{
    if t == 0 {
        0
    } else if t < 4 {
        1
    } else {
        4 * largest_power_of_four_at_most(t / 4)
    }
}

/// What `largest_power_of_four_at_most` is: a power of four `r` with `r <= t < 4 * r`.
pub proof fn lemma_largest_power_of_four(t: nat)
    requires
        t > 0,
    ensures
        is_power_of_four(largest_power_of_four_at_most(t) as int),
        largest_power_of_four_at_most(t) <= t < 4 * largest_power_of_four_at_most(t),
    decreases t,
{
    if t >= 4 {
        lemma_largest_power_of_four(t / 4);
        let r = largest_power_of_four_at_most(t / 4);
        assert((4 * r) % 4 == 0 && (4 * r) / 4 == r);
    }
}

/// Of two powers of four, the one below four times the other is at most the other.
pub proof fn lemma_powers_of_four_ordered(p: int, r: int)
    requires
        is_power_of_four(p),
        is_power_of_four(r),
        p < 4 * r,
    ensures
        p <= r,
    decreases r,
{
    if r != 1 && p != 1 {
        lemma_powers_of_four_ordered(p / 4, r / 4);
    }
}

/// A power of four `r` with `r <= t < 4 * r` is the largest one at or below `t`.
pub proof fn lemma_largest_power_of_four_unique(t: nat, r: int)
    requires
        is_power_of_four(r),
        r <= t < 4 * r,
    ensures
        largest_power_of_four_at_most(t) == r,
{
    lemma_largest_power_of_four(t);
    let s = largest_power_of_four_at_most(t) as int;
    lemma_powers_of_four_ordered(r, s);
    lemma_powers_of_four_ordered(s, r);
}

proof fn lemma_shift_is_power_of_four(e: u32)
    requires
        e < 32,
        e % 2 == 0,
    ensures
        is_power_of_four((1u32 << e) as int),
    decreases e,
{
    if e == 0 {
        assert(1u32 << 0u32 == 1u32) by (bit_vector);
    } else {
        let q = 1u32 << ((e - 2) as u32);
        assert(2 <= e < 32 ==> (1u32 << e) == 4 * (1u32 << ((e - 2) as u32))) by (bit_vector);
        lemma_shift_is_power_of_four((e - 2) as u32);
        assert((4 * q as int) % 4 == 0 && (4 * q as int) / 4 == q);
    }
}

/// The largest power of four at or below `x` (0 when `x` is 0), found from the position of the
/// highest set bit with its lowest bit cleared.
pub fn largest_power_of_four(x: u32) -> (r: u32)
    ensures
        r == largest_power_of_four_at_most(x as nat),
{
    if x == 0 {
        return 0;
    }
    let lz = x.leading_zeros();
    let e = (lz ^ 31) & !1u32;
    proof {
        vstd::std_specs::bits::axiom_u32_leading_zeros(x);
        assert(lz < 32);
        assert((x >> ((31 - lz) as u32)) & 1u32 != 0u32);
        assert(x >> ((32 - lz) as u32) == 0u32);
        assert(lz < 32 && (x >> ((31 - lz) as u32)) & 1u32 != 0u32 && x >> ((32 - lz) as u32) == 0u32
            && e == (lz ^ 31u32) & !1u32
            ==> e < 32 && e % 2 == 0 && (1u32 << e) <= x && x < 4 * (1u32 << e)) by (bit_vector);
    }
    let r = 1u32 << e;
    proof {
        lemma_shift_is_power_of_four(e);
        lemma_largest_power_of_four_unique(x as nat, r as int);
    }
    r
}

/// The largest listed point at or below `t`, and 0 when no listed point is at or below `t`.
pub open spec fn latest_point_at_or_before(points: Seq<u32>, t: u32) -> u32
    decreases points.len(),
{
    if points.len() == 0 {
        0
    } else {
        let rest = latest_point_at_or_before(points.drop_last(), t);
        let p = points.last();
        if p <= t && p > rest {
            p
        } else {
            rest
        }
    }
}

/// What `latest_point_at_or_before` is: at most `t`, either 0 or a listed point, and at least
/// every listed point at or below `t`.
pub proof fn lemma_latest_point(points: Seq<u32>, t: u32)
    ensures
        latest_point_at_or_before(points, t) <= t,
        latest_point_at_or_before(points, t) == 0 || points.contains(
            latest_point_at_or_before(points, t),
        ),
        forall|i: int|
            0 <= i < points.len() && points[i] <= t ==> points[i] <= latest_point_at_or_before(
                points,
                t,
            ),
    decreases points.len(),
{
    if points.len() > 0 {
        let init = points.drop_last();
        lemma_latest_point(init, t);
        let rest = latest_point_at_or_before(init, t);
        if rest != 0 {
            let k = choose|k: int| 0 <= k < init.len() && init[k] == rest;
            assert(points[k] == rest);
        }
        assert forall|i: int| 0 <= i < points.len() && points[i] <= t implies points[i]
            <= latest_point_at_or_before(points, t) by {
            if i < points.len() - 1 {
                assert(init[i] == points[i]);
            }
        }
        if latest_point_at_or_before(points, t) != rest {
            assert(points[points.len() - 1] == points.last());
        }
    }
}

/// Any value with the three properties of `lemma_latest_point` is the latest point.
pub proof fn lemma_latest_point_unique(points: Seq<u32>, t: u32, r: u32)
    requires
        r <= t,
        r == 0 || points.contains(r),
        forall|i: int| 0 <= i < points.len() && points[i] <= t ==> points[i] <= r,
    ensures
        latest_point_at_or_before(points, t) == r,
{
    lemma_latest_point(points, t);
    let l = latest_point_at_or_before(points, t);
    if l != 0 {
        let k = choose|k: int| 0 <= k < points.len() && points[k] == l;
        assert(points[k] <= r);
    }
    if r != 0 {
        let k = choose|k: int| 0 <= k < points.len() && points[k] == r;
        assert(points[k] <= l);
    }
}

/// The largest entry of `points` at or below `t`, or 0 when there is none.
pub fn latest_point(points: &Vec<u32>, t: u32) -> (r: u32)
    ensures
        r == latest_point_at_or_before(points@, t),
{
    let mut best: u32 = 0;
    let mut i: usize = 0;
    while i < points.len()
        invariant
            i <= points.len(),
            best == latest_point_at_or_before(points@.take(i as int), t),
        decreases points.len() - i,
    {
        let p = points[i];
        assert(points@.take(i + 1).drop_last() =~= points@.take(i as int));
        assert(points@.take(i + 1).last() == p);
        if p <= t && p > best {
            best = p;
        }
        i = i + 1;
    }
    assert(points@.take(points.len() as int) =~= points@);
    best
}

/// When the cumulative strategy discount restarts during solving. Iterations are zero-based.
#[derive(Debug, Clone, PartialEq, Eq)]
pub enum RestartSchedule {
    /// Restarts at iterations 1, 4, 16, 64, 256, ...
    PowersOfFour,
    /// Never restarts.
    Never,
    /// Restarts counting from the largest listed iteration at or below the current one.
    At(Vec<u32>),
}

impl RestartSchedule {
    /// The iteration from which the cumulative-strategy discount counts at `t`.
    pub open spec fn base_at(&self, t: u32) -> u32 {
        match self {
            RestartSchedule::PowersOfFour => largest_power_of_four_at_most(t as nat) as u32,
            RestartSchedule::Never => 0,
            RestartSchedule::At(points) => latest_point_at_or_before(points@, t),
        }
    }

    /// The iteration from which the cumulative-strategy discount counts at `current_iteration`:
    /// the largest power of four at or below it, 0, or the largest listed point at or below it
    /// (0 when there is none).
    pub fn restart_base(&self, current_iteration: u32) -> (r: u32)
        ensures
            r == self.base_at(current_iteration),
            r <= current_iteration,
            self is Never ==> r == 0,
            self is PowersOfFour && current_iteration == 0 ==> r == 0,
            self is PowersOfFour && current_iteration > 0 ==> is_power_of_four(r as int) && r
                <= current_iteration < 4 * r,
            self is At ==> r == 0 || self->At_0@.contains(r),
            self is At ==> forall|i: int|
                0 <= i < self->At_0@.len() && self->At_0@[i] <= current_iteration
                    ==> #[trigger] self->At_0@[i] <= r,
    {
        match self {
            RestartSchedule::PowersOfFour => {
                proof {
                    if current_iteration > 0 {
                        lemma_largest_power_of_four(current_iteration as nat);
                    }
                }
                largest_power_of_four(current_iteration)
            },
            RestartSchedule::Never => 0,
            RestartSchedule::At(points) => {
                proof {
                    lemma_latest_point(points@, current_iteration);
                }
                latest_point(points, current_iteration)
            },
        }
    }
}

} // verus!
