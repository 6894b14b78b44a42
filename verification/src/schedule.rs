use vstd::prelude::*;
use vstd::arithmetic::div_mod::lemma_fundamental_div_mod_converse;

verus! {

/// One step of a planet's update over its quants, numbered `0..count`.
///
/// A planet's update visits its quants in order. For quant `i` it first
/// advances the quant (gravity towards the planet's centre, then motion), and
/// then collides it with every other quant `j`, the ones before it first and
/// the ones after it next, each in increasing order of `j`.
#[derive(Clone, Copy, Debug, PartialEq, Eq, Structural)]
pub enum UpdateStep {
    /// Apply gravity to quant `i` and move it.
    Advance(usize),
    /// Collide quant `i` (the first index) with quant `j` (the second).
    Collide(usize, usize),
}

/// A step that names quants of a planet of `count` quants, and never a quant
/// colliding with itself.
pub open spec fn valid_step(count: usize, step: UpdateStep) -> bool {
    match step {
        UpdateStep::Advance(i) => i < count,
        UpdateStep::Collide(i, j) => i < count && j < count && i != j,
    }
}

/// Where a step stands in the update of a planet of `count` quants: quant `i`
/// owns the `count` places from `i * count` on, its advance first, then its
/// collisions with the other quants in increasing order.
pub open spec fn step_position(count: usize, step: UpdateStep) -> int {
    match step {
        UpdateStep::Advance(i) => i * count,
        UpdateStep::Collide(i, j) => i * count + 1 + (if j < i {
            j as int
        } else {
            j - 1
        }),
    }
}

/// The number of steps in the update of a planet of `count` quants.
pub open spec fn schedule_len(count: usize) -> int {
    (count * count) as int
}

/// The step at place `k` of the update of a planet of `count` quants.
pub open spec fn step_at(count: usize, k: int) -> UpdateStep {
    let i = k / (count as int);
    let r = k % (count as int);
    if r == 0 {
        UpdateStep::Advance(i as usize)
    } else if r - 1 < i {
        UpdateStep::Collide(i as usize, (r - 1) as usize)
    } else {
        UpdateStep::Collide(i as usize, r as usize)
    }
}

/// The whole update of a planet of `count` quants, step by step.
pub open spec fn schedule(count: usize) -> Seq<UpdateStep> {
    Seq::new(schedule_len(count) as nat, |k: int| step_at(count, k))
}

proof fn lemma_div_mod_of(count: usize, i: int, r: int)
    requires
        count > 0,
        0 <= r < count,
    ensures
        (i * count + r) / (count as int) == i,
        (i * count + r) % (count as int) == r,
{
    lemma_fundamental_div_mod_converse(i * count + r, count as int, i, r);
}

proof fn lemma_place_bound(count: usize, i: int, r: int)
    requires
        0 <= i < count,
        0 <= r < count,
    ensures
        0 <= i * count + r < count * count,
{
    assert(0 <= i * count) by (nonlinear_arith)
        requires
            0 <= i,
            0 <= count,
    ;
    assert(i * count + r < count * count) by (nonlinear_arith)
        requires
            0 <= i < count,
            0 <= r < count,
    ;
}

/// A valid step has a place inside the update.
pub proof fn lemma_position_in_range(count: usize, step: UpdateStep)
    requires
        valid_step(count, step),
    ensures
        0 <= step_position(count, step) < schedule_len(count),
{
    match step {
        UpdateStep::Advance(i) => lemma_place_bound(count, i as int, 0),
        UpdateStep::Collide(i, j) => {
            let r: int = 1 + (if j < i { j as int } else { j - 1 });
            lemma_place_bound(count, i as int, r);
        },
    }
}

/// The step found at a valid step's place is that step.
pub proof fn lemma_step_at_position(count: usize, step: UpdateStep)
    requires
        valid_step(count, step),
    ensures
        step_at(count, step_position(count, step)) == step,
{
    match step {
        UpdateStep::Advance(i) => lemma_div_mod_of(count, i as int, 0),
        UpdateStep::Collide(i, j) => {
            let r: int = 1 + (if j < i { j as int } else { j - 1 });
            lemma_div_mod_of(count, i as int, r);
        },
    }
}

/// Every place of the update holds a valid step, whose place it is.
pub proof fn lemma_position_of_step_at(count: usize, k: int)
    requires
        0 <= k < schedule_len(count),
    ensures
        valid_step(count, step_at(count, k)),
        step_position(count, step_at(count, k)) == k,
{
    assert(count > 0) by (nonlinear_arith)
        requires
            0 <= k < count * count,
    ;
    let i = k / (count as int);
    let r = k % (count as int);
    vstd::arithmetic::div_mod::lemma_fundamental_div_mod(k, count as int);
    vstd::arithmetic::div_mod::lemma_mod_bound(k, count as int);
    vstd::arithmetic::mul::lemma_mul_is_commutative(count as int, i);
    assert(k == i * count + r);
    assert(0 <= i < count) by {
        vstd::arithmetic::div_mod::lemma_div_pos_is_pos(k, count as int);
        if i >= count {
            assert(i * count >= count * count) by (nonlinear_arith)
                requires
                    i >= count,
                    count > 0,
            ;
        }
    }
}

/// Each valid step comes exactly once in the update: the step at a place is a
/// given valid step if and only if the place is that step's.
pub proof fn lemma_each_step_once(count: usize, step: UpdateStep, k: int)
    requires
        valid_step(count, step),
        0 <= k < schedule_len(count),
    ensures
        schedule(count)[k] == step <==> k == step_position(count, step),
{
    lemma_position_of_step_at(count, k);
    lemma_step_at_position(count, step);
}

/// Every quant is advanced, and every quant collides with every other quant,
/// somewhere in the update.
pub proof fn lemma_every_step_visited(count: usize, step: UpdateStep)
    requires
        valid_step(count, step),
    ensures
        schedule(count).contains(step),
{
    lemma_position_in_range(count, step);
    lemma_step_at_position(count, step);
    assert(schedule(count)[step_position(count, step)] == step);
}

/// A quant is advanced before it collides with any other quant, its
/// collisions come in increasing order of the other quant, and all of them
/// come before the next quant is advanced.
pub proof fn lemma_update_order(count: usize, i: usize, j1: usize, j2: usize)
    requires
        valid_step(count, UpdateStep::Collide(i, j1)),
        valid_step(count, UpdateStep::Collide(i, j2)),
    ensures
        step_position(count, UpdateStep::Advance(i)) < step_position(
            count,
            UpdateStep::Collide(i, j1),
        ),
        j1 < j2 ==> step_position(count, UpdateStep::Collide(i, j1)) < step_position(
            count,
            UpdateStep::Collide(i, j2),
        ),
        i + 1 < count ==> step_position(count, UpdateStep::Collide(i, j1)) < step_position(
            count,
            UpdateStep::Advance((i + 1) as usize),
        ),
{
    assert((i + 1) * count == i * count + count) by (nonlinear_arith);
}

/// The first step of the update of a planet of `count` quants; `None` for a
/// planet without quants.
pub fn first_step(count: usize) -> (first: Option<UpdateStep>)
    ensures
        schedule_len(count) > 0 ==> first == Some(step_at(count, 0)),
        schedule_len(count) == 0 ==> first is None,
{
    if count == 0 {
        assert(schedule_len(0) == 0);
        None
    } else {
        assert(schedule_len(count) > 0) by (nonlinear_arith)
            requires
                count > 0,
        ;
        proof {
            lemma_div_mod_of(count, 0, 0);
        }
        Some(UpdateStep::Advance(0))
    }
}

/// The step that follows `step` in the update of a planet of `count` quants;
/// `None` after the last step, and for a step that is not valid.
pub fn next_step(count: usize, step: UpdateStep) -> (next: Option<UpdateStep>)
    ensures
        !valid_step(count, step) ==> next is None,
        valid_step(count, step) && step_position(count, step) + 1 < schedule_len(
            count,
        ) ==> next == Some(step_at(count, step_position(count, step) + 1)),
        valid_step(count, step) && step_position(count, step) + 1 >= schedule_len(
            count,
        ) ==> next is None,
{
    let n = count;
    let ghost cn = count;
    match step {
        UpdateStep::Advance(i) => {
            if i >= n {
                return None;
            }
            let j: usize = if i == 0 { 1 } else { 0 };
            if j < n {
                proof {
                    lemma_div_mod_of(cn, i as int, 1);
                    lemma_place_bound(cn, i as int, 1);
                }
                Some(UpdateStep::Collide(i, j))
            } else {
                // a planet of a single quant: it collides with nothing
                assert(n == 1);
                assert(i == 0);
                assert(schedule_len(cn) == 1) by (nonlinear_arith)
                    requires
                        cn == 1,
                ;
                None
            }
        },
        UpdateStep::Collide(i, j) => {
            if i >= n || j >= n || i == j {
                return None;
            }
            let ghost r: int = 1 + (if j < i { j as int } else { j - 1 });
            let mut k = j + 1;
            if k == i {
                k = k + 1;
            }
            if k < n {
                proof {
                    lemma_div_mod_of(cn, i as int, r + 1);
                    lemma_place_bound(cn, i as int, r + 1);
                }
                Some(UpdateStep::Collide(i, k))
            } else {
                assert(r + 1 == cn);
                assert(i * cn + r + 1 == (i + 1) * cn) by (nonlinear_arith)
                    requires
                        r + 1 == cn,
                ;
                if i + 1 < n {
                    proof {
                        lemma_div_mod_of(cn, (i + 1) as int, 0);
                        lemma_place_bound(cn, (i + 1) as int, 0);
                    }
                    Some(UpdateStep::Advance(i + 1))
                } else {
                    assert((i + 1) * cn == cn * cn);
                    None
                }
            }
        },
    }
}

} // verus!
