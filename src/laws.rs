use vstd::prelude::*;
use crate::effects::{breath_level_after, breath_shown, breath_step, pop_top, push_masks, pushed_mask};
use crate::rgb::KEY_COUNT;

verus! {

/// Pushing with no key enabled leaves the top mask as it was: no key changes owner.
pub proof fn lemma_push_none_enabled_keeps_top(masks: Seq<Seq<usize>>, enabled: Seq<bool>)
    requires
        masks.len() > 0,
        forall|i: int| 0 <= i < masks.len() ==> (#[trigger] masks[i]).len() == KEY_COUNT,
        enabled.len() == KEY_COUNT,
        forall|k: int| 0 <= k < KEY_COUNT ==> !(#[trigger] enabled[k]),
    ensures
        push_masks(masks, enabled).last() == masks.last(),
{
    assert(pushed_mask(masks, enabled) =~= masks.last());
}

/// Pushing with every key enabled gives every key to the new top layer.
pub proof fn lemma_push_all_enabled_takes_every_key(masks: Seq<Seq<usize>>, enabled: Seq<bool>)
    requires
        masks.len() <= usize::MAX,
        enabled.len() == KEY_COUNT,
        forall|k: int| 0 <= k < KEY_COUNT ==> #[trigger] enabled[k],
    ensures
        push_masks(masks, enabled).last().len() == KEY_COUNT,
        forall|k: int|
            0 <= k < KEY_COUNT ==> #[trigger] push_masks(masks, enabled).last()[k] == masks.len(),
{
}

/// A push followed by a pop restores the layer history exactly.
pub proof fn lemma_push_then_pop_restores(masks: Seq<Seq<usize>>, enabled: Seq<bool>)
    ensures
        pop_top(push_masks(masks, enabled)) == masks,
{
    assert(pop_top(push_masks(masks, enabled)) =~= masks);
}

/// Pushing a fully enabled layer, then any other, then popping, leaves the first
/// pushed layer's mask on top, with every key owned by it.
pub proof fn lemma_push_push_pop_keeps_first_mask(
    masks: Seq<Seq<usize>>,
    all_keys: Seq<bool>,
    some_keys: Seq<bool>,
)
    requires
        masks.len() <= usize::MAX,
        all_keys.len() == KEY_COUNT,
        forall|k: int| 0 <= k < KEY_COUNT ==> #[trigger] all_keys[k],
    ensures
        pop_top(push_masks(push_masks(masks, all_keys), some_keys)) == push_masks(masks, all_keys),
        pop_top(push_masks(push_masks(masks, all_keys), some_keys)).last() == pushed_mask(
            masks,
            all_keys,
        ),
        forall|k: int|
            0 <= k < KEY_COUNT ==> #[trigger] pop_top(
                push_masks(push_masks(masks, all_keys), some_keys),
            ).last()[k] == masks.len(),
{
    lemma_push_then_pop_restores(push_masks(masks, all_keys), some_keys);
    lemma_push_all_enabled_takes_every_key(masks, all_keys);
}

/// Popping lowers the depth by one, and never below zero.
pub proof fn lemma_pop_depth<T>(s: Seq<T>)
    ensures
        pop_top(s).len() == if s.len() == 0 {
            0
        } else {
            s.len() - 1
        },
{
}

/// A channel level after `n` rising ticks from black.
pub open spec fn risen_level(target: u8, n: nat) -> int
    decreases n,
{
    if n == 0 {
        0
    } else {
        breath_level_after(risen_level(target, (n - 1) as nat), target as int, 1)
    }
}

proof fn lemma_risen_level_exact(target: u8, n: nat)
    requires
        n <= u32::MAX,
    ensures
        risen_level(target, n) == n * breath_step(target as int),
    decreases n,
{
    if n > 0 {
        let prev = risen_level(target, (n - 1) as nat);
        lemma_risen_level_exact(target, (n - 1) as nat);
        assert(breath_step(target as int) == target * 33);
        assert(prev + target * 33 == n * (target * 33)) by (nonlinear_arith)
            requires
                prev == (n - 1) * (target * 33),
                n > 0,
        ;
        assert(n * (target * 33) <= u32::MAX * (255 * 33)) by (nonlinear_arith)
            requires
                n <= u32::MAX,
                target <= 255,
        ;
        assert(prev + breath_step(target as int) <= i64::MAX);
        assert(risen_level(target, n) == prev + breath_step(target as int));
        assert(n * breath_step(target as int) == n * (target * 33));
    } else {
        assert(n * breath_step(target as int) == 0) by (nonlinear_arith)
            requires
                n == 0,
        ;
    }
}

/// While a breathing effect rises from black, within one cycle's worth of ticks,
/// each shown channel value only grows and never exceeds the target.
pub proof fn lemma_breath_rises_without_overshoot(target: u8, cycle_ms: u32, j: nat, k: nat)
    requires
        cycle_ms > 0,
        j <= k,
        k * 33 <= cycle_ms,
    ensures
        breath_shown(risen_level(target, j), cycle_ms as int) <= breath_shown(
            risen_level(target, k),
            cycle_ms as int,
        ),
        breath_shown(risen_level(target, k), cycle_ms as int) <= target,
{
    lemma_risen_level_exact(target, j);
    lemma_risen_level_exact(target, k);
    let c = cycle_ms as int;
    let lj = j * (target * 33);
    let lk = k * (target * 33);
    assert(lj <= lk) by (nonlinear_arith)
        requires
            j <= k,
            lj == j * (target * 33),
            lk == k * (target * 33),
            target >= 0,
    ;
    assert(lk <= target * c) by (nonlinear_arith)
        requires
            lk == k * (target * 33),
            k * 33 <= c,
            target >= 0,
    ;
    assert(lj / c <= lk / c) by (nonlinear_arith)
        requires
            lj <= lk,
            c > 0,
    ;
    assert(lk / c <= target) by (nonlinear_arith)
        requires
            lk <= target * c,
            c > 0,
    ;
}

} // verus!
