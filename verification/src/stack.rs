//! The rules of the scene stack, stated over sequences of scenes with the base
//! first and the topmost scene last: which scene gets input, which scenes a
//! render pass draws, and which scenes a tick leaves.

use vstd::prelude::*;
use crate::scene::SceneView;

verus! {

/// Ages a scene by one tick.
pub open spec fn aged<U, D>() -> spec_fn(SceneView<U, D>) -> SceneView<U, D> {
    |v: SceneView<U, D>| v.ticked()
}

/// Holds of the scenes that are not done.
pub open spec fn alive<U, D>() -> spec_fn(SceneView<U, D>) -> bool {
    |v: SceneView<U, D>| !v.done
}

/// The stack that a tick leaves: every scene one tick older, and of these the
/// ones that are not done, in the order they had.
pub open spec fn survivors<U, D>(s: Seq<SceneView<U, D>>) -> Seq<SceneView<U, D>> {
    s.map_values(aged()).filter(alive())
}

/// Whether a tick leaves the scene in the stack: it was not done and does not
/// reach its ceiling.
pub open spec fn survives<U, D>(v: SceneView<U, D>) -> bool {
    !v.done && !v.expires()
}

/// The number of scenes below position `i` that a tick leaves in the stack.
pub open spec fn rank<U, D>(s: Seq<SceneView<U, D>>, i: int) -> int {
    survivors(s.take(i)).len() as int
}

/// Whether scene `t` is the one that input goes to: it takes input and no
/// scene above it does.
pub open spec fn receives<U, D>(s: Seq<SceneView<U, D>>, t: int) -> bool {
    &&& 0 <= t < s.len()
    &&& s[t].interactive()
    &&& forall|j: int| t < j < s.len() ==> !(#[trigger] s[j]).interactive()
}

/// The scene that input goes to, found from the top down, if any scene takes
/// input.
pub open spec fn target<U, D>(s: Seq<SceneView<U, D>>) -> Option<int>
    decreases s.len(),
{
    if s.len() == 0 {
        None
    } else if s.last().interactive() {
        Some(s.len() - 1)
    } else {
        target(s.drop_last())
    }
}

/// Whether a render pass draws scene `i`: every scene above it is transparent.
pub open spec fn visible<U, D>(s: Seq<SceneView<U, D>>, i: int) -> bool {
    &&& 0 <= i < s.len()
    &&& forall|j: int| i < j < s.len() ==> (#[trigger] s[j]).transparent
}

/// The lowest scene that a render pass draws, found from the top down: the
/// topmost scene that is not transparent, or the base if all above it are.
pub open spec fn span_start<U, D>(s: Seq<SceneView<U, D>>) -> int
    decreases s.len(),
{
    if s.len() <= 1 {
        0
    } else if !s.last().transparent {
        s.len() - 1
    } else {
        span_start(s.drop_last())
    }
}

/// The stack after a render pass that got as far as position `stop`: the
/// visible scenes below `stop` drawn once more, the others as they were.
pub open spec fn painted<U, D>(s: Seq<SceneView<U, D>>, stop: int) -> Seq<SceneView<U, D>> {
    Seq::new(
        s.len(),
        |i: int|
            if span_start(s) <= i < stop {
                s[i].drawn()
            } else {
                s[i]
            },
    )
}

/// Input goes to the topmost scene that takes input, and to no scene if none
/// takes any.
pub proof fn lemma_target_receives<U, D>(s: Seq<SceneView<U, D>>)
    ensures
        match target(s) {
            Some(t) => receives(s, t),
            None => forall|j: int| 0 <= j < s.len() ==> !(#[trigger] s[j]).interactive(),
        },
        forall|t: int| #[trigger] receives(s, t) ==> target(s) == Some(t),
    decreases s.len(),
{
    if s.len() > 0 {
        let r = s.drop_last();
        lemma_target_receives(r);
        if s.last().interactive() {
            assert(receives(s, s.len() - 1));
            assert forall|t: int| #[trigger] receives(s, t) implies t == s.len() - 1 by {
                if t < s.len() - 1 {
                    assert(!s[s.len() - 1].interactive());
                }
            }
        } else {
            assert forall|t: int| #[trigger] receives(s, t) implies receives(r, t) by {
                assert forall|j: int| t < j < r.len() implies !(#[trigger] r[j]).interactive() by {
                    assert(r[j] == s[j]);
                }
                assert(r[t] == s[t]);
            }
            match target(r) {
                None => {
                    assert forall|j: int| 0 <= j < s.len() implies !(#[trigger] s[j]).interactive() by {
                        if j < r.len() {
                            assert(r[j] == s[j]);
                        }
                    }
                },
                Some(t) => {
                    assert(s[t] == r[t]);
                    assert forall|j: int| t < j < s.len() implies !(#[trigger] s[j]).interactive() by {
                        if j < r.len() {
                            assert(r[j] == s[j]);
                        }
                    }
                },
            }
        }
    }
}

/// A render pass draws the scenes from the lowest visible one to the top, and
/// that one is the base or is not transparent.
pub proof fn lemma_span_visible<U, D>(s: Seq<SceneView<U, D>>)
    requires
        s.len() > 0,
    ensures
        0 <= span_start(s) < s.len(),
        forall|i: int| 0 <= i < s.len() ==> (visible(s, i) <==> span_start(s) <= i),
        span_start(s) > 0 ==> !s[span_start(s)].transparent,
    decreases s.len(),
{
    if s.len() == 1 {
        assert(visible(s, 0));
    } else if !s.last().transparent {
        let top = s.len() - 1;
        assert(visible(s, top));
        assert forall|i: int| 0 <= i < top implies !visible(s, i) by {
            assert(!s[top].transparent);
        }
    } else {
        let r = s.drop_last();
        lemma_span_visible(r);
        assert forall|i: int| 0 <= i < s.len() implies (visible(s, i) <==> span_start(s) <= i) by {
            if i < r.len() {
                if visible(r, i) {
                    assert forall|j: int| i < j < s.len() implies (#[trigger] s[j]).transparent by {
                        if j < r.len() {
                            assert(r[j] == s[j]);
                        }
                    }
                }
                if visible(s, i) {
                    assert forall|j: int| i < j < r.len() implies (#[trigger] r[j]).transparent by {
                        assert(r[j] == s[j]);
                    }
                }
            } else {
                assert(visible(s, i));
            }
        }
        assert(s[span_start(s)] == r[span_start(r)]);
    }
}

/// A tick leaves nothing of an empty stack.
pub proof fn lemma_survivors_empty<U, D>(s: Seq<SceneView<U, D>>)
    requires
        s.len() == 0,
    ensures
        survivors(s) == s,
{
    assert(s.map_values(aged()) =~= s);
    s.lemma_filter_len(alive());
    assert(s.filter(alive()) =~= s);
}

/// A tick treats a stack scene by scene: what it leaves of two stacks put
/// together is what it leaves of the first, followed by what it leaves of the
/// second.
pub proof fn lemma_survivors_concat<U, D>(a: Seq<SceneView<U, D>>, b: Seq<SceneView<U, D>>)
    ensures
        survivors(a + b) == survivors(a) + survivors(b),
{
    assert((a + b).map_values(aged()) =~= a.map_values(aged()) + b.map_values(aged()));
    Seq::filter_distributes_over_add(a.map_values(aged()), b.map_values(aged()), alive());
}

/// A tick leaves a scene on top of a stack, one tick older, if the scene
/// survives it, and leaves nothing of the scene if not.
pub proof fn lemma_survivors_push<U, D>(s: Seq<SceneView<U, D>>, v: SceneView<U, D>)
    ensures
        survivors(s.push(v)) == if survives(v) {
            survivors(s).push(v.ticked())
        } else {
            survivors(s)
        },
{
    assert(s.push(v).map_values(aged()) =~= s.map_values(aged()).push(v.ticked()));
    s.map_values(aged()).lemma_filter_push(v.ticked(), alive());
}

/// What a tick leaves of the scenes below a position is the start of what it
/// leaves of the whole stack.
pub proof fn lemma_rank_prefix<U, D>(s: Seq<SceneView<U, D>>, i: int)
    requires
        0 <= i <= s.len(),
    ensures
        0 <= rank(s, i) <= survivors(s).len(),
        survivors(s.take(i)) == survivors(s).take(rank(s, i)),
        rank(s, s.len() as int) == survivors(s).len(),
{
    assert(s =~= s.take(i) + s.skip(i));
    lemma_survivors_concat(s.take(i), s.skip(i));
    assert(survivors(s).take(rank(s, i)) =~= survivors(s.take(i)));
    assert(s.take(s.len() as int) =~= s);
}

/// The rank grows by one over a scene that survives the tick, and not at all
/// over one that does not.
pub proof fn lemma_rank_step<U, D>(s: Seq<SceneView<U, D>>, i: int)
    requires
        0 <= i < s.len(),
    ensures
        rank(s, i + 1) == rank(s, i) + if survives(s[i]) {
            1int
        } else {
            0int
        },
        survives(s[i]) ==> survivors(s.take(i + 1)) == survivors(s.take(i)).push(s[i].ticked()),
{
    assert(s.take(i + 1) =~= s.take(i).push(s[i]));
    lemma_survivors_push(s.take(i), s[i]);
}

/// The rank never falls from one position to a higher one.
pub proof fn lemma_rank_monotone<U, D>(s: Seq<SceneView<U, D>>, i: int, j: int)
    requires
        0 <= i <= j <= s.len(),
    ensures
        rank(s, i) <= rank(s, j),
    decreases j - i,
{
    if i < j {
        lemma_rank_step(s, j - 1);
        lemma_rank_monotone(s, i, j - 1);
    }
}

/// Every scene that survives a tick is in the stack afterwards, exactly one
/// tick older and otherwise as it was, at the position of its rank.
pub proof fn lemma_survivor_kept<U, D>(s: Seq<SceneView<U, D>>, i: int)
    requires
        0 <= i < s.len(),
        survives(s[i]),
    ensures
        0 <= rank(s, i) < survivors(s).len(),
        survivors(s)[rank(s, i)] == s[i].ticked(),
        survivors(s)[rank(s, i)].tick_count == s[i].tick_count + 1,
{
    lemma_rank_step(s, i);
    lemma_rank_prefix(s, i + 1);
    let kept = survivors(s.take(i + 1));
    assert(kept[rank(s, i)] == s[i].ticked());
    assert(survivors(s).take(rank(s, i + 1))[rank(s, i)] == survivors(s)[rank(s, i)]);
}

/// The scenes that survive a tick keep their order: of two of them, the lower
/// one is lower afterwards too.
pub proof fn lemma_survivors_ordered<U, D>(s: Seq<SceneView<U, D>>, i: int, j: int)
    requires
        0 <= i < j < s.len(),
        survives(s[i]),
        survives(s[j]),
    ensures
        rank(s, i) < rank(s, j),
{
    lemma_rank_step(s, i);
    lemma_rank_monotone(s, i + 1, j);
}

/// Every scene in the stack after a tick is a scene that was there before and
/// survived, and none of them is done.
pub proof fn lemma_survivor_origin<U, D>(s: Seq<SceneView<U, D>>, k: int) -> (i: int)
    requires
        0 <= k < survivors(s).len(),
    ensures
        0 <= i < s.len(),
        survives(s[i]),
        rank(s, i) == k,
        survivors(s)[k] == s[i].ticked(),
        !survivors(s)[k].done,
    decreases s.len(),
{
    assert(s.len() > 0) by {
        if s.len() == 0 {
            lemma_rank_prefix(s, 0);
        }
    }
    let top = s.len() - 1;
    let r = s.drop_last();
    assert(r =~= s.take(top));
    lemma_rank_prefix(s, top);
    lemma_rank_step(s, top);
    lemma_rank_prefix(s, top + 1);
    if k < rank(s, top) {
        let i = lemma_survivor_origin(r, k);
        assert(r.take(i) =~= s.take(i));
        assert(survivors(s).take(rank(s, top))[k] == survivors(s)[k]);
        i
    } else {
        lemma_survivor_kept(s, top);
        top
    }
}

/// A tick never removes a permanent base: it stays in the first place, one
/// tick older and still permanent.
pub proof fn lemma_base_kept<U, D>(s: Seq<SceneView<U, D>>)
    requires
        s.len() > 0,
        s[0].permanent(),
    ensures
        survivors(s).len() > 0,
        survivors(s)[0] == s[0].ticked(),
        survivors(s)[0].permanent(),
{
    assert(s.take(0) =~= Seq::<SceneView<U, D>>::empty());
    lemma_survivors_empty(s.take(0));
    lemma_survivor_kept(s, 0);
}

} // verus!
