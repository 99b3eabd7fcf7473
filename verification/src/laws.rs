//! What holds of the runtime whatever the scenes and the events are.

use vstd::prelude::*;
use crate::app::{Action, App, AppView, Shared};
use crate::event::Event;
use crate::scene::SceneView;
use crate::stack::{rank, receives, span_start, survives, visible};
use crate::stack::{lemma_base_kept, lemma_rank_prefix, lemma_span_visible};
use crate::stack::{lemma_survivor_kept, lemma_survivor_origin, lemma_survivors_ordered};
use crate::stack::{lemma_survivors_push, lemma_target_receives};

verus! {

/// A tick ages every scene that stays in the stack by exactly one tick, not
/// only the topmost, and changes nothing else of it.
pub proof fn lemma_tick_ages_every_scene<S, U, D>(a: AppView<S, U, D>, i: int)
    requires
        0 <= i < a.scenes.len(),
        survives(a.scenes[i]),
    ensures
        a.ticked().tick_count == a.tick_count + 1,
        0 <= rank(a.scenes, i) < a.ticked().scenes.len(),
        a.ticked().scenes[rank(a.scenes, i)].tick_count == a.scenes[i].tick_count + 1,
        a.ticked().scenes[rank(a.scenes, i)] == (SceneView {
            tick_count: a.scenes[i].tick_count + 1,
            ..a.scenes[i]
        }),
{
    lemma_survivor_kept(a.scenes, i);
}

/// After a tick no scene in the stack is done, and every scene in it was in
/// the stack before, was not done and had not reached its ceiling.
pub proof fn lemma_tick_leaves_the_living<S, U, D>(a: AppView<S, U, D>, k: int) -> (i: int)
    requires
        0 <= k < a.ticked().scenes.len(),
    ensures
        !a.ticked().scenes[k].done,
        0 <= i < a.scenes.len(),
        !a.scenes[i].done,
        !a.scenes[i].expires(),
        k == rank(a.scenes, i),
        a.ticked().scenes[k] == a.scenes[i].ticked(),
{
    lemma_survivor_origin(a.scenes, k)
}

/// A tick removes exactly the scenes that are done or reach their ceiling:
/// as many scenes stay as survive, and they stay in the order they had.
pub proof fn lemma_tick_keeps_order<S, U, D>(a: AppView<S, U, D>, i: int, j: int)
    requires
        0 <= i < j < a.scenes.len(),
        survives(a.scenes[i]),
        survives(a.scenes[j]),
    ensures
        a.ticked().scenes.len() == rank(a.scenes, a.scenes.len() as int),
        0 <= rank(a.scenes, i) < rank(a.scenes, j) < a.ticked().scenes.len(),
        a.ticked().scenes[rank(a.scenes, i)] == a.scenes[i].ticked(),
        a.ticked().scenes[rank(a.scenes, j)] == a.scenes[j].ticked(),
{
    lemma_rank_prefix(a.scenes, a.scenes.len() as int);
    lemma_survivors_ordered(a.scenes, i, j);
    lemma_survivor_kept(a.scenes, i);
    lemma_survivor_kept(a.scenes, j);
}

/// A scene is done after a tick exactly if it was done before or the tick
/// brought it to its ceiling; with a ceiling above zero that is the tick at
/// which its age equals the ceiling, if it was younger before.
pub proof fn lemma_done_by_ceiling<U, D>(v: SceneView<U, D>)
    ensures
        v.ticked().done <==> v.done || v.expires(),
        v.max_tick_count is None ==> v.ticked().done == v.done,
        v.max_tick_count matches Some(m) ==> (v.tick_count < m ==> (v.expires() <==> v.ticked().tick_count
            == m)),
{
}

/// Neither a tick nor a render pass makes a scene that is done not done; only
/// the answer of its own routine decides anew.
pub proof fn lemma_done_is_kept<U, D>(v: SceneView<U, D>, answer: bool)
    ensures
        v.done ==> v.ticked().done,
        v.drawn().done == v.done,
        v.settled(answer).done == answer,
{
}

/// A fresh scene with a ceiling is done after exactly as many ticks as the
/// ceiling says, and after the first tick if the ceiling is zero; a fresh
/// scene without a ceiling is never done by ticks alone.
pub proof fn lemma_fresh_scene_lifetime<U, D>(v: SceneView<U, D>, n: nat)
    requires
        v.fresh(),
    ensures
        v.after_ticks(n).tick_count == n,
        v.after_ticks(n).done <==> (v.max_tick_count matches Some(m) && n >= 1 && n >= m),
        v.after_ticks(n) == (SceneView {
            tick_count: n,
            done: v.after_ticks(n).done,
            ..v
        }),
    decreases n,
{
    if n > 0 {
        lemma_fresh_scene_lifetime(v, (n - 1) as nat);
    }
}

/// The stack is never empty and its base is never removed: a tick leaves a
/// well-formed runtime well formed, with the base in the first place.
pub proof fn lemma_tick_keeps_base<S, U, D>(a: AppView<S, U, D>)
    requires
        a.wf(),
    ensures
        a.ticked().wf(),
        a.ticked().scenes[0] == a.scenes[0].ticked(),
{
    lemma_base_kept(a.scenes);
    assert forall|k: int| 0 <= k < a.ticked().scenes.len() implies {
        &&& (#[trigger] a.ticked().scenes[k]).tick_count <= a.ticked().tick_count
        &&& a.ticked().scenes[k].draw_count <= a.ticked().render_count
    } by {
        let i = lemma_survivor_origin(a.scenes, k);
        assert(a.scenes[i].draw_count <= a.render_count);
    }
}

/// A render pass that runs to the end draws exactly the visible scenes, each
/// once: the topmost scene that is not transparent and the scenes above it,
/// or the whole stack if only the base is not transparent. Nothing else of
/// any scene changes.
pub proof fn lemma_render_draws_the_visible<S, U, D>(a: AppView<S, U, D>, i: int)
    requires
        0 <= i < a.scenes.len(),
    ensures
        a.rendered(a.scenes.len() as int).render_count == a.render_count + 1,
        a.rendered(a.scenes.len() as int).scenes.len() == a.scenes.len(),
        visible(a.scenes, i) <==> span_start(a.scenes) <= i,
        visible(a.scenes, i) ==> a.rendered(a.scenes.len() as int).scenes[i] == a.scenes[i].drawn(),
        !visible(a.scenes, i) ==> a.rendered(a.scenes.len() as int).scenes[i] == a.scenes[i],
        a.rendered(a.scenes.len() as int).scenes[i].tick_count == a.scenes[i].tick_count,
{
    lemma_span_visible(a.scenes);
}

/// A render pass changes no scene's age and no scene's state but the count of
/// its draws, however far the pass gets.
pub proof fn lemma_render_keeps_ticks<S, U, D>(a: AppView<S, U, D>, stop: int, i: int)
    requires
        0 <= i < a.scenes.len(),
    ensures
        a.rendered(stop).scenes.len() == a.scenes.len(),
        a.rendered(stop).tick_count == a.tick_count,
        a.rendered(stop).active == a.active,
        a.rendered(stop).scenes[i] == (SceneView {
            draw_count: a.rendered(stop).scenes[i].draw_count,
            ..a.scenes[i]
        }),
        a.scenes[i].draw_count <= a.rendered(stop).scenes[i].draw_count <= a.scenes[i].draw_count
            + 1,
{
}

/// Only a tick ages a scene: after any other event every scene that was in
/// the stack is in its place with the age it had, and the tick counter is
/// what it was.
pub proof fn lemma_only_ticks_age<S, U, D, E>(
    before: App<S, U, D>,
    event: Event,
    after: App<S, U, D>,
    r: Result<Action, E>,
    i: int,
) where U: Fn(&Shared<S>, Event) -> Result<bool, E>
    requires
        before.dispatches(event, after, r),
        !(event is Tick),
        0 <= i < before@.scenes.len(),
    ensures
        after@.tick_count == before@.tick_count,
        before@.scenes.len() <= after@.scenes.len(),
        after@.scenes[i].tick_count == before@.scenes[i].tick_count,
        after@.scenes[i].draw_count == before@.scenes[i].draw_count,
{
    lemma_target_receives(before@.scenes);
}

/// A resize event, whatever its dimensions, asks for a render pass and
/// changes nothing; the render pass that follows ages no scene.
pub proof fn lemma_resize_renders_only<S, U, D, E>(
    before: App<S, U, D>,
    width: u16,
    height: u16,
    after: App<S, U, D>,
    r: Result<Action, E>,
    stop: int,
    i: int,
) where U: Fn(&Shared<S>, Event) -> Result<bool, E>
    requires
        before.dispatches(Event::Resize(width, height), after, r),
        0 <= i < before@.scenes.len(),
    ensures
        r == Ok::<Action, E>(Action::Render),
        after@ == before@,
        after@.rendered(stop).scenes[i].tick_count == before@.scenes[i].tick_count,
        after@.rendered(stop).tick_count == before@.tick_count,
{
}

/// Input goes to one scene, the topmost that takes input: only that scene can
/// change, and only in whether it is done. Scenes above and below it, and the
/// whole stack if no scene takes input, stay as they were.
pub proof fn lemma_input_goes_to_topmost<S, U, D, E>(
    before: App<S, U, D>,
    event: Event,
    after: App<S, U, D>,
    r: Result<Action, E>,
    i: int,
) where U: Fn(&Shared<S>, Event) -> Result<bool, E>
    requires
        before.dispatches(event, after, r),
        event.input(),
        0 <= i < before@.scenes.len(),
    ensures
        after@.scenes.len() == before@.scenes.len(),
        !receives(before@.scenes, i) ==> after@.scenes[i] == before@.scenes[i],
        receives(before@.scenes, i) ==> after@.scenes[i] == before@.scenes[i].settled(
            after@.scenes[i].done,
        ),
        receives(before@.scenes, i) && r is Ok ==> call_ensures(
            before@.scenes[i].update.unwrap(),
            (&before.shared, event),
            Ok::<bool, E>(after@.scenes[i].done),
        ),
        r is Err ==> after@.scenes == before@.scenes,
{
    lemma_target_receives(before@.scenes);
}

/// An error notice that its routine declares done is gone after the next
/// tick, and the tick leaves of the stack what it would have left without the
/// notice.
pub proof fn lemma_dismissed_notice_leaves<S, U, D>(a: AppView<S, U, D>)
    ensures
        a.notified().scenes.len() == a.scenes.len() + 1,
        a.notified().settled(a.scenes.len() as int, true).ticked() == a.ticked(),
{
    let notice = a.notified().scenes[a.scenes.len() as int];
    assert(a.notified().settled(a.scenes.len() as int, true).scenes =~= a.scenes.push(
        notice.settled(true),
    ));
    lemma_survivors_push(a.scenes, notice.settled(true));
}

/// The interrupt chord stops the runtime whatever the stack holds and whatever
/// the scene that gets the key answers, and nothing else stops it.
pub proof fn lemma_interrupt_stops<S, U, D, E>(
    before: App<S, U, D>,
    event: Event,
    after: App<S, U, D>,
    r: Result<Action, E>,
) where U: Fn(&Shared<S>, Event) -> Result<bool, E>
    requires
        before.dispatches(event, after, r),
    ensures
        event.interrupts() ==> !after@.active,
        !event.interrupts() ==> after@.active == before@.active,
{
    lemma_target_receives(before@.scenes);
}

} // verus!
