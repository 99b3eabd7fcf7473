//! The scene stack runtime: the state that the event loop keeps, and what each
//! event does to it.

use vstd::prelude::*;
use crate::event::Event;
use crate::scene::{made, Scene, SceneView};
use crate::source::{verdict, ConfigError, Intervals};
use crate::laws::lemma_tick_keeps_base;
use crate::stack::{painted, receives, span_start, survivors, target, visible};
use crate::stack::{lemma_span_visible, lemma_survivors_empty, lemma_survivors_push};
use crate::stack::lemma_target_receives;

verus! {

/// What every scene routine is handed: the application's own state and the
/// runtime's two counters. Only the runtime writes to it.
pub struct Shared<S> {
    /// The application's own state.
    pub data: S,
    /// The ticks processed so far.
    pub tick_count: u64,
    /// The render passes started so far.
    pub render_count: u64,
}

/// The runtime: whether it is still running, the shared state, the two
/// cadences in milliseconds, the stack of scenes with the base first, and the
/// routines of the error notice.
pub struct App<S, U, D> {
    /// Whether the event loop goes on.
    pub active: bool,
    /// What every scene routine is handed.
    pub shared: Shared<S>,
    /// The tick interval in milliseconds.
    pub tick_rate: u64,
    /// The render interval in milliseconds.
    pub render_rate: u64,
    /// The stack of scenes, the base first and the topmost last.
    pub scenes: Vec<Scene<U, D>>,
    /// The input routine of the error notice, if it can be dismissed.
    pub error_update: Option<U>,
    /// The routine that draws the error notice.
    pub error_draw: D,
}

/// The runtime as contracts speak of it.
pub struct AppView<S, U, D> {
    pub active: bool,
    pub data: S,
    pub tick_count: nat,
    pub render_count: nat,
    pub tick_rate: u64,
    pub render_rate: u64,
    pub scenes: Seq<SceneView<U, D>>,
    pub error_update: Option<U>,
    pub error_draw: D,
}

/// What the event loop has to do after an event was dispatched.
#[derive(Clone, Copy, Debug, PartialEq, Eq, Structural)]
pub enum Action {
    /// Nothing: wait for the next event.
    Continue,
    /// Run a render pass, then wait for the next event.
    Render,
}

/// Why the event loop ends with a failure.
#[derive(Debug, PartialEq, Eq)]
pub enum Fault<E> {
    /// The event source has ended and will send nothing more.
    SourceClosed,
    /// A routine of a scene failed.
    Callback(E),
}

/// The views of the scenes of a stack, in the same order.
pub open spec fn scene_views<U, D>(scenes: Seq<Scene<U, D>>) -> Seq<SceneView<U, D>> {
    scenes.map_values(|s: Scene<U, D>| s@)
}

/// The permanent base scene that draws with `draw`: it hides what is beneath
/// it, takes no input and has no ceiling.
pub open spec fn base_scene<U, D>(draw: D) -> SceneView<U, D> {
    made("base"@, false, None, None, draw)
}

/// The error notice: a fresh transparent scene without a ceiling, with the
/// given routines.
pub open spec fn error_scene<U, D>(update: Option<U>, draw: D) -> SceneView<U, D> {
    made("error"@, true, None, update, draw)
}

impl<S> Shared<S> {
    /// The shared state as the scenes see it during the next render pass.
    pub open spec fn rendering(self) -> Self {
        Shared { render_count: (self.render_count + 1) as u64, ..self }
    }
}

impl<S, U, D> AppView<S, U, D> {
    /// The stack is never empty, its base is permanent, and no scene has seen
    /// more ticks or render passes than the runtime has.
    pub open spec fn wf(self) -> bool {
        &&& self.scenes.len() > 0
        &&& self.scenes[0].permanent()
        &&& forall|i: int|
            0 <= i < self.scenes.len() ==> (#[trigger] self.scenes[i]).tick_count
                <= self.tick_count
        &&& forall|i: int|
            0 <= i < self.scenes.len() ==> (#[trigger] self.scenes[i]).draw_count
                <= self.render_count
    }

    /// The runtime after it looked for the interrupt chord in `event`:
    /// stopped if the event is the chord, as it was if not.
    pub open spec fn interrupted_by(self, event: Event) -> Self {
        AppView { active: self.active && !event.interrupts(), ..self }
    }

    /// The runtime with `scene` on top of the stack.
    pub open spec fn pushed(self, scene: SceneView<U, D>) -> Self {
        AppView { scenes: self.scenes.push(scene), ..self }
    }

    /// The runtime with an error notice on top of the stack.
    pub open spec fn notified(self) -> Self {
        self.pushed(error_scene(self.error_update, self.error_draw))
    }

    /// The runtime one tick later: the counter and every scene one tick
    /// older, the scenes that are done removed.
    pub open spec fn ticked(self) -> Self {
        AppView { tick_count: self.tick_count + 1, scenes: survivors(self.scenes), ..self }
    }

    /// The runtime after the input routine of scene `t` said whether the
    /// scene is done.
    pub open spec fn settled(self, t: int, done: bool) -> Self {
        AppView { scenes: self.scenes.update(t, self.scenes[t].settled(done)), ..self }
    }

    /// The runtime after a render pass that got as far as position `stop`.
    pub open spec fn rendered(self, stop: int) -> Self {
        AppView {
            render_count: self.render_count + 1,
            scenes: painted(self.scenes, stop),
            ..self
        }
    }
}

impl<S, U, D> View for App<S, U, D> {
    type V = AppView<S, U, D>;

    open spec fn view(&self) -> AppView<S, U, D> {
        AppView {
            active: self.active,
            data: self.shared.data,
            tick_count: self.shared.tick_count as nat,
            render_count: self.shared.render_count as nat,
            tick_rate: self.tick_rate,
            render_rate: self.render_rate,
            scenes: scene_views(self.scenes@),
            error_update: self.error_update,
            error_draw: self.error_draw,
        }
    }
}

impl<S, U, D> App<S, U, D> {
    /// A running runtime that has processed nothing yet, with the permanent
    /// base scene alone on the stack.
    pub fn new(
        data: S,
        tick_rate: u64,
        render_rate: u64,
        base_draw: D,
        error_update: Option<U>,
        error_draw: D,
    ) -> (app: Self)
        ensures
            app@ == (AppView {
                active: true,
                data,
                tick_count: 0,
                render_count: 0,
                tick_rate,
                render_rate,
                scenes: seq![base_scene(base_draw)],
                error_update,
                error_draw,
            }),
            app@.wf(),
    {
        let base = Scene::background("base".to_owned(), base_draw);
        let mut scenes: Vec<Scene<U, D>> = Vec::new();
        scenes.push(base);
        proof {
            assert(scene_views(scenes@) =~= seq![base_scene(base_draw)]);
        }
        App {
            active: true,
            shared: Shared { data, tick_count: 0, render_count: 0 },
            tick_rate,
            render_rate,
            scenes,
            error_update,
            error_draw,
        }
    }

    /// Tells whether the runtime is well formed, for callers that cannot
    /// prove it.
    pub fn is_wf(&self) -> (r: bool)
        ensures
            r == self@.wf(),
    {
        if self.scenes.len() == 0 {
            return false;
        }
        let base = &self.scenes[0];
        if base.update.is_some() || base.max_tick_count.is_some() || base.done {
            return false;
        }
        let mut i: usize = 0;
        while i < self.scenes.len()
            invariant
                i <= self.scenes.len(),
                forall|k: int|
                    0 <= k < i ==> (#[trigger] self@.scenes[k]).tick_count <= self@.tick_count
                        && self@.scenes[k].draw_count <= self@.render_count,
            decreases self.scenes.len() - i,
        {
            let scene = &self.scenes[i];
            if scene.tick_count > self.shared.tick_count || scene.draw_count
                > self.shared.render_count {
                assert(!(self@.scenes[i as int].tick_count <= self@.tick_count
                    && self@.scenes[i as int].draw_count <= self@.render_count));
                return false;
            }
            i += 1;
        }
        true
    }

    /// The two cadences, if an event source accepts them.
    pub fn intervals(&self) -> (r: Result<Intervals, ConfigError>)
        ensures
            r == verdict(self@.tick_rate, self@.render_rate),
    {
        Intervals::new(self.tick_rate, self.render_rate)
    }

    /// Puts a scene on top of the stack.
    pub fn push(&mut self, scene: Scene<U, D>)
        requires
            old(self)@.wf(),
            scene@.tick_count <= old(self)@.tick_count,
            scene@.draw_count <= old(self)@.render_count,
        ensures
            final(self)@ == old(self)@.pushed(scene@),
            final(self)@.wf(),
    {
        self.scenes.push(scene);
        proof {
            assert(scene_views(self.scenes@) =~= scene_views(old(self).scenes@).push(scene@));
        }
    }

    /// Puts an error notice on top of the stack.
    pub fn notify(&mut self) where U: Copy, D: Copy
        requires
            old(self)@.wf(),
        ensures
            final(self)@ == old(self)@.notified(),
            final(self)@.wf(),
    {
        let scene = Scene::new("error".to_owned(), true, None, self.error_update, self.error_draw);
        self.push(scene);
    }

    /// Finds the scene that input goes to: the topmost one that takes input.
    pub fn route(&self) -> (r: Option<usize>)
        ensures
            match r {
                Some(t) => target(self@.scenes) == Some(t as int) && receives(
                    self@.scenes,
                    t as int,
                ),
                None => target(self@.scenes) is None,
            },
    {
        let mut i: usize = self.scenes.len();
        while i > 0
            invariant
                i <= self.scenes.len(),
                forall|j: int|
                    i <= j < self.scenes.len() ==> !(#[trigger] self@.scenes[j]).interactive(),
            decreases i,
        {
            i -= 1;
            if self.scenes[i].update.is_some() {
                proof {
                    assert(receives(self@.scenes, i as int));
                    lemma_target_receives(self@.scenes);
                }
                return Some(i);
            }
        }
        proof {
            lemma_target_receives(self@.scenes);
        }
        None
    }

    /// Finds the lowest scene that a render pass draws: the topmost scene that
    /// is not transparent, or the base if every scene above it is.
    pub fn span(&self) -> (start: usize)
        ensures
            start == span_start(self@.scenes),
            start <= self.scenes.len(),
            forall|i: int|
                0 <= i < self.scenes.len() ==> (visible(self@.scenes, i) <==> start <= i),
    {
        if self.scenes.len() == 0 {
            return 0;
        }
        let mut i: usize = self.scenes.len() - 1;
        while i > 0 && self.scenes[i].transparent
            invariant
                i < self.scenes.len(),
                visible(self@.scenes, i as int),
            decreases i,
        {
            proof {
                assert forall|j: int| i - 1 < j < self.scenes.len() implies (
                #[trigger] self@.scenes[j]).transparent by {
                    if j > i {
                        assert(visible(self@.scenes, i as int));
                    }
                }
            }
            i -= 1;
        }
        proof {
            let start = span_start(self@.scenes);
            lemma_span_visible(self@.scenes);
            if i > 0 {
                assert(!self@.scenes[i as int].transparent);
                assert(visible(self@.scenes, start));
                if start < i {
                    assert(self@.scenes[i as int].transparent);
                }
            }
        }
        i
    }

    /// Records what the input routine of scene `t` answered: the scene is
    /// done or not as the routine said, and a failure is passed on.
    pub fn settle<E>(&mut self, t: usize, outcome: Result<bool, E>) -> (r: Result<(), E>)
        requires
            old(self)@.wf(),
            t < old(self).scenes.len(),
            old(self)@.scenes[t as int].interactive(),
        ensures
            final(self)@.wf(),
            match outcome {
                Ok(done) => r is Ok && final(self)@ == old(self)@.settled(t as int, done),
                Err(e) => r == Err::<(), E>(e) && final(self)@ == old(self)@,
            },
    {
        match outcome {
            Ok(done) => {
                self.scenes[t].done = done;
                proof {
                    assert(scene_views(self.scenes@) =~= scene_views(old(self).scenes@).update(
                        t as int,
                        old(self)@.scenes[t as int].settled(done),
                    ));
                }
                Ok(())
            },
            Err(e) => Err(e),
        }
    }

    /// Processes one tick: the counter and every scene grow one tick older,
    /// and the scenes that are done leave the stack.
    pub fn tick(&mut self)
        requires
            old(self)@.wf(),
            old(self)@.tick_count < u64::MAX,
        ensures
            final(self)@ == old(self)@.ticked(),
            final(self)@.wf(),
    {
        let mut aging: Vec<Scene<U, D>> = Vec::new();
        core::mem::swap(&mut self.scenes, &mut aging);
        self.shared.tick_count += 1;
        let ghost before = old(self)@.scenes;
        let ghost taken = aging@;
        proof {
            lemma_survivors_empty(before.take(0));
        }
        for scene in it: aging
            invariant
                self.active == old(self).active,
                self.shared.data == old(self).shared.data,
                self.shared.tick_count == old(self).shared.tick_count + 1,
                self.shared.render_count == old(self).shared.render_count,
                self.tick_rate == old(self).tick_rate,
                self.render_rate == old(self).render_rate,
                self.error_update == old(self).error_update,
                self.error_draw == old(self).error_draw,
                it.seq() == taken,
                before == scene_views(taken),
                scene_views(self.scenes@) == survivors(before.take(it.index() as int)),
                forall|i: int|
                    0 <= i < before.len() ==> (#[trigger] before[i]).tick_count < u64::MAX,
        {
            let mut scene = scene;
            assert(scene@ == before[it.index() as int]);
            scene.incr_tick();
            proof {
                let k = it.index() as int;
                assert(before.take(k + 1) =~= before.take(k).push(before[k]));
                lemma_survivors_push(before.take(k), before[k]);
            }
            if !scene.done {
                self.scenes.push(scene);
            }
        }
        proof {
            assert(before.take(before.len() as int) =~= before);
            lemma_tick_keeps_base(old(self)@);
        }
    }

    /// Hands an input event to the topmost scene that takes input, and makes
    /// the scene done or not as its routine answers. With no such scene the
    /// event is dropped; a failure of the routine is passed on.
    pub fn forward<E>(&mut self, event: Event) -> (r: Result<(), E>) where
        U: Fn(&Shared<S>, Event) -> Result<bool, E>,

        requires
            old(self)@.wf(),
            target(old(self)@.scenes) matches Some(t) ==> call_requires(
                old(self)@.scenes[t].update.unwrap(),
                (&old(self).shared, event),
            ),
        ensures
            final(self)@.wf(),
            match target(old(self)@.scenes) {
                None => r is Ok && final(self)@ == old(self)@,
                Some(t) => match r {
                    Ok(_) => {
                        &&& call_ensures(
                            old(self)@.scenes[t].update.unwrap(),
                            (&old(self).shared, event),
                            Ok::<bool, E>(final(self)@.scenes[t].done),
                        )
                        &&& final(self)@ == old(self)@.settled(t, final(self)@.scenes[t].done)
                    },
                    Err(e) => {
                        &&& call_ensures(
                            old(self)@.scenes[t].update.unwrap(),
                            (&old(self).shared, event),
                            Err::<bool, E>(e),
                        )
                        &&& final(self)@ == old(self)@
                    },
                },
            },
    {
        let t = match self.route() {
            Some(t) => t,
            None => {
                return Ok(());
            },
        };
        let outcome = match &self.scenes[t].update {
            Some(update) => update(&self.shared, event),
            None => {
                return Ok(());
            },
        };
        self.settle(t, outcome)
    }

    /// Whether the routine that draws scene `i` can answer `outcome` when it is
    /// called in the next render pass, on some canvas.
    pub open spec fn draws<F, E>(self, i: int, outcome: Result<(), E>) -> bool where
        D: Fn(&Shared<S>, &mut F) -> Result<(), E>,
     {
        exists|canvas: &mut F| #[trigger]
            call_ensures(self@.scenes[i].draw, (&self.shared.rendering(), canvas), outcome)
    }

    /// Runs one render pass: counts it, then draws the visible scenes from
    /// the lowest to the topmost, counting each before it is drawn. The pass
    /// stops at the first scene whose routine fails, and passes the failure
    /// on.
    pub fn render<F, E>(&mut self, frame: &mut F) -> (r: Result<(), E>) where
        D: Fn(&Shared<S>, &mut F) -> Result<(), E>,

        requires
            old(self)@.wf(),
            old(self)@.render_count < u64::MAX,
            forall|i: int, canvas: &mut F|
                0 <= i < old(self).scenes.len() ==> #[trigger] call_requires(
                    old(self)@.scenes[i].draw,
                    (&old(self).shared.rendering(), canvas),
                ),
        ensures
            final(self)@.wf(),
            match r {
                Ok(_) => {
                    &&& final(self)@ == old(self)@.rendered(old(self)@.scenes.len() as int)
                    &&& forall|i: int|
                        span_start(old(self)@.scenes) <= i < old(self)@.scenes.len() ==> old(
                            self,
                        ).draws::<F, E>(i, Ok(()))
                },
                Err(e) => exists|last: int|
                    {
                        &&& span_start(old(self)@.scenes) <= last < old(self)@.scenes.len()
                        &&& final(self)@ == old(self)@.rendered(last + 1)
                        &&& #[trigger] old(self).draws::<F, E>(last, Err(e))
                        &&& forall|i: int|
                            span_start(old(self)@.scenes) <= i < last ==> old(self).draws::<F, E>(
                                i,
                                Ok(()),
                            )
                    },
            },
    {
        let start = self.span();
        self.shared.render_count += 1;
        let ghost before = old(self)@.scenes;
        let mut i: usize = start;
        proof {
            assert(scene_views(self.scenes@) =~= painted(before, i as int));
        }
        while i < self.scenes.len()
            invariant
                start <= i <= self.scenes.len(),
                start == span_start(before),
                before == old(self)@.scenes,
                old(self)@.wf(),
                self.scenes.len() == before.len(),
                self@ == old(self)@.rendered(i as int),
                self.shared == old(self).shared.rendering(),
                forall|k: int, canvas: &mut F|
                    0 <= k < before.len() ==> #[trigger] call_requires(
                        before[k].draw,
                        (&old(self).shared.rendering(), canvas),
                    ),
                forall|k: int| start <= k < i ==> old(self).draws::<F, E>(k, Ok(())),
            decreases self.scenes.len() - i,
        {
            let ghost earlier = self@.scenes;
            proof {
                assert(earlier == painted(before, i as int));
                assert(earlier[i as int] == before[i as int]);
                assert(self.scenes[i as int]@ == earlier[i as int]);
                assert(before[i as int].draw_count <= old(self)@.render_count);
            }
            self.scenes[i].incr_draw();
            proof {
                assert forall|k: int| 0 <= k < before.len() implies (#[trigger] self@.scenes[k])
                    == painted(before, i + 1)[k] by {
                    if k != i {
                        assert(self.scenes[k]@ == earlier[k]);
                    }
                }
                assert(self@.scenes =~= painted(before, i + 1));
                assert(before[i as int].draw == self.scenes[i as int].draw);
            }
            let outcome = (self.scenes[i].draw)(&self.shared, frame);
            proof {
                assert(old(self).draws::<F, E>(i as int, outcome));
                if let Ok(unit) = outcome {
                    assert(outcome == Ok::<(), E>(()));
                }
            }
            i += 1;
            match outcome {
                Ok(_) => {},
                Err(e) => {
                    return Err(e);
                },
            }
        }
        Ok(())
    }

    /// Whether the runtime can dispatch `event`: it is well formed, a tick
    /// does not overflow its counter, and the routine that an input event
    /// goes to can be called with it.
    pub open spec fn accepts<E>(self, event: Event) -> bool where
        U: Fn(&Shared<S>, Event) -> Result<bool, E>,
     {
        &&& self@.wf()
        &&& event is Tick ==> self@.tick_count < u64::MAX
        &&& event.input() ==> (target(self@.scenes) matches Some(t) ==> call_requires(
            self@.scenes[t].update.unwrap(),
            (&self.shared, event),
        ))
    }

    /// What dispatching `event` makes of the runtime: `after` is the runtime
    /// afterwards and `r` the result.
    ///
    /// First the runtime looks for the interrupt chord. Then an error event
    /// puts the error notice on the stack; a tick ages and compacts the
    /// stack; a render or resize event changes nothing and asks for a render
    /// pass; an input event goes to the topmost scene that takes input, whose
    /// answer decides whether the scene is done and whose failure is the
    /// result.
    pub open spec fn dispatches<E>(
        self,
        event: Event,
        after: Self,
        r: Result<Action, E>,
    ) -> bool where
        U: Fn(&Shared<S>, Event) -> Result<bool, E>,
     {
        let heard = self@.interrupted_by(event);
        match event {
            Event::Error => r == Ok::<Action, E>(Action::Continue) && after@ == heard.notified(),
            Event::Tick => r == Ok::<Action, E>(Action::Continue) && after@ == heard.ticked(),
            Event::Render => r == Ok::<Action, E>(Action::Render) && after@ == heard,
            Event::Resize(_, _) => r == Ok::<Action, E>(Action::Render) && after@ == heard,
            _ => match target(self@.scenes) {
                None => r == Ok::<Action, E>(Action::Continue) && after@ == heard,
                Some(t) => match r {
                    Ok(action) => {
                        &&& action == Action::Continue
                        &&& call_ensures(
                            self@.scenes[t].update.unwrap(),
                            (&self.shared, event),
                            Ok::<bool, E>(after@.scenes[t].done),
                        )
                        &&& after@ == heard.settled(t, after@.scenes[t].done)
                    },
                    Err(e) => {
                        &&& call_ensures(
                            self@.scenes[t].update.unwrap(),
                            (&self.shared, event),
                            Err::<bool, E>(e),
                        )
                        &&& after@ == heard
                    },
                },
            },
        }
    }

    /// Dispatches one event and says what the event loop has to do next.
    pub fn dispatch<E>(&mut self, event: Event) -> (r: Result<Action, E>) where
        U: Fn(&Shared<S>, Event) -> Result<bool, E> + Copy,
        D: Copy,

        requires
            old(self).accepts::<E>(event),
        ensures
            final(self)@.wf(),
            final(self)@.active == (old(self)@.active && !event.interrupts()),
            old(self).dispatches(event, *final(self), r),
    {
        if event.is_interrupt() {
            self.active = false;
        }
        match event {
            Event::Error => {
                self.notify();
                Ok(Action::Continue)
            },
            Event::Tick => {
                self.tick();
                Ok(Action::Continue)
            },
            Event::Render => Ok(Action::Render),
            Event::Resize(_, _) => Ok(Action::Render),
            input => match self.forward(input) {
                Ok(_) => Ok(Action::Continue),
                Err(e) => Err(e),
            },
        }
    }

    /// One turn of the event loop: dispatches the event that was pulled from
    /// the source, or fails if the source has ended.
    pub fn step<E>(&mut self, pulled: Option<Event>) -> (r: Result<Action, Fault<E>>) where
        U: Fn(&Shared<S>, Event) -> Result<bool, E> + Copy,
        D: Copy,

        requires
            pulled matches Some(event) ==> old(self).accepts::<E>(event),
        ensures
            old(self)@.wf() ==> final(self)@.wf(),
            match pulled {
                None => r == Err::<Action, Fault<E>>(Fault::SourceClosed) && final(self)@ == old(
                    self,
                )@,
                Some(event) => {
                    &&& final(self)@.active == (old(self)@.active && !event.interrupts())
                    &&& match r {
                        Ok(action) => old(self).dispatches(
                            event,
                            *final(self),
                            Ok::<Action, E>(action),
                        ),
                        Err(Fault::Callback(e)) => old(self).dispatches(
                            event,
                            *final(self),
                            Err::<Action, E>(e),
                        ),
                        Err(Fault::SourceClosed) => false,
                    }
                },
            },
    {
        match pulled {
            None => Err(Fault::SourceClosed),
            Some(event) => match self.dispatch(event) {
                Ok(action) => Ok(action),
                Err(e) => Err(Fault::Callback(e)),
            },
        }
    }
}

} // verus!
