//! One layer of the user interface: its state, its age, and the routines
//! that the runtime calls for it.

use vstd::prelude::*;

verus! {

/// One layer of the user interface.
///
/// `U` is the routine that takes input for the scene and says whether the
/// scene is done; `D` is the routine that draws it. The runtime calls them and
/// never looks inside.
pub struct Scene<U, D> {
    /// A name to show and to debug by.
    pub name: String,
    /// Whether the scene is to be removed at the next tick.
    pub done: bool,
    /// The ticks that the scene has lived through.
    pub tick_count: u64,
    /// The render passes that the scene has been drawn in.
    pub draw_count: u64,
    /// Whether the scenes beneath this one show through it.
    pub transparent: bool,
    /// The age at which the scene is done by itself, if there is one.
    pub max_tick_count: Option<u64>,
    /// The routine that takes input, if the scene takes any.
    pub update: Option<U>,
    /// The routine that draws the scene.
    pub draw: D,
}

/// A scene as contracts speak of it: the counters as natural numbers, the name
/// as a sequence of characters.
pub struct SceneView<U, D> {
    pub name: Seq<char>,
    pub done: bool,
    pub tick_count: nat,
    pub draw_count: nat,
    pub transparent: bool,
    pub max_tick_count: Option<nat>,
    pub update: Option<U>,
    pub draw: D,
}

/// A named drawing routine that plays over a number of frames.
pub struct Animation<A> {
    /// A name to show and to debug by.
    pub name: String,
    /// The routine that draws one frame.
    pub draw: A,
}

impl<U, D> SceneView<U, D> {
    /// Whether one more tick brings the scene to its ceiling.
    pub open spec fn expires(self) -> bool {
        self.max_tick_count matches Some(m) && self.tick_count + 1 >= m
    }

    /// The scene one tick older: done if it was, or if it reached its ceiling.
    pub open spec fn ticked(self) -> Self {
        SceneView { tick_count: self.tick_count + 1, done: self.done || self.expires(), ..self }
    }

    /// The scene drawn once more.
    pub open spec fn drawn(self) -> Self {
        SceneView { draw_count: self.draw_count + 1, ..self }
    }

    /// The scene after its input routine said whether it is done.
    pub open spec fn settled(self, done: bool) -> Self {
        SceneView { done, ..self }
    }

    /// Whether the scene takes input.
    pub open spec fn interactive(self) -> bool {
        self.update is Some
    }

    /// Whether nothing ever removes the scene: it takes no input, has no
    /// ceiling and is not done.
    pub open spec fn permanent(self) -> bool {
        self.update is None && self.max_tick_count is None && !self.done
    }

    /// A scene as it is when it is made: not done, never ticked, never drawn.
    pub open spec fn fresh(self) -> bool {
        !self.done && self.tick_count == 0 && self.draw_count == 0
    }

    /// The scene `n` ticks older.
    pub open spec fn after_ticks(self, n: nat) -> Self
        decreases n,
    {
        if n == 0 {
            self
        } else {
            self.after_ticks((n - 1) as nat).ticked()
        }
    }
}

/// A ceiling as contracts speak of it.
pub open spec fn ceiling(max_tick_count: Option<u64>) -> Option<nat> {
    match max_tick_count {
        Some(m) => Some(m as nat),
        None => None,
    }
}

/// The scene that is made from these parts: not done, never ticked, never
/// drawn.
pub open spec fn made<U, D>(
    name: Seq<char>,
    transparent: bool,
    max_tick_count: Option<u64>,
    update: Option<U>,
    draw: D,
) -> SceneView<U, D> {
    SceneView {
        name,
        done: false,
        tick_count: 0,
        draw_count: 0,
        transparent,
        max_tick_count: ceiling(max_tick_count),
        update,
        draw,
    }
}

impl<U, D> View for Scene<U, D> {
    type V = SceneView<U, D>;

    open spec fn view(&self) -> SceneView<U, D> {
        SceneView {
            name: self.name@,
            done: self.done,
            tick_count: self.tick_count as nat,
            draw_count: self.draw_count as nat,
            transparent: self.transparent,
            max_tick_count: ceiling(self.max_tick_count),
            update: self.update,
            draw: self.draw,
        }
    }
}

impl<U, D> Scene<U, D> {
    /// A new scene: not done, never ticked, never drawn.
    pub fn new(
        name: String,
        transparent: bool,
        max_tick_count: Option<u64>,
        update: Option<U>,
        draw: D,
    ) -> (s: Self)
        ensures
            s@ == made(name@, transparent, max_tick_count, update, draw),
    {
        Scene {
            name,
            done: false,
            tick_count: 0,
            draw_count: 0,
            transparent,
            max_tick_count,
            update,
            draw,
        }
    }

    /// A permanent background: it hides what is beneath it, takes no input
    /// and has no ceiling, so nothing ever removes it.
    pub fn background(name: String, draw: D) -> (s: Self)
        ensures
            s@ == made::<U, D>(name@, false, None, None, draw),
            s@.permanent(),
    {
        Scene::new(name, false, None, None, draw)
    }

    /// An interactive overlay: it takes input and has no ceiling, so only the
    /// answer of its own routine removes it.
    pub fn overlay(name: String, transparent: bool, update: U, draw: D) -> (s: Self)
        ensures
            s@ == made(name@, transparent, None, Some(update), draw),
    {
        Scene::new(name, transparent, None, Some(update), draw)
    }

    /// A timed animation: it takes no input, and is removed by the tick that
    /// brings it to its ceiling.
    pub fn timed(name: String, transparent: bool, ticks: u64, draw: D) -> (s: Self)
        ensures
            s@ == made::<U, D>(name@, transparent, Some(ticks), None, draw),
    {
        Scene::new(name, transparent, Some(ticks), None, draw)
    }

    /// An interactive scene with a ceiling: it is removed by the answer of
    /// its routine or by the tick that brings it to its ceiling, whichever
    /// comes first.
    pub fn timed_overlay(name: String, transparent: bool, ticks: u64, update: U, draw: D) -> (s:
        Self)
        ensures
            s@ == made(name@, transparent, Some(ticks), Some(update), draw),
    {
        Scene::new(name, transparent, Some(ticks), Some(update), draw)
    }

    /// Ages the scene by one tick, and marks it done if that brings it to its
    /// ceiling.
    pub fn incr_tick(&mut self)
        requires
            old(self).tick_count < u64::MAX,
        ensures
            final(self)@ == old(self)@.ticked(),
    {
        self.tick_count += 1;
        match self.max_tick_count {
            Some(m) => {
                if self.tick_count >= m {
                    self.done = true;
                }
            },
            None => {},
        }
    }

    /// Counts one more render pass that the scene was drawn in.
    pub fn incr_draw(&mut self)
        requires
            old(self).draw_count < u64::MAX,
        ensures
            final(self)@ == old(self)@.drawn(),
    {
        self.draw_count += 1;
    }
}

} // verus!
