use crate::components::{Directional, Renderable};
use crate::physics::components::HasAABB;
use crate::player::systems::{Course, Steering};
use crate::rendering::animation_seq::{HasAnimationSequence, Playback};
use crate::resources::PlayerInput;
use vstd::prelude::*;

verus! {

/// The states of the player.
#[derive(Clone, Copy, Debug, PartialEq, Eq, Structural)]
pub enum State {
    Idle,
    Running,
    Jumping,
    Sliding,
    Attacking,
}

/// What a state asks the machine to do next.
#[derive(Clone, Copy, Debug, PartialEq, Eq, Structural)]
pub enum Trans {
    /// Go on as before.
    Stay,
    /// End the state on top and resume the one below.
    Pop,
    /// Pause the state on top and start the given one above it.
    Push(State),
    /// End the state on top and start the given one in its place.
    Switch(State),
    /// End every state and stop.
    Quit,
}

/// What the player's states act on, as mathematical values: the steering of
/// the body, its collision state, the animation sequence and what is drawn.
pub struct Scene {
    pub mv: Course,
    pub bb: HasAABB,
    pub anim: Playback,
    pub rend: Renderable,
}

impl Scene {
    /// The scene made of the four components.
    pub open spec fn of(
        mv: Steering,
        bb: HasAABB,
        anim: HasAnimationSequence,
        rend: Renderable,
    ) -> Scene {
        Scene { mv: mv@, bb, anim: anim.sequence@, rend }
    }
}

/// The mathematical value of a [`StateMachine`]: whether it runs, and its
/// stack of states, the one on top last.
pub struct Machine {
    pub running: bool,
    pub stack: Seq<State>,
}

impl Machine {
    /// While the machine runs, a state is on top.
    pub open spec fn wf(self) -> bool {
        self.running ==> self.stack.len() > 0
    }

    /// [`StateMachine::start`]: a machine that does not run yet starts the
    /// state on top and runs.
    pub open spec fn started(self, scene: Scene) -> (Machine, Scene) {
        if self.running || self.stack.len() == 0 {
            (self, scene)
        } else {
            (Machine { running: true, ..self }, self.stack.last().started(scene))
        }
    }

    /// `Push`: the state on top is paused, and `state` is put above it and
    /// started.
    pub open spec fn pushed(self, state: State, scene: Scene) -> (Machine, Scene) {
        let paused = if self.stack.len() > 0 {
            self.stack.last().paused(scene)
        } else {
            scene
        };
        (Machine { stack: self.stack.push(state), ..self }, state.started(paused))
    }

    /// `Switch`: the state on top is stopped and taken off, and `state` is put
    /// in its place and started.
    pub open spec fn switched(self, state: State, scene: Scene) -> (Machine, Scene) {
        if self.stack.len() > 0 {
            (
                Machine { stack: self.stack.drop_last().push(state), ..self },
                state.started(self.stack.last().stopped(scene)),
            )
        } else {
            (Machine { stack: self.stack.push(state), ..self }, state.started(scene))
        }
    }

    /// `Pop`: the state on top is stopped and taken off; the one below it is
    /// resumed, and where there is none the machine stops.
    pub open spec fn popped(self, scene: Scene) -> (Machine, Scene) {
        if self.stack.len() == 0 {
            (Machine { running: false, ..self }, scene)
        } else {
            let stopped = self.stack.last().stopped(scene);
            let rest = self.stack.drop_last();
            if rest.len() > 0 {
                (Machine { stack: rest, ..self }, rest.last().resumed(stopped))
            } else {
                (Machine { running: false, stack: rest }, stopped)
            }
        }
    }

    /// The scene after every state of `stack` was stopped, the one on top
    /// first.
    pub open spec fn stopped_all(stack: Seq<State>, scene: Scene) -> Scene
        decreases stack.len(),
    {
        if stack.len() == 0 {
            scene
        } else {
            Self::stopped_all(stack.drop_last(), stack.last().stopped(scene))
        }
    }

    /// `Quit`: every state is stopped and taken off, and the machine stops.
    pub open spec fn quit(self, scene: Scene) -> (Machine, Scene) {
        (Machine { running: false, stack: Seq::empty() }, Self::stopped_all(self.stack, scene))
    }

    /// What the request `trans` does to a machine. One that does not run
    /// takes no request.
    pub open spec fn transitioned(self, trans: Trans, scene: Scene) -> (Machine, Scene) {
        if !self.running {
            (self, scene)
        } else {
            match trans {
                Trans::Stay => (self, scene),
                Trans::Pop => self.popped(scene),
                Trans::Push(state) => self.pushed(state, scene),
                Trans::Switch(state) => self.switched(state, scene),
                Trans::Quit => self.quit(scene),
            }
        }
    }

    /// [`StateMachine::handle_events`]: the state on top reacts to the
    /// controls, and its request is carried out at once.
    pub open spec fn handled(
        self,
        scene: Scene,
        dir: Directional,
        pi: PlayerInput,
    ) -> (Machine, Scene) {
        if !self.running || self.stack.len() == 0 {
            (self, scene)
        } else {
            let (trans, after) = self.stack.last().handled(scene, dir, pi);
            self.transitioned(trans, after)
        }
    }

    /// [`StateMachine::fixed_update`]: the state on top takes a fixed tick,
    /// and its request is carried out at once.
    pub open spec fn fixed_updated(self, scene: Scene) -> (Machine, Scene) {
        if !self.running || self.stack.len() == 0 {
            (self, scene)
        } else {
            let (trans, after) = self.stack.last().fixed_updated(scene);
            self.transitioned(trans, after)
        }
    }

    /// [`StateMachine::update`]: the state on top takes a frame, and its
    /// request is carried out at once.
    pub open spec fn updated(self, scene: Scene, dir: Directional, pi: PlayerInput) -> (
        Machine,
        Scene,
    ) {
        if !self.running || self.stack.len() == 0 {
            (self, scene)
        } else {
            let (trans, after) = self.stack.last().updated(scene, dir, pi);
            self.transitioned(trans, after)
        }
    }
}

/// A pushdown machine over the player's states. The state on top of the
/// stack is the one that acts; the states below it are paused.
pub struct StateMachine {
    running: bool,
    state_stack: Vec<State>,
}

impl View for StateMachine {
    type V = Machine;

    closed spec fn view(&self) -> Machine {
        Machine { running: self.running, stack: self.state_stack@ }
    }
}

impl StateMachine {
    /// A machine that holds `initial_state` and does not run yet.
    pub fn new(initial_state: State) -> (machine: StateMachine)
        ensures
            machine@ == (Machine { running: false, stack: seq![initial_state] }),
    {
        let mut state_stack: Vec<State> = Vec::new();
        state_stack.push(initial_state);
        StateMachine { running: false, state_stack }
    }

    /// Whether the machine runs.
    pub fn is_running(&self) -> (running: bool)
        ensures
            running == self@.running,
    {
        self.running
    }

    /// The state on top of the stack, if any.
    pub fn current(&self) -> (top: Option<State>)
        ensures
            top == (if self@.stack.len() > 0 {
                Some(self@.stack.last())
            } else {
                None
            }),
    {
        let depth = self.state_stack.len();
        if depth > 0 {
            Some(self.state_stack[depth - 1])
        } else {
            None
        }
    }

    /// Starts the machine: the state on top is started. A machine that runs
    /// already, or that has ended all its states, stays as it is.
    pub fn start(
        &mut self,
        mv: &mut Steering,
        bb: &mut HasAABB,
        anim: &mut HasAnimationSequence,
        rend: &mut Renderable,
        dir: &Directional,
        pi: &PlayerInput,
    )
        ensures
            (final(self)@, Scene::of(*final(mv), *final(bb), *final(anim), *final(rend))) == old(
                self,
            )@.started(Scene::of(*old(mv), *old(bb), *old(anim), *old(rend))),
            old(self)@.wf() ==> final(self)@.wf(),
    {
        let depth = self.state_stack.len();
        if !self.running && depth > 0 {
            let mut state = self.state_stack[depth - 1];
            state.on_start(mv, bb, anim, rend, dir, pi);
            self.running = true;
        }
    }

    /// Lets the state on top react to the controls and carries out what it
    /// asks for. A machine that does not run does nothing.
    pub fn handle_events(
        &mut self,
        mv: &mut Steering,
        bb: &mut HasAABB,
        anim: &mut HasAnimationSequence,
        rend: &mut Renderable,
        dir: &Directional,
        pi: &PlayerInput,
    )
        ensures
            (final(self)@, Scene::of(*final(mv), *final(bb), *final(anim), *final(rend))) == old(
                self,
            )@.handled(Scene::of(*old(mv), *old(bb), *old(anim), *old(rend)), *dir, *pi),
            old(self)@.wf() ==> final(self)@.wf(),
    {
        let depth = self.state_stack.len();
        if self.running && depth > 0 {
            let mut state = self.state_stack[depth - 1];
            let trans = state.handle_events(mv, bb, anim, rend, dir, pi);
            self.transition(trans, mv, bb, anim, rend, dir, pi);
        }
    }

    /// Lets the state on top take a fixed tick and carries out what it asks
    /// for. A machine that does not run does nothing.
    pub fn fixed_update(
        &mut self,
        mv: &mut Steering,
        bb: &mut HasAABB,
        anim: &mut HasAnimationSequence,
        rend: &mut Renderable,
        dir: &Directional,
        pi: &PlayerInput,
    )
        ensures
            (final(self)@, Scene::of(*final(mv), *final(bb), *final(anim), *final(rend))) == old(
                self,
            )@.fixed_updated(Scene::of(*old(mv), *old(bb), *old(anim), *old(rend))),
            old(self)@.wf() ==> final(self)@.wf(),
    {
        let depth = self.state_stack.len();
        if self.running && depth > 0 {
            let mut state = self.state_stack[depth - 1];
            let trans = state.fixed_update(mv, bb, anim, rend, dir, pi);
            self.transition(trans, mv, bb, anim, rend, dir, pi);
        }
    }

    /// Lets the state on top take a frame and carries out what it asks for. A
    /// machine that does not run does nothing.
    pub fn update(
        &mut self,
        mv: &mut Steering,
        bb: &mut HasAABB,
        anim: &mut HasAnimationSequence,
        rend: &mut Renderable,
        dir: &Directional,
        pi: &PlayerInput,
    )
        ensures
            (final(self)@, Scene::of(*final(mv), *final(bb), *final(anim), *final(rend))) == old(
                self,
            )@.updated(Scene::of(*old(mv), *old(bb), *old(anim), *old(rend)), *dir, *pi),
            old(self)@.wf() ==> final(self)@.wf(),
    {
        let depth = self.state_stack.len();
        if self.running && depth > 0 {
            let mut state = self.state_stack[depth - 1];
            let trans = state.update(mv, bb, anim, rend, dir, pi);
            self.transition(trans, mv, bb, anim, rend, dir, pi);
        }
    }

    fn transition(
        &mut self,
        request: Trans,
        mv: &mut Steering,
        bb: &mut HasAABB,
        anim: &mut HasAnimationSequence,
        rend: &mut Renderable,
        dir: &Directional,
        pi: &PlayerInput,
    )
        ensures
            (final(self)@, Scene::of(*final(mv), *final(bb), *final(anim), *final(rend))) == old(
                self,
            )@.transitioned(request, Scene::of(*old(mv), *old(bb), *old(anim), *old(rend))),
            old(self)@.wf() ==> final(self)@.wf(),
    {
        if self.running {
            match request {
                Trans::Stay => {},
                Trans::Pop => self.pop(mv, bb, anim, rend, dir, pi),
                Trans::Push(state) => self.push(state, mv, bb, anim, rend, dir, pi),
                Trans::Switch(state) => self.switch(state, mv, bb, anim, rend, dir, pi),
                Trans::Quit => self.stop(mv, bb, anim, rend, dir, pi),
            }
        }
    }

    fn switch(
        &mut self,
        state: State,
        mv: &mut Steering,
        bb: &mut HasAABB,
        anim: &mut HasAnimationSequence,
        rend: &mut Renderable,
        dir: &Directional,
        pi: &PlayerInput,
    )
        ensures
            (final(self)@, Scene::of(*final(mv), *final(bb), *final(anim), *final(rend))) == old(
                self,
            )@.switched(state, Scene::of(*old(mv), *old(bb), *old(anim), *old(rend))),
    {
        match self.state_stack.pop() {
            Some(top) => {
                let mut top = top;
                top.on_stop(mv, bb, anim, rend, dir, pi);
            },
            None => {},
        }
        self.state_stack.push(state);
        let mut state = state;
        state.on_start(mv, bb, anim, rend, dir, pi);
    }

    fn push(
        &mut self,
        state: State,
        mv: &mut Steering,
        bb: &mut HasAABB,
        anim: &mut HasAnimationSequence,
        rend: &mut Renderable,
        dir: &Directional,
        pi: &PlayerInput,
    )
        ensures
            (final(self)@, Scene::of(*final(mv), *final(bb), *final(anim), *final(rend))) == old(
                self,
            )@.pushed(state, Scene::of(*old(mv), *old(bb), *old(anim), *old(rend))),
    {
        let depth = self.state_stack.len();
        if depth > 0 {
            let mut top = self.state_stack[depth - 1];
            top.on_pause(mv, bb, anim, rend, dir, pi);
        }
        self.state_stack.push(state);
        let mut state = state;
        state.on_start(mv, bb, anim, rend, dir, pi);
    }

    fn pop(
        &mut self,
        mv: &mut Steering,
        bb: &mut HasAABB,
        anim: &mut HasAnimationSequence,
        rend: &mut Renderable,
        dir: &Directional,
        pi: &PlayerInput,
    )
        ensures
            (final(self)@, Scene::of(*final(mv), *final(bb), *final(anim), *final(rend))) == old(
                self,
            )@.popped(Scene::of(*old(mv), *old(bb), *old(anim), *old(rend))),
    {
        match self.state_stack.pop() {
            Some(top) => {
                let mut top = top;
                top.on_stop(mv, bb, anim, rend, dir, pi);
            },
            None => {},
        }
        let depth = self.state_stack.len();
        if depth > 0 {
            let mut below = self.state_stack[depth - 1];
            below.on_resume(mv, bb, anim, rend, dir, pi);
        } else {
            self.running = false;
        }
    }

    fn stop(
        &mut self,
        mv: &mut Steering,
        bb: &mut HasAABB,
        anim: &mut HasAnimationSequence,
        rend: &mut Renderable,
        dir: &Directional,
        pi: &PlayerInput,
    )
        ensures
            (final(self)@, Scene::of(*final(mv), *final(bb), *final(anim), *final(rend))) == old(
                self,
            )@.quit(Scene::of(*old(mv), *old(bb), *old(anim), *old(rend))),
    {
        while self.state_stack.len() > 0
            invariant
                Machine::stopped_all(
                    self.state_stack@,
                    Scene::of(*mv, *bb, *anim, *rend),
                ) == Machine::stopped_all(
                    old(self).state_stack@,
                    Scene::of(*old(mv), *old(bb), *old(anim), *old(rend)),
                ),
            decreases self.state_stack@.len(),
        {
            match self.state_stack.pop() {
                Some(top) => {
                    let mut top = top;
                    top.on_stop(mv, bb, anim, rend, dir, pi);
                },
                None => {},
            }
        }
        self.running = false;
        assert(self.state_stack@ =~= Seq::empty());
    }
}

/// While a machine runs, a state is on top; and a machine that ran and runs
/// no more has ended all its states, by the last `Pop` or by `Quit`.
pub proof fn lemma_a_machine_stops_only_when_empty(machine: Machine, trans: Trans, scene: Scene)
    requires
        machine.wf(),
    ensures
        machine.transitioned(trans, scene).0.wf(),
        machine.running && !machine.transitioned(trans, scene).0.running ==> {
            &&& machine.transitioned(trans, scene).0.stack.len() == 0
            &&& trans == Trans::Pop || trans == Trans::Quit
        },
{
}

} // verus!
