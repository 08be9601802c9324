use platformer_core::components::{Directional, Renderable, RenderableType};
use platformer_core::physics::components::{HasAABB, Sign};
use platformer_core::player::animation_defs::PlayerAnimations;
use platformer_core::player::consts::{
    JUMP_FRAMES_THRESHOLD, PLAYER_FRAMES, P_ATTACK, P_IDLE, P_JUMP, P_RUN, P_SLIDE,
};
use platformer_core::player::state::{Attacking, Idle, Jumping, Running, Sliding};
use platformer_core::player::state_machine::{State, StateMachine, Trans};
use platformer_core::player::systems::{
    Impulse, PlayerAux, PlayerDirectionSystem, ResetInputSystem, Steering,
};
use platformer_core::rendering::animation_seq::HasAnimationSequence;
use platformer_core::resources::PlayerInput;
use platformer_core::systems::{fixed_step_due, Stage, FIXED_STEP, FIXED_STEPS_PER_SECOND};

struct Actor {
    mv: Steering,
    bb: HasAABB,
    anim: HasAnimationSequence,
    rend: Renderable,
    dir: Directional,
    pi: PlayerInput,
}

fn actor() -> Actor {
    Actor {
        mv: Steering::new(Sign::Zero),
        bb: HasAABB { on_ground: true, was_on_ground: true, ..HasAABB::new() },
        anim: HasAnimationSequence { sequence: PlayerAnimations::attack() },
        rend: Renderable {
            layer: 5,
            tpe: RenderableType::Animation { id: "none", frame: 3, length: 1 },
        },
        dir: Directional::Right,
        pi: PlayerInput::new(),
    }
}

fn shown(a: &Actor) -> &'static str {
    match a.rend.tpe {
        RenderableType::Animation { id, .. } => id,
        _ => "",
    }
}

fn frames(a: &mut Actor, n: usize) -> Vec<Option<usize>> {
    let mut out = vec![];
    for _ in 0..n {
        out.push(a.anim.sequence.next());
    }
    out
}

fn start(m: &mut StateMachine, a: &mut Actor) {
    m.start(&mut a.mv, &mut a.bb, &mut a.anim, &mut a.rend, &a.dir, &a.pi);
}

fn handle(m: &mut StateMachine, a: &mut Actor) {
    m.handle_events(&mut a.mv, &mut a.bb, &mut a.anim, &mut a.rend, &a.dir, &a.pi);
}

fn update(m: &mut StateMachine, a: &mut Actor) {
    m.update(&mut a.mv, &mut a.bb, &mut a.anim, &mut a.rend, &a.dir, &a.pi);
}

fn fixed(m: &mut StateMachine, a: &mut Actor) {
    m.fixed_update(&mut a.mv, &mut a.bb, &mut a.anim, &mut a.rend, &a.dir, &a.pi);
}

fn all_inputs() -> Vec<PlayerInput> {
    let mut out = vec![];
    for bits in 0..128u32 {
        out.push(PlayerInput {
            up: bits & 1 != 0,
            down: bits & 2 != 0,
            left: bits & 4 != 0,
            right: bits & 8 != 0,
            slide: bits & 16 != 0,
            jump: bits & 32 != 0,
            attack: bits & 64 != 0,
        });
    }
    out
}

#[test]
fn the_constants_have_their_values() {
    assert_eq!(JUMP_FRAMES_THRESHOLD, 4);
    assert_eq!(PLAYER_FRAMES, 10);
    assert_eq!(P_IDLE, "player-idle");
    assert_eq!(P_ATTACK, "player-attack");
    assert_eq!(P_JUMP, "player-jump");
    assert_eq!(P_RUN, "player-run");
    assert_eq!(P_SLIDE, "player-slide");
}

#[test]
fn a_new_player_stands_and_faces_right() {
    let mut player = platformer_core::player::Player::spawn();
    assert_eq!(
        player.rend,
        Renderable {
            layer: 5,
            tpe: RenderableType::Animation { id: "player-idle", frame: 0, length: 10 },
        }
    );
    assert_eq!(player.dir, Directional::Right);
    assert_eq!(player.bb, HasAABB::new());
    assert!(!player.machine.is_running());
    assert_eq!(player.machine.current(), Some(State::Idle));
    assert_eq!(player.anim.sequence.next(), Some(0));
    assert_eq!(player.anim.sequence.next(), Some(1));
}

#[test]
fn a_new_input_holds_nothing() {
    let pi = PlayerInput::new();
    assert_eq!(
        pi,
        PlayerInput {
            up: false,
            down: false,
            left: false,
            right: false,
            slide: false,
            jump: false,
            attack: false
        }
    );
}

#[test]
fn reset_actions_clears_the_one_shot_flags_only() {
    for before in all_inputs() {
        let mut pi = before;
        pi.reset_actions();
        assert_eq!(pi, PlayerInput { slide: false, jump: false, attack: false, ..before });
        let mut pi = before;
        ResetInputSystem::run(&mut pi);
        assert_eq!(pi, PlayerInput { slide: false, jump: false, attack: false, ..before });
    }
}

#[test]
fn the_direction_follows_one_held_side() {
    for before in [Directional::Left, Directional::Right] {
        for pi in all_inputs() {
            let mut dir = before;
            PlayerDirectionSystem::run(&mut dir, &pi);
            let expected = if pi.left && !pi.right {
                Directional::Left
            } else if pi.right && !pi.left {
                Directional::Right
            } else {
                before
            };
            assert_eq!(dir, expected);
        }
    }
}

#[test]
fn the_stages_of_a_tick_run_in_order() {
    let mut stages = vec![Stage::first()];
    while let Some(next) = stages[stages.len() - 1].next() {
        stages.push(next);
    }
    assert_eq!(
        stages,
        vec![
            Stage::StartStateMachines,
            Stage::ResolveDirection,
            Stage::HandleEvents,
            Stage::MoveAndCollide,
            Stage::UpdateStates,
            Stage::SyncPositions,
            Stage::ResetInput,
            Stage::CollideEntities,
            Stage::FollowCamera,
        ]
    );
}

#[test]
fn movement_walks_or_stops_at_the_wall_faced() {
    let mut mv = Steering::new(Sign::Zero);
    let free = HasAABB::new();
    let left = HasAABB { pushes_left_wall: true, ..HasAABB::new() };
    let right = HasAABB { pushes_right_wall: true, ..HasAABB::new() };
    PlayerAux::movement(&mut mv, &free, &Directional::Left);
    PlayerAux::movement(&mut mv, &free, &Directional::Right);
    PlayerAux::movement(&mut mv, &left, &Directional::Left);
    PlayerAux::movement(&mut mv, &left, &Directional::Right);
    PlayerAux::movement(&mut mv, &right, &Directional::Left);
    PlayerAux::movement(&mut mv, &right, &Directional::Right);
    assert_eq!(
        mv.impulses,
        vec![
            Impulse::Walk(Directional::Left),
            Impulse::Walk(Directional::Right),
            Impulse::Stop,
            Impulse::Walk(Directional::Right),
            Impulse::Walk(Directional::Left),
            Impulse::Stop,
        ]
    );
    assert_eq!(mv.vertical, Sign::Zero);
}

#[test]
fn stop_and_slow_down_are_asked_of_the_body() {
    let mut mv = Steering::new(Sign::Negative);
    PlayerAux::stop(&mut mv);
    PlayerAux::slow_down(&mut mv, true);
    PlayerAux::slow_down(&mut mv, false);
    mv.jump();
    mv.drop_through(2);
    mv.fall();
    assert_eq!(
        mv.impulses,
        vec![
            Impulse::Stop,
            Impulse::Brake { fast: true },
            Impulse::Brake { fast: false },
            Impulse::Jump,
            Impulse::DropThrough { thresholds: 2 },
            Impulse::Fall,
        ]
    );
    assert_eq!(mv.vertical, Sign::Negative);
}

#[test]
fn idle_in_the_air_always_pushes_jumping() {
    for pi in all_inputs() {
        for on_platform in [false, true] {
            let mut a = actor();
            a.bb.on_ground = false;
            a.bb.on_platform = on_platform;
            a.pi = pi;
            let trans =
                Idle.handle_events(&mut a.mv, &mut a.bb, &mut a.anim, &mut a.rend, &a.dir, &a.pi);
            assert_eq!(trans, Trans::Push(State::Jumping));
            assert!(a.mv.impulses.is_empty());
            assert_eq!(frames(&mut a, 3), vec![Some(6), Some(6), Some(6)]);
        }
    }
}

#[test]
fn idle_on_the_ground_acts_on_the_first_control_that_counts() {
    let cases: Vec<(PlayerInput, bool, Trans, Vec<Impulse>)> = vec![
        (PlayerInput::new(), false, Trans::Stay, vec![]),
        (
            PlayerInput { jump: true, down: true, left: true, slide: true, attack: true, ..PlayerInput::new() },
            true,
            Trans::Push(State::Jumping),
            vec![Impulse::Jump],
        ),
        (
            PlayerInput { down: true, left: true, slide: true, attack: true, ..PlayerInput::new() },
            true,
            Trans::Push(State::Jumping),
            vec![Impulse::DropThrough { thresholds: 1 }],
        ),
        (
            PlayerInput { down: true, left: true, slide: true, attack: true, ..PlayerInput::new() },
            false,
            Trans::Push(State::Running),
            vec![],
        ),
        (
            PlayerInput { right: true, slide: true, ..PlayerInput::new() },
            false,
            Trans::Push(State::Running),
            vec![],
        ),
        (
            PlayerInput { left: true, right: true, slide: true, attack: true, ..PlayerInput::new() },
            false,
            Trans::Push(State::Sliding),
            vec![],
        ),
        (
            PlayerInput { left: true, right: true, attack: true, ..PlayerInput::new() },
            false,
            Trans::Push(State::Attacking),
            vec![],
        ),
        (PlayerInput { up: true, ..PlayerInput::new() }, false, Trans::Stay, vec![]),
    ];
    for (pi, on_platform, expected, impulses) in cases {
        let mut a = actor();
        a.bb.on_platform = on_platform;
        a.pi = pi;
        let before = a.bb;
        let trans = Idle.handle_events(&mut a.mv, &mut a.bb, &mut a.anim, &mut a.rend, &a.dir, &a.pi);
        assert_eq!(trans, expected);
        assert_eq!(a.mv.impulses, impulses);
        assert_eq!(a.bb, before);
    }
}

#[test]
fn running_without_direction_always_switches_to_idle() {
    for pi in all_inputs() {
        if pi.left != pi.right {
            continue;
        }
        for on_ground in [false, true] {
            let mut a = actor();
            a.bb.on_ground = on_ground;
            a.bb.on_platform = true;
            a.pi = pi;
            let before = a.bb;
            let trans = Running.handle_events(
                &mut a.mv,
                &mut a.bb,
                &mut a.anim,
                &mut a.rend,
                &a.dir,
                &a.pi,
            );
            assert_eq!(trans, Trans::Switch(State::Idle));
            assert!(a.mv.impulses.is_empty());
            assert_eq!(a.bb, before);
            assert_eq!(shown(&a), "none");
        }
    }
}

#[test]
fn running_with_a_direction_acts_on_the_first_control_that_counts() {
    let go = PlayerInput { left: true, ..PlayerInput::new() };
    let cases: Vec<(PlayerInput, bool, bool, Trans, Vec<Impulse>)> = vec![
        (go, true, false, Trans::Stay, vec![]),
        (PlayerInput { jump: true, ..go }, false, false, Trans::Push(State::Jumping), vec![]),
        (
            PlayerInput { jump: true, down: true, slide: true, ..go },
            true,
            true,
            Trans::Push(State::Jumping),
            vec![Impulse::Jump],
        ),
        (
            PlayerInput { down: true, slide: true, ..go },
            true,
            true,
            Trans::Push(State::Jumping),
            vec![Impulse::DropThrough { thresholds: 2 }],
        ),
        (
            PlayerInput { down: true, slide: true, attack: true, ..go },
            true,
            false,
            Trans::Push(State::Sliding),
            vec![],
        ),
        (PlayerInput { attack: true, ..go }, true, false, Trans::Push(State::Attacking), vec![]),
    ];
    for (pi, on_ground, on_platform, expected, impulses) in cases {
        let mut a = actor();
        a.bb.on_ground = on_ground;
        a.bb.on_platform = on_platform;
        a.pi = pi;
        let trans =
            Running.handle_events(&mut a.mv, &mut a.bb, &mut a.anim, &mut a.rend, &a.dir, &a.pi);
        assert_eq!(trans, expected);
        assert_eq!(a.mv.impulses, impulses);
    }
}

#[test]
fn idle_and_running_updates_brake_and_walk() {
    let mut a = actor();
    assert_eq!(
        Idle.update(&mut a.mv, &mut a.bb, &mut a.anim, &mut a.rend, &a.dir, &a.pi),
        Trans::Stay
    );
    assert_eq!(a.mv.impulses, vec![Impulse::Brake { fast: true }]);
    let mut a = actor();
    a.dir = Directional::Left;
    assert_eq!(
        Running.update(&mut a.mv, &mut a.bb, &mut a.anim, &mut a.rend, &a.dir, &a.pi),
        Trans::Stay
    );
    a.bb.pushes_left_wall = true;
    Running.update(&mut a.mv, &mut a.bb, &mut a.anim, &mut a.rend, &a.dir, &a.pi);
    assert_eq!(a.mv.impulses, vec![Impulse::Walk(Directional::Left), Impulse::Stop]);
}

#[test]
fn jumping_starts_its_count_when_the_ground_was_just_left() {
    for (on_ground, was_on_ground, expected) in
        [(false, true, 0), (false, false, 7), (true, true, 7), (true, false, 7)]
    {
        let mut a = actor();
        a.bb.on_ground = on_ground;
        a.bb.was_on_ground = was_on_ground;
        a.bb.frames_from_jump_start = 7;
        Jumping.on_start(&mut a.mv, &mut a.bb, &mut a.anim, &mut a.rend, &a.dir, &a.pi);
        assert_eq!(a.bb.frames_from_jump_start, expected);
        assert_eq!(a.rend.tpe, RenderableType::Animation { id: "player-jump", frame: 3, length: 10 });
        // The sequence is left as it was.
        assert_eq!(frames(&mut a, 1), vec![Some(0)]);
        let mut a = actor();
        a.bb.on_ground = on_ground;
        a.bb.was_on_ground = was_on_ground;
        a.bb.frames_from_jump_start = 7;
        Jumping.on_resume(&mut a.mv, &mut a.bb, &mut a.anim, &mut a.rend, &a.dir, &a.pi);
        assert_eq!(a.bb.frames_from_jump_start, expected);
    }
}

#[test]
fn jumping_steers_in_the_air_unless_the_side_is_barred() {
    // (left, right, barred left, barred right, steered)
    let cases = [
        (true, false, 0, 0, true),
        (false, true, 0, 0, true),
        (true, true, 0, 0, false),
        (false, false, 0, 0, false),
        (true, false, 2, 0, false),
        (true, true, 2, 0, true),
        (true, true, 0, 1, true),
        (true, true, 3, 3, false),
        (false, true, 0, 1, false),
    ];
    for (left, right, no_left, no_right, steered) in cases {
        let mut a = actor();
        a.bb.on_ground = false;
        a.bb.cannot_go_left_frames = no_left;
        a.bb.cannot_go_right_frames = no_right;
        a.pi.left = left;
        a.pi.right = right;
        a.dir = Directional::Left;
        let trans =
            Jumping.handle_events(&mut a.mv, &mut a.bb, &mut a.anim, &mut a.rend, &a.dir, &a.pi);
        assert_eq!(trans, Trans::Stay);
        assert_eq!(a.bb.cannot_go_left_frames, no_left.saturating_sub(1));
        assert_eq!(a.bb.cannot_go_right_frames, no_right.saturating_sub(1));
        if steered {
            assert_eq!(a.mv.impulses, vec![Impulse::Walk(Directional::Left)]);
        } else {
            assert!(a.mv.impulses.is_empty());
        }
    }
}

#[test]
fn a_jump_in_the_air_registers_only_within_the_threshold() {
    // (frames, vertical, at ceiling, registers)
    let cases = [
        (0, Sign::Zero, false, true),
        (4, Sign::Negative, false, true),
        (5, Sign::Negative, false, false),
        (2, Sign::Positive, false, false),
        (2, Sign::Undefined, false, false),
        (2, Sign::Negative, true, false),
    ];
    for (frames, vertical, at_ceiling, registers) in cases {
        let mut a = actor();
        a.bb.on_ground = false;
        a.bb.frames_from_jump_start = frames;
        a.bb.at_ceiling = at_ceiling;
        a.mv.vertical = vertical;
        a.pi.jump = true;
        let trans =
            Jumping.handle_events(&mut a.mv, &mut a.bb, &mut a.anim, &mut a.rend, &a.dir, &a.pi);
        assert_eq!(trans, Trans::Stay);
        if registers {
            assert_eq!(a.mv.impulses, vec![Impulse::Jump]);
        } else {
            assert!(a.mv.impulses.is_empty());
        }
        // An attack comes first.
        let mut a = actor();
        a.bb.frames_from_jump_start = frames;
        a.bb.at_ceiling = at_ceiling;
        a.mv.vertical = vertical;
        a.pi.jump = true;
        a.pi.attack = true;
        let trans =
            Jumping.handle_events(&mut a.mv, &mut a.bb, &mut a.anim, &mut a.rend, &a.dir, &a.pi);
        assert_eq!(trans, Trans::Switch(State::Attacking));
        assert!(a.mv.impulses.is_empty());
    }
}

#[test]
fn jumping_falls_and_lands() {
    let mut a = actor();
    a.bb.on_ground = true;
    let trans = Jumping.update(&mut a.mv, &mut a.bb, &mut a.anim, &mut a.rend, &a.dir, &a.pi);
    assert_eq!(trans, Trans::Pop);
    assert_eq!(a.mv.impulses, vec![Impulse::Fall]);
    let mut a = actor();
    a.bb.on_ground = false;
    let trans = Jumping.update(&mut a.mv, &mut a.bb, &mut a.anim, &mut a.rend, &a.dir, &a.pi);
    assert_eq!(trans, Trans::Stay);
    assert_eq!(a.mv.impulses, vec![Impulse::Fall, Impulse::Brake { fast: false }]);
    let mut a = actor();
    a.bb.on_ground = false;
    a.pi.left = true;
    a.pi.right = true;
    Jumping.update(&mut a.mv, &mut a.bb, &mut a.anim, &mut a.rend, &a.dir, &a.pi);
    assert_eq!(a.mv.impulses, vec![Impulse::Fall, Impulse::Brake { fast: false }]);
    let mut a = actor();
    a.bb.on_ground = false;
    a.pi.right = true;
    let trans = Jumping.update(&mut a.mv, &mut a.bb, &mut a.anim, &mut a.rend, &a.dir, &a.pi);
    assert_eq!(trans, Trans::Stay);
    assert_eq!(a.mv.impulses, vec![Impulse::Fall]);
}

#[test]
fn jumping_counts_fixed_ticks() {
    // (frames before, vertical, at ceiling, frames after)
    let cases = [
        (0, Sign::Negative, false, 1),
        (4, Sign::Zero, false, 5),
        (0, Sign::Positive, false, 6),
        (4, Sign::Positive, false, 6),
        (3, Sign::Negative, true, 6),
        (5, Sign::Positive, true, 6),
        (9, Sign::Positive, true, 10),
        (2, Sign::Undefined, false, 3),
        (usize::MAX - 1, Sign::Negative, false, usize::MAX),
        (usize::MAX, Sign::Negative, false, usize::MAX),
    ];
    for (before, vertical, at_ceiling, after) in cases {
        let mut a = actor();
        a.bb.frames_from_jump_start = before;
        a.bb.at_ceiling = at_ceiling;
        a.mv.vertical = vertical;
        let trans =
            Jumping.fixed_update(&mut a.mv, &mut a.bb, &mut a.anim, &mut a.rend, &a.dir, &a.pi);
        assert_eq!(trans, Trans::Stay);
        assert_eq!(a.bb.frames_from_jump_start, after);
        assert!(a.mv.impulses.is_empty());
    }
}

#[test]
fn sliding_and_attacking_end_with_their_animation() {
    let mut a = actor();
    Sliding.on_start(&mut a.mv, &mut a.bb, &mut a.anim, &mut a.rend, &a.dir, &a.pi);
    assert_eq!(a.rend.tpe, RenderableType::Animation { id: "player-slide", frame: 3, length: 10 });
    for frame in 0..10 {
        let trans =
            Sliding.fixed_update(&mut a.mv, &mut a.bb, &mut a.anim, &mut a.rend, &a.dir, &a.pi);
        assert_eq!(trans, Trans::Stay);
        assert_eq!(
            Sliding.update(&mut a.mv, &mut a.bb, &mut a.anim, &mut a.rend, &a.dir, &a.pi),
            Trans::Stay
        );
        // Looking ahead has lost no frame.
        assert_eq!(a.anim.sequence.next(), Some(frame));
    }
    let trans = Sliding.fixed_update(&mut a.mv, &mut a.bb, &mut a.anim, &mut a.rend, &a.dir, &a.pi);
    assert_eq!(trans, Trans::Pop);

    let mut a = actor();
    Attacking.on_start(&mut a.mv, &mut a.bb, &mut a.anim, &mut a.rend, &a.dir, &a.pi);
    assert_eq!(a.rend.tpe, RenderableType::Animation { id: "player-attack", frame: 3, length: 10 });
    for frame in 0..10 {
        let trans =
            Attacking.fixed_update(&mut a.mv, &mut a.bb, &mut a.anim, &mut a.rend, &a.dir, &a.pi);
        assert_eq!(trans, Trans::Stay);
        assert_eq!(a.anim.sequence.next(), Some(frame));
    }
    let trans =
        Attacking.fixed_update(&mut a.mv, &mut a.bb, &mut a.anim, &mut a.rend, &a.dir, &a.pi);
    assert_eq!(trans, Trans::Pop);
    assert!(a.mv.impulses.is_empty());
}

#[test]
fn sliding_switches_to_jumping_on_a_jump_and_attacking_never_reacts() {
    let mut a = actor();
    a.pi = PlayerInput { jump: true, attack: true, slide: true, ..PlayerInput::new() };
    let trans =
        Sliding.handle_events(&mut a.mv, &mut a.bb, &mut a.anim, &mut a.rend, &a.dir, &a.pi);
    assert_eq!(trans, Trans::Switch(State::Jumping));
    assert_eq!(frames(&mut a, 6), vec![Some(0), Some(1), Some(2), Some(3), Some(4), Some(6)]);
    assert!(a.mv.impulses.is_empty());
    let mut a = actor();
    a.pi = PlayerInput { attack: true, slide: true, left: true, ..PlayerInput::new() };
    let trans =
        Sliding.handle_events(&mut a.mv, &mut a.bb, &mut a.anim, &mut a.rend, &a.dir, &a.pi);
    assert_eq!(trans, Trans::Stay);
    for pi in all_inputs() {
        let mut a = actor();
        a.pi = pi;
        let trans =
            Attacking.handle_events(&mut a.mv, &mut a.bb, &mut a.anim, &mut a.rend, &a.dir, &a.pi);
        assert_eq!(trans, Trans::Stay);
        assert_eq!(
            Attacking.update(&mut a.mv, &mut a.bb, &mut a.anim, &mut a.rend, &a.dir, &a.pi),
            Trans::Stay
        );
        assert!(a.mv.impulses.is_empty());
    }
}

#[test]
fn a_machine_does_nothing_until_it_is_started() {
    let mut m = StateMachine::new(State::Idle);
    let mut a = actor();
    a.bb.on_ground = false;
    assert!(!m.is_running());
    assert_eq!(m.current(), Some(State::Idle));
    handle(&mut m, &mut a);
    update(&mut m, &mut a);
    fixed(&mut m, &mut a);
    assert!(!m.is_running());
    assert_eq!(m.current(), Some(State::Idle));
    assert!(a.mv.impulses.is_empty());
    assert_eq!(shown(&a), "none");
    start(&mut m, &mut a);
    assert!(m.is_running());
    assert_eq!(shown(&a), "player-idle");
    // Starting again changes nothing.
    a.rend.tpe.set_animation_id("other", 1);
    start(&mut m, &mut a);
    assert_eq!(shown(&a), "other");
}

#[test]
fn idle_with_a_jump_is_jumping_before_gravity_acts() {
    let mut m = StateMachine::new(State::Idle);
    let mut a = actor();
    start(&mut m, &mut a);
    a.pi.jump = true;
    handle(&mut m, &mut a);
    assert_eq!(m.current(), Some(State::Jumping));
    assert_eq!(a.mv.impulses, vec![Impulse::Jump]);
    assert_eq!(shown(&a), "player-jump");
    a.bb.on_ground = false;
    update(&mut m, &mut a);
    assert_eq!(
        a.mv.impulses,
        vec![Impulse::Jump, Impulse::Fall, Impulse::Brake { fast: false }]
    );
    assert_eq!(m.current(), Some(State::Jumping));
    assert_eq!(frames(&mut a, 6), vec![Some(0), Some(1), Some(2), Some(3), Some(4), Some(6)]);
}

#[test]
fn landing_resumes_the_state_below() {
    let mut m = StateMachine::new(State::Idle);
    let mut a = actor();
    start(&mut m, &mut a);
    a.pi.right = true;
    handle(&mut m, &mut a);
    assert_eq!(m.current(), Some(State::Running));
    assert_eq!(shown(&a), "player-run");
    a.pi.jump = true;
    handle(&mut m, &mut a);
    assert_eq!(m.current(), Some(State::Jumping));
    a.pi.jump = false;
    a.bb.on_ground = false;
    update(&mut m, &mut a);
    assert_eq!(m.current(), Some(State::Jumping));
    a.bb.on_ground = true;
    update(&mut m, &mut a);
    assert_eq!(m.current(), Some(State::Running));
    assert_eq!(shown(&a), "player-run");
    assert_eq!(frames(&mut a, 2), vec![Some(0), Some(1)]);
    // Letting go of the direction switches to standing, in place.
    a.pi.right = false;
    handle(&mut m, &mut a);
    assert_eq!(m.current(), Some(State::Idle));
    assert_eq!(shown(&a), "player-idle");
    assert!(m.is_running());
}

#[test]
fn a_machine_stops_when_its_last_state_ends() {
    let mut m = StateMachine::new(State::Attacking);
    let mut a = actor();
    start(&mut m, &mut a);
    assert_eq!(shown(&a), "player-attack");
    for frame in 0..10 {
        fixed(&mut m, &mut a);
        assert!(m.is_running());
        assert_eq!(a.anim.sequence.next(), Some(frame));
    }
    fixed(&mut m, &mut a);
    assert!(!m.is_running());
    assert_eq!(m.current(), None);
    // Nothing brings it back.
    start(&mut m, &mut a);
    handle(&mut m, &mut a);
    assert!(!m.is_running());
    assert_eq!(m.current(), None);
}

#[test]
fn an_attack_from_standing_returns_to_standing() {
    let mut m = StateMachine::new(State::Idle);
    let mut a = actor();
    start(&mut m, &mut a);
    a.pi.attack = true;
    handle(&mut m, &mut a);
    a.pi.reset_actions();
    assert_eq!(m.current(), Some(State::Attacking));
    for _ in 0..10 {
        fixed(&mut m, &mut a);
        a.anim.sequence.next();
    }
    assert_eq!(m.current(), Some(State::Attacking));
    fixed(&mut m, &mut a);
    assert_eq!(m.current(), Some(State::Idle));
    assert_eq!(shown(&a), "player-idle");
    assert_eq!(frames(&mut a, 2), vec![Some(0), Some(1)]);
}

#[test]
fn an_attack_in_the_air_takes_the_place_of_the_jump() {
    let mut m = StateMachine::new(State::Idle);
    let mut a = actor();
    start(&mut m, &mut a);
    a.bb.on_ground = false;
    handle(&mut m, &mut a);
    assert_eq!(m.current(), Some(State::Jumping));
    assert_eq!(a.bb.frames_from_jump_start, 0);
    a.pi.attack = true;
    handle(&mut m, &mut a);
    assert_eq!(m.current(), Some(State::Attacking));
    a.pi.reset_actions();
    for _ in 0..10 {
        a.anim.sequence.next();
    }
    fixed(&mut m, &mut a);
    // Below the attack lies standing, not the jump.
    assert_eq!(m.current(), Some(State::Idle));
}

#[test]
fn a_fixed_step_is_due_when_its_time_has_passed() {
    assert_eq!(FIXED_STEPS_PER_SECOND, 30);
    assert_eq!(FIXED_STEP, 33_333_333);
    assert_eq!(fixed_step_due(0, 0, 10), (false, 0));
    assert_eq!(fixed_step_due(0, 9, 10), (false, 9));
    assert_eq!(fixed_step_due(3, 6, 10), (false, 9));
    assert_eq!(fixed_step_due(3, 7, 10), (true, 0));
    assert_eq!(fixed_step_due(3, 12, 10), (true, 5));
    // One step per frame at most: what is left over counts on.
    assert_eq!(fixed_step_due(0, 35, 10), (true, 25));
    assert_eq!(fixed_step_due(25, 0, 10), (true, 15));
    // A step without length is always due.
    assert_eq!(fixed_step_due(0, 0, 0), (true, 0));
    // Time beyond the greatest number counts as the greatest number.
    assert_eq!(fixed_step_due(u64::MAX, 1, 10), (true, u64::MAX - 10));
    assert_eq!(fixed_step_due(u64::MAX - 1, u64::MAX, u64::MAX), (true, 0));
    assert_eq!(fixed_step_due(1, 2, u64::MAX), (false, 3));
}

#[test]
fn sixty_frames_a_second_take_thirty_fixed_steps() {
    // A frame of a sixtieth of a second, rounded up to whole nanoseconds.
    let frame = 16_666_667;
    let mut since = 0;
    let mut steps = 0;
    for _ in 0..600 {
        let (due, rest) = fixed_step_due(since, frame, FIXED_STEP);
        since = rest;
        if due {
            steps += 1;
        }
    }
    assert_eq!(steps, 300);
}

#[test]
fn holding_down_on_a_platform_puts_the_player_in_the_air() {
    let mut m = StateMachine::new(State::Idle);
    let mut a = actor();
    a.bb.on_platform = true;
    start(&mut m, &mut a);
    a.pi.down = true;
    handle(&mut m, &mut a);
    assert_eq!(m.current(), Some(State::Jumping));
    assert_eq!(a.mv.impulses, vec![Impulse::DropThrough { thresholds: 1 }]);
    assert_eq!(shown(&a), "player-jump");
    // The standing animation goes on until the player lands or falls.
    assert_eq!(frames(&mut a, 2), vec![Some(0), Some(1)]);

    // From running the nudge is twice as far.
    let mut m = StateMachine::new(State::Running);
    let mut a = actor();
    a.bb.on_platform = true;
    start(&mut m, &mut a);
    a.pi.down = true;
    a.pi.right = true;
    handle(&mut m, &mut a);
    assert_eq!(m.current(), Some(State::Jumping));
    assert_eq!(a.mv.impulses, vec![Impulse::DropThrough { thresholds: 2 }]);
    // Below the jump lies the running state.
    a.mv.impulses.clear();
    update(&mut m, &mut a);
    assert_eq!(m.current(), Some(State::Running));
    assert_eq!(a.mv.impulses, vec![Impulse::Fall]);

    // A jump comes first, and off a platform nothing is dropped through.
    let mut m = StateMachine::new(State::Idle);
    let mut a = actor();
    a.bb.on_platform = false;
    start(&mut m, &mut a);
    a.pi.down = true;
    handle(&mut m, &mut a);
    assert_eq!(m.current(), Some(State::Idle));
    assert!(a.mv.impulses.is_empty());
}
