use platformer_core::components::{Renderable, RenderableType};
use platformer_core::player::animation_defs::PlayerAnimations;
use platformer_core::player::systems::AnimationFFSystem;
use platformer_core::rendering::animation_seq::{Animation, AnimationSequence, HasAnimationSequence};

fn take(sequence: &mut AnimationSequence, n: usize) -> Vec<Option<usize>> {
    let mut out = vec![];
    for _ in 0..n {
        out.push(sequence.next());
    }
    out
}

#[test]
fn play_two_to_five_yields_each_frame_then_none() {
    let mut sequence = AnimationSequence::new(Animation::play(2, 5));
    assert_eq!(
        take(&mut sequence, 7),
        vec![Some(2), Some(3), Some(4), Some(5), None, None, None]
    );
}

#[test]
fn is_over_skips_no_frame() {
    let mut sequence = AnimationSequence::new(Animation::play(2, 5));
    assert!(!sequence.is_over());
    assert!(!sequence.is_over());
    assert_eq!(sequence.next(), Some(2));
    assert!(!sequence.is_over());
    assert_eq!(sequence.next(), Some(3));
    assert_eq!(sequence.next(), Some(4));
    assert!(!sequence.is_over());
    assert_eq!(sequence.next(), Some(5));
    assert!(sequence.is_over());
    assert!(sequence.is_over());
    assert_eq!(sequence.next(), None);
    assert!(sequence.is_over());
}

#[test]
fn forever_never_ends_and_restarts_at_its_first_frame() {
    let mut sequence = AnimationSequence::new(Animation::forever(Animation::play(0, 2)));
    for round in 0..50 {
        assert!(!sequence.is_over(), "round {}", round);
        assert_eq!(sequence.next(), Some(0));
        assert_eq!(sequence.next(), Some(1));
        assert!(!sequence.is_over());
        assert_eq!(sequence.next(), Some(2));
    }
}

#[test]
fn play_picks_the_direction() {
    assert!(matches!(Animation::play(3, 7), Animation::Play { start: 3, end: 7 }));
    assert!(matches!(Animation::play(4, 4), Animation::Play { start: 4, end: 4 }));
    assert!(matches!(Animation::play(7, 3), Animation::ReversePlay { start: 7, end: 3 }));
}

#[test]
fn reverse_play_counts_down_to_zero_and_stops() {
    let mut sequence = AnimationSequence::new(Animation::play(3, 0));
    assert_eq!(take(&mut sequence, 6), vec![Some(3), Some(2), Some(1), Some(0), None, None]);
}

#[test]
fn play_up_to_the_greatest_index_stops() {
    let mut sequence = AnimationSequence::new(Animation::play(usize::MAX - 1, usize::MAX));
    assert_eq!(
        take(&mut sequence, 4),
        vec![Some(usize::MAX - 1), Some(usize::MAX), None, None]
    );
}

#[test]
fn ranges_against_their_direction_are_empty() {
    let mut up = AnimationSequence::new(Animation::Play { start: 5, end: 2 });
    assert!(up.is_over());
    assert_eq!(take(&mut up, 3), vec![None, None, None]);
    let mut down = AnimationSequence::new(Animation::ReversePlay { start: 2, end: 5 });
    assert_eq!(take(&mut down, 3), vec![None, None, None]);
}

#[test]
fn repeat_plays_its_animation_that_many_times() {
    let mut sequence = AnimationSequence::new(Animation::repeat(3, Animation::play(6, 7)));
    assert_eq!(
        take(&mut sequence, 8),
        vec![Some(6), Some(7), Some(6), Some(7), Some(6), Some(7), None, None]
    );
    let mut never = AnimationSequence::new(Animation::repeat(0, Animation::play(6, 7)));
    assert_eq!(take(&mut never, 2), vec![None, None]);
}

#[test]
fn pieces_play_one_after_the_other() {
    let mut sequence = AnimationSequence::new(Animation::seq(vec![
        Animation::play(0, 1),
        Animation::play(9, 8),
        Animation::repeat(2, Animation::play(4, 4)),
    ]));
    assert_eq!(
        take(&mut sequence, 8),
        vec![Some(0), Some(1), Some(9), Some(8), Some(4), Some(4), None, None]
    );
    let mut empty = AnimationSequence::new(Animation::seq(vec![]));
    assert_eq!(take(&mut empty, 2), vec![None, None]);
}

#[test]
fn an_empty_child_costs_one_answer() {
    // A composite node hands out the first answer of the child it starts,
    // and an empty child's first answer is that it has no frame.
    let mut sequence = AnimationSequence::new(Animation::seq(vec![
        Animation::seq(vec![]),
        Animation::play(0, 1),
    ]));
    assert_eq!(take(&mut sequence, 5), vec![None, Some(0), Some(1), None, None]);
    let mut hollow = AnimationSequence::new(Animation::forever(Animation::seq(vec![])));
    assert!(hollow.is_over());
    assert_eq!(take(&mut hollow, 3), vec![None, None, None]);
}

#[test]
fn the_animation_of_a_sequence_stays_as_given() {
    let mut sequence = AnimationSequence::new(Animation::play(2, 5));
    sequence.next();
    sequence.next();
    assert!(matches!(sequence.animation(), Animation::Play { start: 2, end: 5 }));
}

#[test]
fn a_clone_of_an_animation_plays_the_same() {
    let animation = Animation::seq(vec![
        Animation::play(0, 2),
        Animation::forever(Animation::repeat(2, Animation::play(5, 4))),
    ]);
    let mut first = AnimationSequence::new(animation.clone());
    let mut second = AnimationSequence::new(animation);
    assert_eq!(take(&mut first, 20), take(&mut second, 20));
}

#[test]
fn the_players_animations_play_their_frames() {
    let mut idle = PlayerAnimations::idle();
    let mut expected = vec![];
    for round in 0..2 {
        let _ = round;
        for frame in 0..10 {
            expected.push(Some(frame));
        }
    }
    assert_eq!(take(&mut idle, 20), expected);
    let mut run = PlayerAnimations::run();
    assert_eq!(take(&mut run, 20), expected);

    let mut once = vec![];
    for frame in 0..10 {
        once.push(Some(frame));
    }
    once.push(None);
    let mut attack = PlayerAnimations::attack();
    assert_eq!(take(&mut attack, 11), once);
    let mut slide = PlayerAnimations::slide();
    assert_eq!(take(&mut slide, 11), once);

    let mut drop = PlayerAnimations::drop();
    assert_eq!(take(&mut drop, 12), vec![Some(6); 12]);

    let mut jump = PlayerAnimations::jump();
    let mut leap = vec![Some(0), Some(1), Some(2), Some(3), Some(4)];
    for _ in 0..15 {
        leap.push(Some(6));
    }
    assert_eq!(take(&mut jump, 20), leap);
}

#[test]
fn the_shown_frame_follows_the_sequence() {
    let mut anim = HasAnimationSequence { sequence: AnimationSequence::new(Animation::play(3, 4)) };
    let mut rend = Renderable {
        layer: 5,
        tpe: RenderableType::Animation { id: "player-idle", frame: 0, length: 10 },
    };
    AnimationFFSystem::run(&mut anim, &mut rend);
    assert_eq!(rend.tpe, RenderableType::Animation { id: "player-idle", frame: 3, length: 10 });
    AnimationFFSystem::run(&mut anim, &mut rend);
    assert_eq!(rend.tpe, RenderableType::Animation { id: "player-idle", frame: 4, length: 10 });
    // The sequence has run out: the last frame stays.
    AnimationFFSystem::run(&mut anim, &mut rend);
    assert_eq!(rend.tpe, RenderableType::Animation { id: "player-idle", frame: 4, length: 10 });
    assert_eq!(rend.layer, 5);
}

#[test]
fn an_image_leaves_the_sequence_alone() {
    let mut anim = HasAnimationSequence { sequence: AnimationSequence::new(Animation::play(3, 4)) };
    let mut rend = Renderable { layer: 0, tpe: RenderableType::Image { id: "level-background" } };
    AnimationFFSystem::run(&mut anim, &mut rend);
    assert_eq!(rend.tpe, RenderableType::Image { id: "level-background" });
    assert_eq!(anim.sequence.next(), Some(3));
}

#[test]
fn set_animation_id_keeps_the_frame() {
    let mut tpe = RenderableType::Animation { id: "player-idle", frame: 7, length: 10 };
    tpe.set_animation_id("player-run", 12);
    assert_eq!(tpe, RenderableType::Animation { id: "player-run", frame: 7, length: 12 });
    let mut batch = RenderableType::Batch { id: "level-ground" };
    batch.set_animation_id("player-run", 12);
    assert_eq!(batch, RenderableType::Batch { id: "level-ground" });
}
