use glam::Vec3A;
use sdflib::{MarchConfig, RayState, Sdf, SdfCalc, SdfScene, Verdict};

/// A ball around the origin.
struct Ball {
    radius: f32,
}

impl Sdf for Ball {
    fn eval(&self, _at: Vec3A) -> SdfCalc {
        unreachable!()
    }

    fn run(&self, pos: &Vec3A) -> SdfCalc {
        SdfCalc { dist: (pos.length() - self.radius).to_bits() }
    }
}

/// A field that gives one distance everywhere.
struct Flat {
    level: f32,
}

impl Sdf for Flat {
    fn eval(&self, _at: Vec3A) -> SdfCalc {
        unreachable!()
    }

    fn run(&self, _pos: &Vec3A) -> SdfCalc {
        SdfCalc { dist: self.level.to_bits() }
    }
}

#[derive(Debug, PartialEq)]
enum End {
    Hit,
    Miss,
    Stalled,
}

/// Marches one ray: samples, lets the library decide, and moves on.
/// Gives how the march ended, where, and after how many moves.
fn march(scene: &dyn Sdf, origin: Vec3A, direction: Vec3A, cfg: &MarchConfig) -> (End, Vec3A, u32) {
    let mut state = RayState::start();
    let mut position = origin;
    let mut moves = 0u32;
    loop {
        assert!(moves < 10_000);
        let calc = scene.run(&position);
        match state.step(cfg, calc) {
            Verdict::Marching => {
                position = position + direction * f32::from_bits(calc.dist);
                moves += 1;
            }
            Verdict::Hit => return (End::Hit, position, moves),
            Verdict::Miss => return (End::Miss, position, moves),
            Verdict::Stalled => return (End::Stalled, position, moves),
        }
    }
}

fn normal_at(scene: &dyn Sdf, p: Vec3A) -> Vec3A {
    let h = 0.001f32;
    let d = |q: Vec3A| f32::from_bits(scene.run(&q).dist);
    Vec3A::new(
        d(p + Vec3A::new(h, 0.0, 0.0)) - d(p - Vec3A::new(h, 0.0, 0.0)),
        d(p + Vec3A::new(0.0, h, 0.0)) - d(p - Vec3A::new(0.0, h, 0.0)),
        d(p + Vec3A::new(0.0, 0.0, h)) - d(p - Vec3A::new(0.0, 0.0, h)),
    )
    .normalize()
}

fn config(contact: f32, nothing: f32, max_same: u32) -> MarchConfig {
    MarchConfig { contact: contact.to_bits(), nothing: nothing.to_bits(), max_same }
}

fn calc(x: f32) -> SdfCalc {
    SdfCalc { dist: x.to_bits() }
}

#[test]
fn default_config_holds_the_usual_numbers() {
    let cfg = MarchConfig::default();
    assert_eq!(cfg.contact, 0.001f32.to_bits());
    assert_eq!(cfg.nothing, 1000.0f32.to_bits());
    assert_eq!(cfg.max_same, 3);
}

#[test]
fn start_has_seen_no_distance_and_no_repeats() {
    let state = RayState::start();
    assert_eq!(state.last_dist, None);
    assert_eq!(state.same_count, 0);
}

#[test]
fn ray_at_unit_ball_hits_its_near_side() {
    let scene = Ball { radius: 1.0 };
    let cfg = MarchConfig::default();
    let (end, position, _) = march(&scene, Vec3A::new(0.0, 0.0, -2.0), Vec3A::new(0.0, 0.0, 1.0), &cfg);
    assert_eq!(end, End::Hit);
    assert!((position - Vec3A::new(0.0, 0.0, -1.0)).length() < 0.002);
    let normal = normal_at(&scene, position);
    assert!((normal - Vec3A::new(0.0, 0.0, -1.0)).length() < 0.01);
}

#[test]
fn ray_at_unit_ball_in_a_scene_hits_its_near_side() {
    let elems: Vec<Box<dyn Sdf>> = vec![Box::new(Ball { radius: 1.0 })];
    let scene = SdfScene::from_vec(elems);
    let cfg = MarchConfig::default();
    let (end, position, moves) = march(&scene, Vec3A::new(0.0, 0.0, -2.0), Vec3A::new(0.0, 0.0, 1.0), &cfg);
    assert_eq!(end, End::Hit);
    assert_eq!(moves, 1);
    assert_eq!(position, Vec3A::new(0.0, 0.0, -1.0));
}

#[test]
fn ray_away_from_the_ball_misses_in_few_moves() {
    let scene = Ball { radius: 1.0 };
    let cfg = MarchConfig::default();
    let (end, _, moves) = march(&scene, Vec3A::new(0.0, 0.0, -2.0), Vec3A::new(0.0, 0.0, -1.0), &cfg);
    assert_eq!(end, End::Miss);
    assert_eq!(moves, 10);
}

#[test]
fn ray_straight_away_from_the_ball_misses_after_the_doublings_that_fit() {
    let scene = Ball { radius: 1.0 };
    let cfg = MarchConfig::default();
    for first in [1.0f32, 0.5, 3.0, 700.0, 1000.0] {
        let origin = Vec3A::new(0.0, 0.0, -(1.0 + first));
        let (end, _, moves) = march(&scene, origin, Vec3A::new(0.0, 0.0, -1.0), &cfg);
        assert_eq!(end, End::Miss);
        let samples = moves + 1;
        assert_eq!(samples, (1000.0 / first).log2().floor() as u32 + 2);
    }
}

#[test]
fn samples_that_grow_by_half_miss_within_the_bound() {
    let cfg = MarchConfig::default();
    let mut state = RayState::start();
    let mut d = 2.0f32;
    let mut marching = 0u32;
    loop {
        match state.step(&cfg, calc(d)) {
            Verdict::Marching => marching += 1,
            Verdict::Miss => break,
            other => panic!("{:?}", other),
        }
        d = d * 1.5;
    }
    let bound = ((1000.0f32 / 2.0).ln() / 1.5f32.ln()).floor() as u32 + 1;
    assert_eq!(marching, bound);
}

#[test]
fn growing_samples_never_hit_or_stall() {
    let cfg = config(0.001, 1000.0, 1);
    let mut state = RayState::start();
    for d in [0.001f32, 0.002, 0.5, 0.6, 7.0, 999.0, 1000.0] {
        assert_eq!(state.step(&cfg, calc(d)), Verdict::Marching);
        assert_eq!(state.same_count, 0);
    }
    assert_eq!(state.step(&cfg, calc(1000.5)), Verdict::Miss);
}

#[test]
fn ray_past_the_ball_misses() {
    let scene = Ball { radius: 1.0 };
    let cfg = MarchConfig::default();
    let (end, _, moves) = march(&scene, Vec3A::new(3.0, 0.0, -2.0), Vec3A::new(0.0, 0.0, 1.0), &cfg);
    assert_eq!(end, End::Miss);
    assert!(moves < 40);
}

#[test]
fn constant_field_stalls_after_exactly_the_allowed_moves() {
    let scene = Flat { level: 5.0 };
    let (end, position, moves) =
        march(&scene, Vec3A::ZERO, Vec3A::new(0.0, 0.0, 1.0), &MarchConfig::default());
    assert_eq!(end, End::Stalled);
    assert_eq!(moves, 3);
    assert_eq!(position, Vec3A::new(0.0, 0.0, 15.0));
    for allowed in [1u32, 2, 3, 7, 20] {
        let (end, _, moves) =
            march(&scene, Vec3A::ZERO, Vec3A::new(0.0, 0.0, 1.0), &config(0.001, 1000.0, allowed));
        assert_eq!(end, End::Stalled);
        assert_eq!(moves, allowed);
    }
}

#[test]
fn constant_field_with_no_allowance_stalls_at_the_first_repeat() {
    let scene = Flat { level: 5.0 };
    let (end, _, moves) = march(&scene, Vec3A::ZERO, Vec3A::new(0.0, 0.0, 1.0), &config(0.001, 1000.0, 0));
    assert_eq!(end, End::Stalled);
    assert_eq!(moves, 1);
}

#[test]
fn constant_field_at_either_threshold_stalls_like_any_other() {
    for level in [1000.0f32, 0.001] {
        let scene = Flat { level };
        let (end, _, moves) =
            march(&scene, Vec3A::ZERO, Vec3A::new(0.0, 0.0, 1.0), &MarchConfig::default());
        assert_eq!(end, End::Stalled);
        assert_eq!(moves, 3);
    }
}

#[test]
fn first_sample_is_never_a_repeat() {
    let cfg = config(0.001, 1000.0, 1);
    for first in [1000.0f32, 0.0, 5.0, 0.001] {
        let mut state = RayState::start();
        assert!(state.step(&cfg, calc(first)) != Verdict::Stalled);
        assert_eq!((state.last_dist, state.same_count), (Some(first.to_bits()), 0));
    }
}

#[test]
fn constant_field_below_contact_is_a_hit_at_once() {
    let scene = Flat { level: 0.0005 };
    let (end, position, moves) =
        march(&scene, Vec3A::new(1.0, 2.0, 3.0), Vec3A::new(0.0, 0.0, 1.0), &MarchConfig::default());
    assert_eq!(end, End::Hit);
    assert_eq!(moves, 0);
    assert_eq!(position, Vec3A::new(1.0, 2.0, 3.0));
}

#[test]
fn constant_field_above_the_miss_distance_is_a_miss_at_once() {
    let scene = Flat { level: 1000.5 };
    let (end, _, moves) = march(&scene, Vec3A::ZERO, Vec3A::new(0.0, 0.0, 1.0), &MarchConfig::default());
    assert_eq!(end, End::Miss);
    assert_eq!(moves, 0);
}

#[test]
fn empty_scene_is_a_miss_at_once() {
    let scene = SdfScene::from_vec(Vec::new());
    let (end, _, moves) = march(&scene, Vec3A::ZERO, Vec3A::new(0.0, 0.0, 1.0), &MarchConfig::default());
    assert_eq!(end, End::Miss);
    assert_eq!(moves, 0);
}

#[test]
fn step_tests_the_thresholds_strictly() {
    let cfg = config(0.25, 100.0, 3);
    let mut state = RayState::start();
    assert_eq!(state.step(&cfg, calc(0.25)), Verdict::Marching);
    let mut state = RayState::start();
    assert_eq!(state.step(&cfg, calc(0.24999)), Verdict::Hit);
    let mut state = RayState::start();
    assert_eq!(state.step(&cfg, calc(-3.0)), Verdict::Hit);
    let mut state = RayState::start();
    assert_eq!(state.step(&cfg, calc(100.0)), Verdict::Marching);
    let mut state = RayState::start();
    assert_eq!(state.step(&cfg, calc(100.001)), Verdict::Miss);
    let mut state = RayState::start();
    assert_eq!(state.step(&cfg, calc(f32::INFINITY)), Verdict::Miss);
    let mut state = RayState::start();
    assert_eq!(state.step(&cfg, calc(f32::NEG_INFINITY)), Verdict::Hit);
}

#[test]
fn step_counts_repeats_and_forgets_them_on_a_change() {
    let cfg = config(0.001, 1000.0, 3);
    let mut state = RayState::start();
    assert_eq!(state.step(&cfg, calc(5.0)), Verdict::Marching);
    assert_eq!((state.last_dist, state.same_count), (Some(5.0f32.to_bits()), 0));
    assert_eq!(state.step(&cfg, calc(5.0)), Verdict::Marching);
    assert_eq!((state.last_dist, state.same_count), (Some(5.0f32.to_bits()), 1));
    assert_eq!(state.step(&cfg, calc(5.0)), Verdict::Marching);
    assert_eq!((state.last_dist, state.same_count), (Some(5.0f32.to_bits()), 2));
    assert_eq!(state.step(&cfg, calc(4.0)), Verdict::Marching);
    assert_eq!((state.last_dist, state.same_count), (Some(4.0f32.to_bits()), 0));
    assert_eq!(state.step(&cfg, calc(4.0)), Verdict::Marching);
    assert_eq!(state.step(&cfg, calc(4.0)), Verdict::Marching);
    assert_eq!(state.step(&cfg, calc(4.0)), Verdict::Stalled);
    assert_eq!((state.last_dist, state.same_count), (Some(4.0f32.to_bits()), 3));
}

#[test]
fn step_takes_the_two_zeros_for_the_same_distance() {
    let cfg = config(-1.0, 1000.0, 2);
    let mut state = RayState::start();
    assert_eq!(state.step(&cfg, calc(0.0)), Verdict::Marching);
    assert_eq!(state.step(&cfg, calc(-0.0)), Verdict::Marching);
    assert_eq!((state.last_dist, state.same_count), (Some(0.0f32.to_bits()), 1));
    assert_eq!(state.step(&cfg, calc(0.0)), Verdict::Stalled);
}

#[test]
fn step_puts_a_stall_before_a_hit_and_a_miss() {
    let cfg = config(0.001, 1000.0, 3);
    let mut state = RayState { last_dist: Some((-1.0f32).to_bits()), same_count: 2 };
    assert_eq!(state.step(&cfg, calc(-1.0)), Verdict::Stalled);
    let mut state = RayState { last_dist: Some(2000.0f32.to_bits()), same_count: 2 };
    assert_eq!(state.step(&cfg, calc(2000.0)), Verdict::Stalled);
    let mut state = RayState { last_dist: Some((-1.0f32).to_bits()), same_count: 1 };
    assert_eq!(state.step(&cfg, calc(-1.0)), Verdict::Hit);
    let mut state = RayState { last_dist: Some(2000.0f32.to_bits()), same_count: 1 };
    assert_eq!(state.step(&cfg, calc(2000.0)), Verdict::Miss);
}

#[test]
fn step_never_takes_a_nan_for_a_repeat() {
    let cfg = config(0.001, 1000.0, 1);
    let mut state = RayState::start();
    for _ in 0..5 {
        assert_eq!(state.step(&cfg, calc(f32::NAN)), Verdict::Marching);
        assert_eq!(state.same_count, 0);
    }
}

#[test]
fn step_holds_a_full_count_where_it_is() {
    let cfg = config(0.001, 1000.0, 3);
    let mut state = RayState { last_dist: Some(5.0f32.to_bits()), same_count: u32::MAX };
    assert_eq!(state.step(&cfg, calc(5.0)), Verdict::Stalled);
    assert_eq!(state.same_count, u32::MAX);
}
