use terrain_march::{MarchControl, MarchStep, StepSize};

fn control(steps: usize, dt: f32) -> MarchControl {
    MarchControl::new(steps, StepSize::from_bits(dt.to_bits()).unwrap())
}

/// Drives a march over the height field `field` the way a renderer does,
/// returning the hit point and the number of probes made.
fn march(field: impl Fn(f32, f32) -> f32, origin: [f32; 3], dir: [f32; 3], steps: usize, dt: f32) -> (Option<[f32; 3]>, usize) {
    let len = (dir[0] * dir[0] + dir[1] * dir[1] + dir[2] * dir[2]).sqrt();
    let d = [dir[0] / len, dir[1] / len, dir[2] / len];
    let mut p = origin;
    let mut dt = dt;
    let mut c = control(steps, dt);
    let mut probes = 0usize;
    while !c.exhausted() {
        probes += 1;
        let below = p[2] < field(p[0], p[1]);
        match c.decide(below) {
            MarchStep::Advance => {
                for i in 0..3 {
                    p[i] += d[i] * dt;
                }
            }
            MarchStep::Refine => {
                for i in 0..3 {
                    p[i] -= d[i] * dt;
                }
                dt /= 2.0;
            }
            MarchStep::Hit => return (Some(p), probes),
        }
    }
    (None, probes)
}

#[test]
fn advance_spends_one_step() {
    let mut c = control(3, 0.5);
    assert_eq!(c.decide(false), MarchStep::Advance);
    assert_eq!(c.remaining, 2);
    assert_eq!(c.refinements, 0);
    assert_eq!(c.step, StepSize::from_bits(0.5f32.to_bits()).unwrap());
}

#[test]
fn budget_runs_out_without_crossing() {
    let mut c = control(3, 0.5);
    assert!(!c.exhausted());
    for _ in 0..3 {
        assert_eq!(c.decide(false), MarchStep::Advance);
    }
    assert!(c.exhausted());
    assert!(control(0, 0.5).exhausted());
}

#[test]
fn coarse_crossing_refines_with_fresh_budget() {
    let mut c = control(300, 0.5);
    assert_eq!(c.decide(true), MarchStep::Refine);
    assert_eq!(c.remaining, 32);
    assert_eq!(c.refinements, 1);
    assert_eq!(c.step, StepSize { mantissa: 8388608, shift: 25 });
}

#[test]
fn fine_crossing_is_a_hit() {
    let mut c = control(5, 0.005);
    let before = c;
    assert_eq!(c.decide(true), MarchStep::Hit);
    assert_eq!(c, before);
}

#[test]
fn half_step_hits_after_six_halvings() {
    let mut c = control(300, 0.5);
    let mut shifts = vec![c.step.shift];
    loop {
        match c.decide(true) {
            MarchStep::Refine => shifts.push(c.step.shift),
            MarchStep::Hit => break,
            MarchStep::Advance => panic!("advanced below the surface"),
        }
    }
    assert_eq!(c.refinements, 6);
    assert_eq!(shifts, vec![24, 25, 26, 27, 28, 29, 30]);
}

#[test]
fn unit_step_refines_at_most_seven_times() {
    let mut c = control(1, 1.0);
    while c.decide(true) == MarchStep::Refine {}
    assert_eq!(c.refinements, 7);
}

#[test]
fn refinement_ends_for_many_first_steps() {
    for bits in (1u32..=1.0f32.to_bits()).step_by(999_983) {
        let mut c = MarchControl::new(10, StepSize::from_bits(bits).unwrap());
        let mut n = 0;
        while c.decide(true) == MarchStep::Refine {
            n += 1;
        }
        assert!(n <= 7);
        assert!(c.step.fine());
    }
}

#[test]
fn upward_ray_from_above_never_hits() {
    let field = |x: f32, y: f32| (x * 0.1).sin() * (y * 0.1).cos() * 3.0;
    let (hit, probes) = march(field, [0.0, 0.0, 10.0], [0.0, 0.0, 1.0], 300, 0.5);
    assert!(hit.is_none());
    assert_eq!(probes, 300);
}

#[test]
fn downward_ray_hits_the_surface() {
    let field = |x: f32, y: f32| (x * 0.3).sin() + (y * 0.2).cos();
    let (hit, _) = march(field, [1.5, -2.0, 8.0], [0.0, 0.0, -1.0], 300, 0.5);
    let p = hit.unwrap();
    let h = field(1.5, -2.0);
    assert!(p[2] < h);
    assert!(h - p[2] <= 0.01);
}

#[test]
fn flat_field_hit_from_straight_above() {
    for e in [-1.0f32, 0.0, 2.5] {
        let (hit, _) = march(|_, _| e, [0.0, 0.0, 10.0], [0.0, 0.0, -1.0], 300, 0.5);
        let p = hit.unwrap();
        assert!((p[2] - e).abs() <= 0.01, "elevation {}", e);
        assert_eq!((p[0], p[1]), (0.0, 0.0));
    }
}

#[test]
fn horizontal_ray_above_bounded_terrain_misses() {
    let field = |x: f32, y: f32| ((x * 0.5).sin() * (y * 0.5).sin()).max(-1.0) * 4.0;
    let (hit, _) = march(field, [0.0, 0.0, 20.0], [0.0, 1.0, 0.0], 300, 0.5);
    assert!(hit.is_none());
}
