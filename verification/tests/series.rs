use bb::coverage::check_coverage;
use bb::error::TextureError;
use bb::noise::{limit_of, percent_of, perturb};
use bb::series::Series;
use bb::step::Step;

fn step(name: &str, start: u8, end: u8) -> Step {
    Step { name: name.to_string(), start, end }
}

fn dirt_and_grass() -> Vec<Step> {
    vec![step("dirt", 0, 127), step("grass", 128, 255)]
}

fn refused(steps: Vec<Step>) {
    assert!(!check_coverage(&steps));
    match Series::try_from(steps) {
        Err(e) => assert_eq!(e, TextureError::PartialRange),
        Ok(_) => panic!("accepted"),
    }
}

#[test]
fn coverage_acceptance() {
    assert!(check_coverage(&dirt_and_grass()));
    assert!(Series::try_from(dirt_and_grass()).is_ok());
}

#[test]
fn coverage_gap_is_refused() {
    refused(vec![step("a", 0, 100), step("b", 150, 255)]);
}

#[test]
fn coverage_of_one_step() {
    assert!(Series::try_from(vec![step("all", 0, 255)]).is_ok());
}

#[test]
fn coverage_in_any_order() {
    let mut series =
        Series::try_from(vec![step("c", 200, 255), step("a", 0, 99), step("b", 100, 199)]).unwrap();
    assert_eq!(series.activate(0), 2);
    assert_eq!(series.activate(99), 2);
    assert_eq!(series.activate(100), 3);
    assert_eq!(series.activate(199), 3);
    assert_eq!(series.activate(200), 1);
    assert_eq!(series.activate(255), 1);
}

#[test]
fn no_steps_are_refused() {
    refused(vec![]);
}

#[test]
fn short_coverage_is_refused() {
    refused(vec![step("a", 0, 254)]);
    refused(vec![step("a", 1, 255)]);
    refused(vec![step("a", 0, 127), step("b", 129, 255)]);
}

#[test]
fn overlap_is_refused() {
    refused(vec![step("a", 0, 128), step("b", 128, 255)]);
    refused(vec![step("a", 0, 255), step("b", 10, 10)]);
}

#[test]
fn overlap_with_the_right_total_is_refused() {
    refused(vec![step("a", 0, 127), step("b", 100, 227)]);
    refused(vec![step("a", 0, 127), step("b", 0, 127)]);
}

#[test]
fn twice_the_domain_is_refused() {
    refused(vec![step("a", 0, 255), step("b", 0, 255)]);
}

#[test]
fn many_times_the_domain_is_refused() {
    let steps: Vec<Step> = (0..600).map(|_| step("a", 0, 255)).collect();
    refused(steps);
}

#[test]
fn a_reversed_step_is_refused() {
    refused(vec![step("a", 0, 255), step("b", 5, 4)]);
    refused(vec![step("a", 255, 0)]);
    refused(vec![step("a", 0, 127), step("b", 255, 128)]);
}

#[test]
fn a_step_for_every_luminance() {
    let steps: Vec<Step> = (0..=255u8).map(|v| step(&format!("t{}", v), v, v)).collect();
    let mut series = Series::try_from(steps).unwrap();
    assert_eq!(series.steps().len(), 256);
    assert_eq!(series.activate(0), 1);
    assert_eq!(series.activate(254), 255);
    assert_eq!(series.activate(255), 256);
    assert_eq!(series.locate(255), 256);
}

#[test]
fn boundary_inclusivity() {
    let mut series = Series::try_from(dirt_and_grass()).unwrap();
    assert_eq!(series.activate(0), 1);
    assert_eq!(series.activate(127), 1);
    assert_eq!(series.activate(128), 2);
    assert_eq!(series.activate(255), 2);
}

#[test]
fn without_blending_activation_is_a_function_of_the_value() {
    let mut first = Series::try_from(dirt_and_grass()).unwrap().with_blending(1, 0);
    let mut second = Series::try_from(dirt_and_grass()).unwrap().with_blending(2, 0);
    for _ in 0..3 {
        for v in 0..=255u8 {
            let expected = if v <= 127 { 1 } else { 2 };
            assert_eq!(first.activate(v), expected);
            assert_eq!(second.activate(v), expected);
            assert_eq!(first.locate(v), expected);
        }
    }
}

#[test]
fn a_new_series_has_no_blending() {
    let mut series = Series::try_from(dirt_and_grass()).unwrap();
    assert_eq!(series.blending(), 0);
    for _ in 0..100 {
        assert_eq!(series.activate(127), 1);
    }
}

#[test]
fn a_new_series_has_a_seed_that_is_not_zero() {
    for _ in 0..50 {
        let series = Series::try_from(dirt_and_grass()).unwrap();
        assert_ne!(series.seed(), 0);
        assert_ne!(series.seed(), u64::MAX);
    }
}

#[test]
fn new_series_differ_in_their_seeds() {
    let first = Series::try_from(dirt_and_grass()).unwrap();
    let seeds: Vec<u64> =
        (0..8).map(|_| Series::try_from(dirt_and_grass()).unwrap().seed()).collect();
    assert!(seeds.iter().any(|s| *s != first.seed()));
}

#[test]
fn with_blending_takes_a_seed_that_is_not_zero() {
    let series = Series::try_from(dirt_and_grass()).unwrap().with_blending(42, 0);
    assert_eq!(series.seed(), 42);
    let series = series.with_blending(u64::MAX, 10);
    assert_eq!(series.seed(), u64::MAX);
}

#[test]
fn with_blending_keeps_the_seed_on_zero() {
    let series = Series::try_from(dirt_and_grass()).unwrap();
    let seed = series.seed();
    let series = series.with_blending(0, 30);
    assert_eq!(series.seed(), seed);
    let series = series.with_blending(7, 30).with_blending(0, 40);
    assert_eq!(series.seed(), 7);
}

#[test]
fn with_blending_keeps_the_steps() {
    let series = Series::try_from(dirt_and_grass()).unwrap().with_blending(3, 50);
    assert_eq!(series.steps(), &dirt_and_grass());
}

#[test]
fn the_noise_limit_is_the_share_of_255_rounded_down() {
    assert_eq!(limit_of(0), 0);
    assert_eq!(limit_of(1), 2);
    assert_eq!(limit_of(2), 5);
    assert_eq!(limit_of(10), 25);
    assert_eq!(limit_of(20), 51);
    assert_eq!(limit_of(33), 84);
    assert_eq!(limit_of(50), 127);
    assert_eq!(limit_of(99), 252);
    assert_eq!(limit_of(100), 255);
}

#[test]
fn the_reported_percentage_is_the_share_in_percent_rounded_up() {
    assert_eq!(percent_of(0), 0);
    assert_eq!(percent_of(1), 1);
    assert_eq!(percent_of(2), 1);
    assert_eq!(percent_of(3), 2);
    assert_eq!(percent_of(51), 20);
    assert_eq!(percent_of(52), 21);
    assert_eq!(percent_of(127), 50);
    assert_eq!(percent_of(128), 51);
    assert_eq!(percent_of(153), 60);
    assert_eq!(percent_of(254), 100);
    assert_eq!(percent_of(255), 100);
}

#[test]
fn the_reported_percentage_is_the_one_that_was_set() {
    let mut series = Series::try_from(dirt_and_grass()).unwrap();
    for percent in 0..=100u8 {
        series = series.with_blending(1, percent);
        assert_eq!(series.blending(), percent);
        assert_eq!(percent_of(limit_of(percent)), percent);
    }
}

#[test]
fn perturb_adds_and_holds_at_255() {
    assert_eq!(perturb(0, 0), 0);
    assert_eq!(perturb(10, 5), 15);
    assert_eq!(perturb(200, 55), 255);
    assert_eq!(perturb(200, 56), 255);
    assert_eq!(perturb(250, 10), 255);
    assert_eq!(perturb(255, 0), 255);
    assert_eq!(perturb(255, 1), 255);
    assert_eq!(perturb(255, 255), 255);
    assert_eq!(perturb(1, 255), 255);
    assert_eq!(perturb(0, 255), 255);
}

#[test]
fn saturation_at_the_top_of_the_domain() {
    for percent in [1u8, 20, 50, 100] {
        let mut series = Series::try_from(dirt_and_grass()).unwrap().with_blending(9, percent);
        for _ in 0..500 {
            assert_eq!(series.activate(255), 2);
            assert_eq!(series.activate(200), 2);
        }
    }
}

#[test]
fn noise_moves_a_value_up_by_no_more_than_the_limit() {
    let steps = vec![step("a", 0, 99), step("b", 100, 255)];
    let mut series = Series::try_from(steps).unwrap().with_blending(5, 20);
    for _ in 0..2000 {
        assert_eq!(series.activate(0), 1);
        assert_eq!(series.activate(48), 1);
        assert_eq!(series.activate(100), 2);
        let index = series.activate(49);
        assert!(index == 1 || index == 2);
    }
}

#[test]
fn noise_takes_offsets_below_and_at_the_limit() {
    let steps = vec![step("a", 0, 99), step("b", 100, 255)];
    let mut series = Series::try_from(steps).unwrap().with_blending(11, 100);
    let mut low = 0;
    let mut high = 0;
    for _ in 0..2000 {
        match series.activate(0) {
            1 => low += 1,
            2 => high += 1,
            other => panic!("{}", other),
        }
    }
    assert!(low > 0);
    assert!(high > 0);
}

#[test]
fn noise_reaches_the_whole_range() {
    let steps: Vec<Step> = (0..=255u8).map(|v| step("t", v, v)).collect();
    let mut series = Series::try_from(steps).unwrap().with_blending(3, 2);
    let mut seen = [false; 257];
    for _ in 0..2000 {
        seen[series.activate(10) as usize] = true;
    }
    for index in 0..=256usize {
        assert_eq!(seen[index], (11..=16).contains(&index), "{}", index);
    }
}

#[test]
fn the_same_seed_gives_the_same_activations() {
    let mut first = Series::try_from(dirt_and_grass()).unwrap().with_blending(1234, 60);
    let mut second = Series::try_from(dirt_and_grass()).unwrap().with_blending(1234, 60);
    for round in 0..4000u32 {
        let value = (round % 256) as u8;
        assert_eq!(first.activate(value), second.activate(value));
    }
}

#[test]
fn another_seed_gives_other_activations() {
    let mut first = Series::try_from(dirt_and_grass()).unwrap().with_blending(1, 60);
    let mut second = Series::try_from(dirt_and_grass()).unwrap().with_blending(2, 60);
    let mut differ = false;
    for _ in 0..4000 {
        if first.activate(60) != second.activate(60) {
            differ = true;
        }
    }
    assert!(differ);
}

#[test]
fn setting_the_seed_again_starts_the_noise_anew() {
    let mut series = Series::try_from(dirt_and_grass()).unwrap().with_blending(77, 60);
    let first: Vec<u16> = (0..500).map(|_| series.activate(60)).collect();
    let mut series = series.with_blending(77, 60);
    let second: Vec<u16> = (0..500).map(|_| series.activate(60)).collect();
    assert_eq!(first, second);
}

#[test]
fn activate_with_moves_the_value_by_the_offset() {
    let series = Series::try_from(dirt_and_grass()).unwrap().with_blending(1, 20);
    assert_eq!(series.activate_with(100, 0), 1);
    assert_eq!(series.activate_with(100, 27), 1);
    assert_eq!(series.activate_with(100, 28), 2);
    assert_eq!(series.activate_with(0, 127), 1);
    assert_eq!(series.activate_with(0, 128), 2);
    assert_eq!(series.activate_with(0, 255), 2);
    assert_eq!(series.activate_with(250, 10), 2);
    assert_eq!(series.activate_with(255, 255), 2);
    assert_eq!(series.activate_with(127, 0), 1);
    assert_eq!(series.activate_with(127, 1), 2);
}

#[test]
fn locate_finds_the_step_of_every_luminance() {
    let steps = vec![step("c", 200, 255), step("a", 0, 99), step("b", 100, 199)];
    let series = Series::try_from(steps.clone()).unwrap();
    for v in 0..=255u8 {
        let index = series.locate(v) as usize;
        assert!(steps[index - 1].start <= v && v <= steps[index - 1].end);
    }
}

#[test]
fn the_steps_are_kept_in_declaration_order() {
    let steps = vec![step("c", 200, 255), step("a", 0, 99), step("b", 100, 199)];
    let series = Series::try_from(steps.clone()).unwrap();
    assert_eq!(series.steps(), &steps);
}
