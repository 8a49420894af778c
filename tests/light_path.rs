use raytracer::{Bounce, LightPath, Terminal};

fn run(max_depth: u32, bounces: &[Bounce]) -> (Terminal, usize) {
    let mut path = LightPath::new(max_depth);
    let mut used = 0;
    while path.needs_probe() {
        path.record(bounces[used]);
        used += 1;
    }
    (path.terminal(), used)
}

#[test]
fn no_budget_is_black_without_a_query() {
    let path = LightPath::new(0);
    assert!(!path.needs_probe());
    assert_eq!(path.terminal(), Terminal::Black);
}

#[test]
fn a_miss_shows_the_background() {
    assert_eq!(run(5, &[Bounce::Miss]), (Terminal::Background, 1));
}

#[test]
fn a_miss_after_scatters_shows_the_background() {
    let b = [Bounce::Scattered, Bounce::Scattered, Bounce::Miss];
    assert_eq!(run(5, &b), (Terminal::Background, 3));
}

#[test]
fn absorption_is_black() {
    let b = [Bounce::Scattered, Bounce::Absorbed];
    assert_eq!(run(5, &b), (Terminal::Black, 2));
}

#[test]
fn budget_bounds_the_queries() {
    let b = [Bounce::Scattered; 10];
    assert_eq!(run(3, &b), (Terminal::Black, 3));
    assert_eq!(run(1, &b), (Terminal::Black, 1));
}

#[test]
fn last_query_may_still_miss() {
    let b = [Bounce::Scattered, Bounce::Miss];
    assert_eq!(run(2, &b), (Terminal::Background, 2));
}
