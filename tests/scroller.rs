use jump_game::object::{OBSTACLE_HEIGHT, OBSTACLE_WIDTH};
use jump_game::scroller::{SPACING_MAX, SPACING_MIN, START_SPEED, UNITS_PER_PIXEL};
use jump_game::{App, Object};

fn obstacle_at(pos_x: i32) -> Object {
    Object { width: 10, height: 20, pos_x, pos_y: 0 }
}

fn app_with(obstacles: Vec<Object>, speed: u64) -> App {
    App { obstacles, pending_offset: 0, speed, viewport_width: 800, viewport_height: 450 }
}

#[test]
fn object_new_has_standard_size() {
    let o = Object::new();
    assert_eq!(o, Object { width: 10, height: 20, pos_x: 0, pos_y: 0 });
    assert_eq!((OBSTACLE_WIDTH, OBSTACLE_HEIGHT), (10, 20));
}

#[test]
fn move_by_px_x_shifts_only_x() {
    let mut o = obstacle_at(5);
    o.move_by_px_x(-12);
    assert_eq!(o, Object { width: 10, height: 20, pos_x: -7, pos_y: 0 });
    o.move_by_px_x(30);
    assert_eq!(o.pos_x, 23);
}

#[test]
fn draw_coordinates_are_corners() {
    let o = Object { width: 10, height: 20, pos_x: -3, pos_y: 280 };
    assert_eq!(o.get_draw_coordinates(), (-3, 280, 7, 300));
}

#[test]
fn new_app_is_empty_at_start_speed() {
    let a = App::new();
    assert!(a.obstacles.is_empty());
    assert_eq!(a.pending_offset, 0);
    assert_eq!(a.speed, START_SPEED);
    assert_eq!(a.speed, 200_000);
}

#[test]
fn first_tick_spawns_one_obstacle() {
    let mut a = App::new();
    a.tick(0, 800, 450);
    assert_eq!(a.obstacles.len(), 1);
    let o = a.obstacles[0];
    assert_eq!((o.width, o.height, o.pos_y), (10, 20, 280));
    assert!(o.pos_x >= 815 && o.pos_x < 1090);
    assert_eq!((a.viewport_width, a.viewport_height), (800, 450));
}

#[test]
fn tick_with_fixed_offset_is_exact() {
    let mut a = App::new();
    a.tick_with(0, 800, 450, 25);
    assert_eq!(a.obstacles, vec![Object { width: 10, height: 20, pos_x: 815, pos_y: 280 }]);
    assert_eq!(a.speed, 200_001);
    a.tick_with(0, 800, 450, 299);
    assert_eq!(a.obstacles.len(), 1);
}

#[test]
fn advance_then_cull_removes_scrolled_obstacle() {
    // 100 px/s for 0.1 s moves the course by 10 pixels.
    let mut a = app_with(vec![obstacle_at(5)], 100_000);
    a.advance(100_000);
    assert_eq!(a.obstacles[0].pos_x, -5);
    assert_eq!(a.pending_offset, 0);
    a.cull();
    assert!(a.obstacles.is_empty());
}

#[test]
fn advance_keeps_sub_pixel_rest() {
    // 200 px/s for 7.5 ms is 1.5 pixels: one pixel now, half a pixel carried.
    let mut a = app_with(vec![obstacle_at(100), obstacle_at(300)], 200_000);
    a.advance(7_500);
    assert_eq!(a.obstacles[0].pos_x, 99);
    assert_eq!(a.obstacles[1].pos_x, 299);
    assert_eq!(a.pending_offset, UNITS_PER_PIXEL / 2);
    a.advance(7_500);
    assert_eq!(a.obstacles[0].pos_x, 97);
    assert_eq!(a.pending_offset, 0);
}

#[test]
fn advance_by_zero_changes_nothing() {
    let mut a = app_with(vec![obstacle_at(42)], 200_000);
    a.advance(0);
    assert_eq!(a.obstacles[0].pos_x, 42);
    assert_eq!(a.pending_offset, 0);
}

#[test]
fn advance_stops_at_least_i32() {
    let mut a = app_with(vec![obstacle_at(i32::MIN + 3)], u64::MAX);
    a.advance(u64::MAX);
    assert_eq!(a.obstacles[0].pos_x, i32::MIN);
    assert!(a.pending_offset < UNITS_PER_PIXEL);
}

#[test]
fn scroll_is_conserved_over_many_ticks() {
    // 1000 ticks of 1 ms at 123.456 px/s: 123 whole pixels in all.
    let mut a = app_with(vec![obstacle_at(1_000)], 123_456);
    for _ in 0..1000 {
        a.advance(1_000);
    }
    assert_eq!(a.obstacles[0].pos_x, 1_000 - 123);
    assert_eq!(a.pending_offset, 456_000_000);
}

#[test]
fn cull_removes_minus_one_keeps_zero() {
    let mut a = app_with(vec![obstacle_at(-1), obstacle_at(50)], 0);
    a.cull();
    assert_eq!(a.obstacles, vec![obstacle_at(50)]);

    let mut b = app_with(vec![obstacle_at(0), obstacle_at(50)], 0);
    b.cull();
    assert_eq!(b.obstacles, vec![obstacle_at(0), obstacle_at(50)]);
}

#[test]
fn cull_removes_at_most_one() {
    let mut a = app_with(vec![obstacle_at(-9), obstacle_at(-4)], 0);
    a.cull();
    assert_eq!(a.obstacles, vec![obstacle_at(-4)]);
    let mut e = app_with(vec![], 0);
    e.cull();
    assert!(e.obstacles.is_empty());
}

#[test]
fn spawn_on_empty_for_any_viewport() {
    for &(w, h) in &[(0u32, 0u32), (1, 1), (800, 450), (1280, 720)] {
        let mut a = app_with(vec![], 0);
        a.maybe_spawn(w, h);
        assert_eq!(a.obstacles.len(), 1);
    }
}

#[test]
fn spawn_in_zero_viewport_leans_left() {
    let mut a = app_with(vec![], 0);
    a.maybe_spawn_with(0, 0, 25);
    assert_eq!(a.obstacles, vec![Object { width: 10, height: 20, pos_x: 15, pos_y: -20 }]);
}

#[test]
fn spawn_suppressed_while_newest_is_right_of_edge() {
    let mut a = app_with(vec![obstacle_at(10), obstacle_at(800)], 0);
    a.maybe_spawn(800, 450);
    assert_eq!(a.obstacles, vec![obstacle_at(10), obstacle_at(800)]);
}

#[test]
fn spawn_appends_after_newest_crosses_edge() {
    let mut a = app_with(vec![obstacle_at(10), obstacle_at(799)], 0);
    a.maybe_spawn_with(800, 450, 100);
    assert_eq!(a.obstacles.len(), 3);
    assert_eq!(a.obstacles[0], obstacle_at(10));
    assert_eq!(a.obstacles[1], obstacle_at(799));
    assert_eq!(a.obstacles[2], Object { width: 10, height: 20, pos_x: 890, pos_y: 280 });
}

#[test]
fn spawn_order_is_kept_over_ticks() {
    let mut a = App::new();
    let mut spawns = 0;
    for _ in 0..2000 {
        let before = a.obstacles.clone();
        a.tick(10_000, 800, 450);
        let newest = a.obstacles.last().unwrap().pos_x;
        let spawned = before.last().map_or(true, |b| newest > b.pos_x);
        if spawned {
            spawns += 1;
        }
        let kept = &a.obstacles[..a.obstacles.len() - spawned as usize];
        let dropped = before.len() - kept.len();
        assert!(dropped <= 1);
        if let Some(first) = kept.first() {
            let d = before[dropped].pos_x - first.pos_x;
            assert!(d >= 0);
            for k in 0..kept.len() {
                assert_eq!(kept[k].pos_x, before[k + dropped].pos_x - d);
            }
        }
        for k in 1..a.obstacles.len() {
            assert!(a.obstacles[k - 1].pos_x < a.obstacles[k].pos_x);
        }
    }
    assert!(spawns > 1);
}

#[test]
fn speed_grows_each_tick() {
    let mut a = App::new();
    for _ in 0..5 {
        a.tick(0, 800, 450);
    }
    assert_eq!(a.speed, START_SPEED + 5);
    let mut m = app_with(vec![], u64::MAX);
    m.tick_with(0, 800, 450, 25);
    assert_eq!(m.speed, u64::MAX);
}

#[test]
fn render_records_size_and_culls() {
    let mut a = app_with(vec![obstacle_at(-1)], 0);
    a.render(1280, 720);
    assert_eq!((a.viewport_width, a.viewport_height), (1280, 720));
    assert!(a.obstacles.is_empty());
}

#[test]
fn update_advances_and_spawns_in_recorded_viewport() {
    let mut a = app_with(vec![obstacle_at(805)], 100_000);
    a.update(100_000);
    assert_eq!(a.obstacles.len(), 2);
    assert_eq!(a.obstacles[0].pos_x, 795);
    let o = a.obstacles[1];
    assert!(o.pos_x >= 790 + SPACING_MIN as i32 && o.pos_x < 790 + SPACING_MAX as i32);
    assert_eq!(o.pos_y, 280);
    assert_eq!(a.speed, 100_001);
}

#[test]
fn viewport_fit_bounds() {
    assert!(App::fits_viewport(0, 0));
    assert!(App::fits_viewport(800, 450));
    assert!(App::fits_viewport(i32::MAX as u32 - 289, 0));
    assert!(!App::fits_viewport(i32::MAX as u32 - 288, 0));
    assert!(!App::fits_viewport(0, u32::MAX));
}
