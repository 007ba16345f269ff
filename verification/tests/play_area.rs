use plato::game::{calculate_play_area, PlayArea, SIMULATED_HEIGHT, SIMULATED_WIDTH};
use plato::math::{Rect, Vec2, PIXEL};

fn rect(x: i64, y: i64, w: i64, h: i64) -> Rect {
    Rect::new(Vec2::new(x, y), Vec2::new(w, h))
}

#[test]
fn square_window_is_letterboxed() {
    let area = PlayArea::calculate(1000 * PIXEL, 1000 * PIXEL);
    // 1000 wide, 562.5 high, 218.75 from the top
    assert_eq!(area.0.size.x, 1_000_000);
    assert_eq!(area.0.size.y, 562_500);
    assert_eq!(area.0.position.y, 218_750);
    assert_eq!(area.0, rect(0, 218_750, 1_000_000, 562_500));
}

#[test]
fn wide_window_is_pillarboxed() {
    let area = PlayArea::calculate(3200, 900);
    assert_eq!(area.0, rect(800, 0, 1600, 900));
}

#[test]
fn window_of_the_right_shape_is_filled() {
    let area = PlayArea::calculate(1920, 1080);
    assert_eq!(area.0, rect(0, 0, 1920, 1080));
    assert_eq!(calculate_play_area(1920, 1080), rect(0, 0, 1920, 1080));
    assert_eq!(calculate_play_area(1000, 1000), rect(0, 219, 1000, 562));
}

#[test]
fn extents_and_margins_round_down() {
    // 100 * 9 / 16 = 56.25; (100 - 56) / 2 = 22
    assert_eq!(PlayArea::calculate(100, 100).0, rect(0, 22, 100, 56));
    // 10 * 16 / 9 = 17.7; (101 - 17) / 2 = 42
    assert_eq!(PlayArea::calculate(101, 10).0, rect(42, 0, 17, 10));
    assert_eq!(PlayArea::calculate(0, 0).0, rect(0, 0, 0, 0));
    assert_eq!(PlayArea::calculate(0, 100).0, rect(0, 50, 0, 0));
    assert_eq!(PlayArea::calculate(100, 0).0, rect(50, 0, 0, 0));
}

#[test]
fn other_aspect_ratios() {
    assert_eq!(PlayArea::resolve(400, 400, 4, 3).0, rect(0, 50, 400, 300));
    assert_eq!(PlayArea::resolve(400, 100, 1, 1).0, rect(150, 0, 100, 100));
    assert_eq!(
        PlayArea::resolve(i64::MAX, i64::MAX, u32::MAX, 1).0,
        rect(0, 4611686017353646079, i64::MAX, 2147483648)
    );
}

#[test]
fn game_positions_are_projected_into_the_play_area() {
    let area = PlayArea::calculate(1000 * PIXEL, 1000 * PIXEL);
    assert_eq!(
        area.game_pos_to_screen_space(Vec2::new(0, 0)),
        Vec2::new(0, 218_750)
    );
    assert_eq!(
        area.game_pos_to_screen_space(Vec2::new(SIMULATED_WIDTH, SIMULATED_HEIGHT)),
        Vec2::new(1_000_000, 781_250)
    );
    assert_eq!(
        area.game_pos_to_screen_space(Vec2::new(SIMULATED_WIDTH / 2, SIMULATED_HEIGHT / 2)),
        Vec2::new(500_000, 500_000)
    );
    assert_eq!(
        area.simulated_pos_to_displayed_pos(Vec2::new(SIMULATED_WIDTH / 2, SIMULATED_HEIGHT / 2)),
        Vec2::new(500_000, 500_000)
    );
    assert_eq!(
        area.simulated_pos_to_displayed_pos(Vec2::new(64 * PIXEL, -192 * PIXEL)),
        Vec2::new(33_333, 118_750)
    );
}

#[test]
fn game_lengths_are_scaled_by_the_width() {
    let area = PlayArea(rect(10, 20, 960 * PIXEL, 1));
    assert_eq!(area.game_scale_to_screen_scale(200 * PIXEL), 100 * PIXEL);
    assert_eq!(area.simulated_size_to_displayed_size(50 * PIXEL), 25 * PIXEL);
    assert_eq!(area.game_scale_to_screen_scale(1), 0);
    assert_eq!(SIMULATED_WIDTH, 1_920_000);
    assert_eq!(SIMULATED_HEIGHT, 1_080_000);
}

#[test]
fn window_positions_are_projected_back_onto_the_field() {
    let area = PlayArea::calculate(1000 * PIXEL, 1000 * PIXEL);
    assert_eq!(
        area.screen_pos_to_game_space(Vec2::new(0, 218_750)),
        Some(Vec2::new(0, 0))
    );
    assert_eq!(
        area.screen_pos_to_game_space(Vec2::new(500_000, 500_000)),
        Some(Vec2::new(SIMULATED_WIDTH / 2, SIMULATED_HEIGHT / 2))
    );
    assert_eq!(
        area.screen_pos_to_game_space(Vec2::new(1_000_000, 0)),
        Some(Vec2::new(SIMULATED_WIDTH, -420_000))
    );
    assert_eq!(PlayArea::calculate(0, 100).screen_pos_to_game_space(Vec2::new(0, 0)), None);
}
