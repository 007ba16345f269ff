use plato::app::Application;
use plato::app_state::AppState;
use plato::math::{Rect, Vec2, PIXEL};
use plato::title_menu::initialize_main_menu_entities;
use plato::title_menu::layout::WINDOW_LIMIT;
use plato::ui::button::UIState;
use plato::ui::layout::LayoutError;
use plato::ui::{spawn_button, Label, UISize, World, BUTTON_WIDTH};

const WIDTH: i64 = 800 * PIXEL;
const HEIGHT: i64 = 600 * PIXEL;

fn rect(x: i64, y: i64, w: i64, h: i64) -> Rect {
    Rect::new(Vec2::new(x, y), Vec2::new(w, h))
}

#[test]
fn test_smoke() {
    let mut app = Application::new();

    assert!(app.keep_running);
    for _ in 0..100 {
        app.tick(WIDTH, HEIGHT).unwrap();
    }
    assert!(app.keep_running);
}

#[test]
fn test_quit_game() {
    let mut app = Application::new();
    app.tick(WIDTH, HEIGHT).unwrap();
    let quit_rect_opt = app.find_text_rect("Quit");
    if let Some(quit_rect) = quit_rect_opt {
        for _ in 0..10 {
            app.tick(WIDTH, HEIGHT).unwrap();
        }
        let running_at_start = app.keep_running;
        app.click_pos(Vec2::new(quit_rect.x(), quit_rect.y()));

        for _ in 0..10 {
            app.tick(WIDTH, HEIGHT).unwrap();
        }
        let running_at_end = app.keep_running;

        assert!(running_at_start);
        assert!(!running_at_end);
    } else {
        assert!(false, "Expect to find a button labeled quit on main menu.");
    }
}

#[test]
fn main_menu_has_ten_entities() {
    let mut world = World::new();
    world.push(plato::ui::Components::none());
    initialize_main_menu_entities(&mut world);
    assert_eq!(world.len(), 11);
    let title = world.entities[1].label.as_ref().unwrap();
    assert_eq!(title.text, "Transcendent Table Tennis");
    assert_eq!(title.font_size, 32);
    assert!(matches!(world.entities[1].size, Some(UISize::Grow(1))));
    assert_eq!(world.entities[4].text.as_ref().unwrap().0, "Play Online");
    assert!(world.entities[4].quit.is_none());
    assert_eq!(world.entities[5].text.as_ref().unwrap().0, "Quit");
    assert!(world.entities[5].quit.is_some());
    assert_eq!(
        world.entities[7].container.as_ref().unwrap().children,
        vec![3, 4, 5, 6]
    );
    assert!(matches!(world.entities[7].size, Some(UISize::Grow(2))));
    assert_eq!(
        world.entities[9].container.as_ref().unwrap().children,
        vec![2, 7, 8]
    );
    assert!(matches!(world.entities[9].size, Some(UISize::Grow(9))));
    let root = &world.entities[10];
    assert!(root.root.is_some());
    assert_eq!(root.container.as_ref().unwrap().children, vec![1, 9]);
    assert_eq!(root.rect, Some(rect(0, 0, 0, 0)));
    assert!(root.size.is_none());
}

#[test]
fn main_menu_layout() {
    let mut app = Application::new();
    assert_eq!(app.find_text_rect("Quit"), None);
    app.tick(WIDTH, HEIGHT).unwrap();
    let e = &app.world.entities;
    assert_eq!(e[9].rect, Some(rect(0, 0, 800_000, 600_000)));
    assert_eq!(e[0].rect, Some(rect(4000, 4000, 792_000, 58_800)));
    assert_eq!(e[8].rect, Some(rect(4000, 66_800, 792_000, 529_200)));
    assert_eq!(e[1].rect, Some(rect(8000, 70_800, 784_000, 102_640)));
    assert_eq!(e[6].rect, Some(rect(8000, 177_440, 784_000, 205_280)));
    assert_eq!(e[7].rect, Some(rect(8000, 386_720, 784_000, 205_280)));
    assert_eq!(e[2].rect, Some(rect(12_000, 181_440, 776_000, 46_320)));
    assert_eq!(e[3].rect, Some(rect(272_000, 231_760, 256_000, 46_320)));
    assert_eq!(e[4].rect, Some(rect(272_000, 282_080, 256_000, 46_320)));
    assert_eq!(e[5].rect, Some(rect(12_000, 332_400, 776_000, 46_320)));
    assert_eq!(
        app.find_text_rect("Quit"),
        Some(rect(272_000, 282_080, 256_000, 46_320))
    );
    assert_eq!(
        app.find_text_rect("Play Online"),
        Some(rect(272_000, 231_760, 256_000, 46_320))
    );
    assert_eq!(app.find_text_rect("Play"), None);
}

#[test]
fn layout_follows_the_window() {
    let mut app = Application::new();
    app.tick(WIDTH, HEIGHT).unwrap();
    app.tick(200 * PIXEL, 100 * PIXEL).unwrap();
    assert_eq!(app.world.entities[9].rect, Some(rect(0, 0, 200_000, 100_000)));
    // The buttons are as wide as the narrow section lets them be.
    assert_eq!(app.world.entities[4].rect.unwrap().size.x, 176_000);
    assert_eq!(app.world.entities[4].rect.unwrap().position.x, 12_000);
}

#[test]
fn buttons_follow_the_pointer() {
    let mut app = Application::new();
    app.tick(WIDTH, HEIGHT).unwrap();
    app.handle_window_input(Vec2::new(300_000, 240_000), false, false, false);
    app.tick(WIDTH, HEIGHT).unwrap();
    assert_eq!(app.world.entities[3].button.unwrap().state, UIState::Hover);
    assert_eq!(app.world.entities[3].button.unwrap().transition, 1);
    assert_eq!(app.world.entities[4].button.unwrap().state, UIState::Normal);
    // Press the play button: pressed, and nothing quits.
    app.handle_window_input(Vec2::new(300_000, 240_000), true, false, false);
    app.tick(WIDTH, HEIGHT).unwrap();
    assert_eq!(app.world.entities[3].button.unwrap().state, UIState::Click);
    assert_eq!(app.world.entities[3].button.unwrap().click_pos, Vec2::new(300_000, 240_000));
    assert_eq!(app.app_state, AppState::MainMenu);
    // Drag onto the quit button while held: the play button stays pressed,
    // the quit button is only hovered, and nothing quits.
    app.handle_window_input(Vec2::new(300_000, 290_000), true, false, false);
    app.tick(WIDTH, HEIGHT).unwrap();
    assert_eq!(app.world.entities[3].button.unwrap().state, UIState::Click);
    assert_eq!(app.world.entities[4].button.unwrap().state, UIState::Hover);
    assert_eq!(app.app_state, AppState::MainMenu);
    assert!(app.keep_running);
    // Release and press again on the quit button.
    app.handle_window_input(Vec2::new(300_000, 290_000), false, false, false);
    app.tick(WIDTH, HEIGHT).unwrap();
    app.handle_window_input(Vec2::new(300_000, 290_000), true, false, false);
    app.tick(WIDTH, HEIGHT).unwrap();
    assert_eq!(app.app_state, AppState::Quit);
    assert!(app.keep_running);
    app.tick(WIDTH, HEIGHT).unwrap();
    assert!(!app.keep_running);
}

#[test]
fn a_malformed_tree_ends_the_frame() {
    let mut app = Application::new();
    app.world.entities[8].container.as_mut().unwrap().add_child(77);
    app.click_pos(Vec2::new(1, 1));
    assert_eq!(app.tick(WIDTH, HEIGHT), Err(LayoutError::MissingChild(77)));
    // The root was sized, nothing was laid out, the input was left alone.
    assert_eq!(app.world.entities[9].rect, Some(rect(0, 0, 800_000, 600_000)));
    assert_eq!(app.world.entities[0].rect, None);
    assert!(app.mouse_buttons.is_just_pressed(plato::input::MouseButton::Left));
    assert!(app.keep_running);
}

#[test]
fn an_empty_application_runs() {
    let mut app = Application::empty();
    assert_eq!(app.world.len(), 0);
    assert_eq!(app.app_state, AppState::MainMenu);
    assert_eq!(app.mouse_position.0, Vec2::new(0, 0));
    assert!(app.keep_running);
    assert_eq!(app.tick(WIDTH, HEIGHT), Ok(()));
    assert_eq!(app.find_text_rect("Quit"), None);
}

#[test]
fn spawned_buttons_grow_and_are_capped() {
    let mut world = World::new();
    let b = spawn_button(&mut world, "Play");
    assert_eq!(b, 0);
    let c = &world.entities[b];
    assert!(matches!(c.size, Some(UISize::Grow(1))));
    assert_eq!(c.constraint.unwrap().width, Some(BUTTON_WIDTH));
    assert_eq!(BUTTON_WIDTH, 256_000);
    assert_eq!(c.button.unwrap().state, UIState::Normal);
    assert_eq!(c.text.as_ref().unwrap().0, "Play");
    assert!(c.rect.is_none());
    let label = Label::new("Title".to_string(), 32);
    assert_eq!(label.text, "Title");
    assert_eq!(label.font_size, 32);
}

#[test]
fn main_menu_lays_out_in_every_window() {
    for (width, height) in [
        (0, 0),
        (1, 1),
        (7 * PIXEL, 11 * PIXEL),
        (WINDOW_LIMIT, 0),
        (0, WINDOW_LIMIT),
        (WINDOW_LIMIT, WINDOW_LIMIT),
    ] {
        let mut app = Application::new();
        assert_eq!(app.tick(width, height), Ok(()));
        assert_eq!(app.tick(width, height), Ok(()));
        assert_eq!(app.world.entities[9].rect, Some(rect(0, 0, width, height)));
    }
    // A window without any height: the units are negative, the layout stands.
    let mut app = Application::new();
    app.tick(100 * PIXEL, 0).unwrap();
    assert_eq!(app.world.entities[0].rect, Some(rect(4000, 4000, 92_000, -1200)));
    assert_eq!(app.world.entities[8].rect, Some(rect(4000, 6800, 92_000, -10_800)));
}
