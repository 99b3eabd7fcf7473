use scene_stack::app::{Action, App, Shared};
use scene_stack::event::Event;
use scene_stack::scene::Scene;

type Canvas = Vec<String>;
type Update = fn(&Shared<u8>, Event) -> Result<bool, String>;
type Draw = fn(&Shared<u8>, &mut Canvas) -> Result<(), String>;

fn draw_base(_: &Shared<u8>, canvas: &mut Canvas) -> Result<(), String> {
    canvas.push("Base".to_string());
    Ok(())
}

fn draw_popup1(_: &Shared<u8>, canvas: &mut Canvas) -> Result<(), String> {
    canvas.push("Popup1".to_string());
    Ok(())
}

fn draw_popup2(_: &Shared<u8>, canvas: &mut Canvas) -> Result<(), String> {
    canvas.push("Popup2".to_string());
    Ok(())
}

fn draw_popup3(_: &Shared<u8>, canvas: &mut Canvas) -> Result<(), String> {
    canvas.push("Popup3".to_string());
    Ok(())
}

fn draw_error(_: &Shared<u8>, canvas: &mut Canvas) -> Result<(), String> {
    canvas.push("Error".to_string());
    Ok(())
}

fn draw_fails(_: &Shared<u8>, canvas: &mut Canvas) -> Result<(), String> {
    canvas.push("Broken".to_string());
    Err("cannot draw".to_string())
}

fn draw_counts(shared: &Shared<u8>, canvas: &mut Canvas) -> Result<(), String> {
    canvas.push(format!(
        "data: {}, ticks: {}, renders: {}",
        shared.data, shared.tick_count, shared.render_count
    ));
    Ok(())
}

fn new_app() -> App<u8, Update, Draw> {
    App::new(7, 50, 50, draw_base as Draw, None, draw_error as Draw)
}

fn scene(name: &str, transparent: bool, draw: Draw) -> Scene<Update, Draw> {
    Scene::new(name.to_string(), transparent, None, None, draw)
}

fn draws(app: &App<u8, Update, Draw>) -> Vec<u64> {
    app.scenes.iter().map(|s| s.draw_count).collect()
}

fn ticks(app: &App<u8, Update, Draw>) -> Vec<u64> {
    app.scenes.iter().map(|s| s.tick_count).collect()
}

fn strings(names: &[&str]) -> Vec<String> {
    names.iter().map(|n| n.to_string()).collect()
}

#[test]
fn render_draws_the_topmost_opaque_scene_and_what_is_above_it() {
    // [Base (opaque), Popup1 (transparent), Popup2 (opaque), Popup3 (transparent)]
    let mut app = new_app();
    app.push(scene("Popup1", true, draw_popup1));
    app.push(scene("Popup2", false, draw_popup2));
    app.push(scene("Popup3", true, draw_popup3));
    assert_eq!(app.span(), 2);
    assert_eq!(app.dispatch(Event::Render), Ok(Action::Render));
    let mut canvas: Canvas = Vec::new();
    assert_eq!(app.render(&mut canvas), Ok(()));
    assert_eq!(canvas, strings(&["Popup2", "Popup3"]));
    assert_eq!(draws(&app), vec![0, 0, 1, 1]);
    assert_eq!(app.shared.render_count, 1);
}

#[test]
fn render_draws_the_whole_stack_when_all_above_the_base_is_transparent() {
    let mut app = new_app();
    app.push(scene("Popup1", true, draw_popup1));
    app.push(scene("Popup3", true, draw_popup3));
    assert_eq!(app.span(), 0);
    let mut canvas: Canvas = Vec::new();
    assert_eq!(app.render(&mut canvas), Ok(()));
    assert_eq!(canvas, strings(&["Base", "Popup1", "Popup3"]));
    assert_eq!(draws(&app), vec![1, 1, 1]);
}

#[test]
fn render_draws_the_base_alone() {
    let mut app = new_app();
    assert_eq!(app.span(), 0);
    let mut canvas: Canvas = Vec::new();
    assert_eq!(app.render(&mut canvas), Ok(()));
    assert_eq!(canvas, strings(&["Base"]));
    assert_eq!(draws(&app), vec![1]);
}

#[test]
fn an_opaque_top_scene_hides_everything_else() {
    let mut app = new_app();
    app.push(scene("Popup1", true, draw_popup1));
    app.push(scene("Popup2", false, draw_popup2));
    assert_eq!(app.span(), 2);
    let mut canvas: Canvas = Vec::new();
    assert_eq!(app.render(&mut canvas), Ok(()));
    assert_eq!(canvas, strings(&["Popup2"]));
    assert_eq!(draws(&app), vec![0, 0, 1]);
}

#[test]
fn a_transparent_base_is_still_the_lowest_scene_drawn() {
    let mut app = new_app();
    app.scenes[0].transparent = true;
    app.push(scene("Popup1", true, draw_popup1));
    assert_eq!(app.span(), 0);
    let mut canvas: Canvas = Vec::new();
    assert_eq!(app.render(&mut canvas), Ok(()));
    assert_eq!(canvas, strings(&["Base", "Popup1"]));
}

#[test]
fn each_pass_counts_each_drawn_scene_once() {
    let mut app = new_app();
    app.push(scene("Popup2", false, draw_popup2));
    app.push(scene("Popup3", true, draw_popup3));
    let mut canvas: Canvas = Vec::new();
    for _ in 0..3 {
        assert_eq!(app.render(&mut canvas), Ok(()));
    }
    assert_eq!(draws(&app), vec![0, 3, 3]);
    assert_eq!(app.shared.render_count, 3);
    assert_eq!(
        canvas,
        strings(&["Popup2", "Popup3", "Popup2", "Popup3", "Popup2", "Popup3"])
    );
}

#[test]
fn render_and_resize_events_ask_for_a_pass_and_change_nothing() {
    let mut app = new_app();
    app.push(scene("Popup1", true, draw_popup1));
    assert_eq!(app.dispatch(Event::Tick), Ok(Action::Continue));
    assert_eq!(app.dispatch(Event::Render), Ok(Action::Render));
    assert_eq!(app.dispatch(Event::Resize(80, 24)), Ok(Action::Render));
    assert_eq!(draws(&app), vec![0, 0]);
    assert_eq!(ticks(&app), vec![1, 1]);
    assert_eq!(app.shared.render_count, 0);
    assert_eq!(app.shared.tick_count, 1);
    assert_eq!(app.scenes.len(), 2);
}

#[test]
fn resize_with_unchanged_dimensions_renders_and_ages_nothing() {
    let mut app = new_app();
    app.push(scene("Popup1", true, draw_popup1));
    assert_eq!(app.dispatch(Event::Tick), Ok(Action::Continue));
    assert_eq!(app.dispatch(Event::Tick), Ok(Action::Continue));
    let mut canvas: Canvas = Vec::new();
    for _ in 0..2 {
        assert_eq!(app.dispatch(Event::Resize(80, 24)), Ok(Action::Render));
        assert_eq!(app.render(&mut canvas), Ok(()));
        assert_eq!(ticks(&app), vec![2, 2]);
        assert_eq!(app.shared.tick_count, 2);
    }
    // Both passes drew the whole visible span.
    assert_eq!(canvas, strings(&["Base", "Popup1", "Base", "Popup1"]));
    assert_eq!(draws(&app), vec![2, 2]);
    assert_eq!(app.shared.render_count, 2);
}

#[test]
fn a_failing_draw_stops_the_pass() {
    let mut app = new_app();
    app.push(scene("Popup1", true, draw_popup1));
    app.push(scene("Broken", true, draw_fails));
    app.push(scene("Popup3", true, draw_popup3));
    let mut canvas: Canvas = Vec::new();
    assert_eq!(app.render(&mut canvas), Err("cannot draw".to_string()));
    assert_eq!(canvas, strings(&["Base", "Popup1", "Broken"]));
    // The scene that failed was counted, the one above it was not.
    assert_eq!(draws(&app), vec![1, 1, 1, 0]);
    assert_eq!(app.shared.render_count, 1);
}

#[test]
fn draw_routines_see_the_shared_state_of_the_pass() {
    let mut app: App<u8, Update, Draw> =
        App::new(7, 50, 50, draw_counts as Draw, None, draw_error as Draw);
    assert_eq!(app.dispatch(Event::Tick), Ok(Action::Continue));
    assert_eq!(app.dispatch(Event::Tick), Ok(Action::Continue));
    let mut canvas: Canvas = Vec::new();
    assert_eq!(app.render(&mut canvas), Ok(()));
    assert_eq!(app.render(&mut canvas), Ok(()));
    assert_eq!(
        canvas,
        strings(&["data: 7, ticks: 2, renders: 1", "data: 7, ticks: 2, renders: 2"])
    );
}

#[test]
fn the_error_notice_does_not_hide_the_scenes_beneath_it() {
    let mut app = new_app();
    assert_eq!(app.dispatch(Event::Error), Ok(Action::Continue));
    assert_eq!(app.span(), 0);
    let mut canvas: Canvas = Vec::new();
    assert_eq!(app.render(&mut canvas), Ok(()));
    assert_eq!(canvas, strings(&["Base", "Error"]));
}

#[test]
fn a_scene_that_is_done_is_drawn_until_the_next_tick() {
    let mut app = new_app();
    app.push(scene("Popup1", true, draw_popup1));
    app.scenes[1].done = true;
    let mut canvas: Canvas = Vec::new();
    assert_eq!(app.render(&mut canvas), Ok(()));
    assert_eq!(canvas, strings(&["Base", "Popup1"]));
    assert_eq!(app.dispatch(Event::Tick), Ok(Action::Continue));
    assert_eq!(app.render(&mut canvas), Ok(()));
    assert_eq!(canvas, strings(&["Base", "Popup1", "Base"]));
}
