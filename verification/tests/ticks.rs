use scene_stack::app::{Action, App, Shared};
use scene_stack::event::{Event, KeyCode, KeyEvent, KeyModifiers};
use scene_stack::scene::Scene;

type Canvas = Vec<String>;
type Update = fn(&Shared<()>, Event) -> Result<bool, String>;
type Draw = fn(&Shared<()>, &mut Canvas) -> Result<(), String>;

fn draw_nothing(_: &Shared<()>, _: &mut Canvas) -> Result<(), String> {
    Ok(())
}

fn dismiss(_: &Shared<()>, _: Event) -> Result<bool, String> {
    Ok(true)
}

fn stay(_: &Shared<()>, _: Event) -> Result<bool, String> {
    Ok(false)
}

fn new_app() -> App<(), Update, Draw> {
    App::new((), 50, 50, draw_nothing as Draw, None, draw_nothing as Draw)
}

fn key(c: char) -> Event {
    Event::Key(KeyEvent::new(KeyCode::Char(c), KeyModifiers::none()))
}

fn names(app: &App<(), Update, Draw>) -> Vec<String> {
    app.scenes.iter().map(|s| s.name.clone()).collect()
}

fn ticks(app: &App<(), Update, Draw>) -> Vec<u64> {
    app.scenes.iter().map(|s| s.tick_count).collect()
}

#[test]
fn a_tick_ages_every_scene_in_the_stack() {
    let mut app = new_app();
    app.push(Scene::overlay("one".to_string(), true, stay as Update, draw_nothing as Draw));
    app.push(Scene::new("two".to_string(), false, None, None, draw_nothing as Draw));
    assert_eq!(ticks(&app), vec![0, 0, 0]);
    assert_eq!(app.dispatch(Event::Tick), Ok(Action::Continue));
    assert_eq!(ticks(&app), vec![1, 1, 1]);
    assert_eq!(app.shared.tick_count, 1);
    assert_eq!(app.dispatch(Event::Tick), Ok(Action::Continue));
    assert_eq!(app.dispatch(Event::Tick), Ok(Action::Continue));
    assert_eq!(ticks(&app), vec![3, 3, 3]);
    assert_eq!(app.shared.tick_count, 3);
    assert_eq!(names(&app), vec!["base".to_string(), "one".to_string(), "two".to_string()]);
}

#[test]
fn a_scene_pushed_later_is_younger() {
    let mut app = new_app();
    assert_eq!(app.dispatch(Event::Tick), Ok(Action::Continue));
    assert_eq!(app.dispatch(Event::Tick), Ok(Action::Continue));
    app.push(Scene::overlay("late".to_string(), true, stay as Update, draw_nothing as Draw));
    assert_eq!(app.dispatch(Event::Tick), Ok(Action::Continue));
    assert_eq!(ticks(&app), vec![3, 1]);
    assert_eq!(app.shared.tick_count, 3);
}

#[test]
fn only_ticks_age_the_scenes() {
    let mut app = new_app();
    app.push(Scene::overlay("one".to_string(), true, stay as Update, draw_nothing as Draw));
    assert_eq!(app.dispatch(Event::Tick), Ok(Action::Continue));
    assert_eq!(app.dispatch(key('x')), Ok(Action::Continue));
    assert_eq!(app.dispatch(Event::Render), Ok(Action::Render));
    assert_eq!(app.dispatch(Event::Resize(10, 10)), Ok(Action::Render));
    assert_eq!(app.dispatch(Event::Paste("p".to_string())), Ok(Action::Continue));
    assert_eq!(app.dispatch(Event::Error), Ok(Action::Continue));
    assert_eq!(ticks(&app), vec![1, 1, 0]);
    assert_eq!(app.shared.tick_count, 1);
}

#[test]
fn a_timed_scene_leaves_at_the_tick_that_reaches_its_ceiling() {
    let mut app = new_app();
    app.push(Scene::timed("flash".to_string(), true, 3, draw_nothing as Draw));
    assert_eq!(app.dispatch(Event::Tick), Ok(Action::Continue));
    assert_eq!(app.dispatch(Event::Tick), Ok(Action::Continue));
    assert_eq!(names(&app), vec!["base".to_string(), "flash".to_string()]);
    assert_eq!(ticks(&app), vec![2, 2]);
    assert!(!app.scenes[1].done);
    assert_eq!(app.dispatch(Event::Tick), Ok(Action::Continue));
    assert_eq!(names(&app), vec!["base".to_string()]);
    assert_eq!(ticks(&app), vec![3]);
}

#[test]
fn a_ceiling_of_one_or_zero_removes_the_scene_at_the_first_tick() {
    let mut app = new_app();
    app.push(Scene::timed("one".to_string(), true, 1, draw_nothing as Draw));
    app.push(Scene::timed("zero".to_string(), true, 0, draw_nothing as Draw));
    app.push(Scene::timed("two".to_string(), true, 2, draw_nothing as Draw));
    assert_eq!(app.dispatch(Event::Tick), Ok(Action::Continue));
    assert_eq!(names(&app), vec!["base".to_string(), "two".to_string()]);
    assert_eq!(app.dispatch(Event::Tick), Ok(Action::Continue));
    assert_eq!(names(&app), vec!["base".to_string()]);
}

#[test]
fn a_timed_scene_cannot_be_dismissed_by_input() {
    let mut app = new_app();
    app.push(Scene::timed("flash".to_string(), true, 2, draw_nothing as Draw));
    assert_eq!(app.route(), None);
    assert_eq!(app.dispatch(key('x')), Ok(Action::Continue));
    assert!(!app.scenes[1].done);
    assert_eq!(app.dispatch(Event::Tick), Ok(Action::Continue));
    assert_eq!(app.scenes.len(), 2);
}

#[test]
fn an_interactive_timed_scene_leaves_by_whichever_comes_first() {
    // Dismissed by input before the ceiling.
    let mut app = new_app();
    app.push(Scene::timed_overlay("t".to_string(), true, 5, dismiss as Update, draw_nothing as Draw));
    assert_eq!(app.dispatch(Event::Tick), Ok(Action::Continue));
    assert_eq!(app.dispatch(key('x')), Ok(Action::Continue));
    assert!(app.scenes[1].done);
    assert_eq!(app.dispatch(Event::Tick), Ok(Action::Continue));
    assert_eq!(names(&app), vec!["base".to_string()]);

    // Removed by the ceiling without any input.
    let mut app = new_app();
    app.push(Scene::timed_overlay("t".to_string(), true, 2, dismiss as Update, draw_nothing as Draw));
    assert_eq!(app.dispatch(Event::Tick), Ok(Action::Continue));
    assert_eq!(app.scenes.len(), 2);
    assert_eq!(app.dispatch(Event::Tick), Ok(Action::Continue));
    assert_eq!(names(&app), vec!["base".to_string()]);
}

#[test]
fn compaction_keeps_the_order_of_the_survivors() {
    let mut app = new_app();
    app.push(Scene::timed("a".to_string(), true, 1, draw_nothing as Draw));
    app.push(Scene::overlay("b".to_string(), true, stay as Update, draw_nothing as Draw));
    app.push(Scene::timed("c".to_string(), true, 1, draw_nothing as Draw));
    app.push(Scene::new("d".to_string(), false, None, None, draw_nothing as Draw));
    app.push(Scene::overlay("e".to_string(), true, dismiss as Update, draw_nothing as Draw));
    app.push(Scene::timed("f".to_string(), true, 9, draw_nothing as Draw));
    // The key goes to e, which is done from then on.
    assert_eq!(app.dispatch(key('x')), Ok(Action::Continue));
    assert!(app.scenes[5].done);
    assert_eq!(app.scenes.len(), 7);
    assert_eq!(app.dispatch(Event::Tick), Ok(Action::Continue));
    assert_eq!(
        names(&app),
        vec!["base".to_string(), "b".to_string(), "d".to_string(), "f".to_string()]
    );
    assert_eq!(ticks(&app), vec![1, 1, 1, 1]);
    assert!(app.scenes.iter().all(|s| !s.done));
}

#[test]
fn no_scene_is_done_after_a_tick() {
    let mut app = new_app();
    app.push(Scene::overlay("x".to_string(), true, dismiss as Update, draw_nothing as Draw));
    app.push(Scene::timed("y".to_string(), true, 1, draw_nothing as Draw));
    assert_eq!(app.dispatch(key('k')), Ok(Action::Continue));
    assert_eq!(app.dispatch(Event::Tick), Ok(Action::Continue));
    assert_eq!(names(&app), vec!["base".to_string()]);
    assert!(!app.scenes[0].done);
}

#[test]
fn the_base_is_never_removed() {
    let mut app = new_app();
    for _ in 0..100 {
        assert_eq!(app.dispatch(Event::Tick), Ok(Action::Continue));
        assert_eq!(app.dispatch(key('q')), Ok(Action::Continue));
    }
    assert_eq!(names(&app), vec!["base".to_string()]);
    assert_eq!(ticks(&app), vec![100]);
    assert!(!app.scenes[0].done);
    assert!(app.scenes[0].update.is_none());
    assert_eq!(app.scenes[0].max_tick_count, None);
}

#[test]
fn tick_alone_does_what_the_tick_event_does() {
    let mut app = new_app();
    app.push(Scene::timed("a".to_string(), true, 1, draw_nothing as Draw));
    app.tick();
    assert_eq!(app.shared.tick_count, 1);
    assert_eq!(names(&app), vec!["base".to_string()]);
}

#[test]
fn error_event_puts_a_notice_on_the_stack() {
    let mut app = new_app();
    assert_eq!(app.dispatch(Event::Error), Ok(Action::Continue));
    assert_eq!(names(&app), vec!["base".to_string(), "error".to_string()]);
    let notice = &app.scenes[1];
    assert!(notice.transparent);
    assert!(!notice.done);
    assert_eq!(notice.tick_count, 0);
    assert_eq!(notice.draw_count, 0);
    assert_eq!(notice.max_tick_count, None);
    // No routine was given for the notice, so it is permanent.
    assert!(notice.update.is_none());
    assert_eq!(app.dispatch(key('x')), Ok(Action::Continue));
    assert_eq!(app.dispatch(Event::Tick), Ok(Action::Continue));
    assert_eq!(names(&app), vec!["base".to_string(), "error".to_string()]);
}

#[test]
fn every_error_event_adds_one_notice() {
    let mut app = new_app();
    app.notify();
    assert_eq!(app.dispatch(Event::Error), Ok(Action::Continue));
    assert_eq!(
        names(&app),
        vec!["base".to_string(), "error".to_string(), "error".to_string()]
    );
}
