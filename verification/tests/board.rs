use bus_board::bus::fetch::Fetched;
use bus_board::bus::models::{
    Action, App, Event, KeyCode, KeyEvent, KeyEventKind, SchedulerState, INPUT_POLL_MS,
    REFRESH_INTERVAL_MS,
};
use bus_board::bus::snapshot::ArrivalSnapshot;
use bus_board::ui::widget::{
    line_label, render, render_linea_bus, LineView, PLACEHOLDER, TITLE, URGENT_MARKER,
};

fn ok(label: &str, value: &str) -> Fetched {
    Fetched::Reply {
        status: 200,
        body: format!(
            "<div class=\"arrival_times_results_row\">{} <span class=\"right\">{}</span></div>",
            label, value
        ),
    }
}

fn press(c: char) -> Option<Event> {
    Some(Event::Key(KeyEvent::new(KeyCode::Char(c))))
}

fn mock_app() -> App {
    let mut tiempos_mock = ArrivalSnapshot::new();
    tiempos_mock.insert("9".to_string(), "5 min".to_string());
    tiempos_mock.insert("7".to_string(), "12 min".to_string());
    tiempos_mock.insert("12".to_string(), "10 min".to_string());
    let mut app = App::default();
    app.apply_snapshot(tiempos_mock);
    app
}

fn contents(views: &[LineView]) -> String {
    views.iter().map(|view| format!("{} {}\n", view.label, view.value)).collect()
}

#[test]
fn models_test_handle_key_event_exit() {
    let mut app = App::default();

    let key = KeyEvent::new(KeyCode::Char('q'));

    app.handle_key_event(key);

    assert!(app.should_exit(), "La aplicación debería marcar exit como true al pulsar 'q'");
}

#[test]
fn main_test_handle_key_event_exit() {
    let mut app = App::default();

    let key = KeyEvent { code: KeyCode::Char('q'), kind: KeyEventKind::Press };

    app.handle_key_event(key);

    assert!(app.should_exit(), "La aplicación debería marcar exit como true al pulsar 'q'");
}

#[test]
fn main_test_render_bus_ui() {
    let app = mock_app();

    let contenido = contents(&render(&app));

    assert!(contenido.contains("Línea 9"), "No se encontró 'Línea 9' en el buffer");
    assert!(contenido.contains("5 min"), "No se encontró el tiempo '5 min'");
    assert!(contenido.contains("Línea 7"), "No se encontró 'Línea 7'");
    assert!(contenido.contains("12 min"), "No se encontró el tiempo '12 min'");
}

#[test]
fn widget_test_render_bus_ui() {
    let app = mock_app();

    let views = render(&app);

    let expected = vec![
        LineView { label: "Línea 9:".to_string(), value: "5 min".to_string(), urgent: false },
        LineView { label: "Línea 7:".to_string(), value: "12 min".to_string(), urgent: false },
        LineView { label: "Línea 12:".to_string(), value: "10 min".to_string(), urgent: false },
    ];
    assert_eq!(views, expected);
    let contenido = contents(&views);
    assert!(contenido.contains("Línea 9"), "No se encontró 'Línea 9' en el buffer");
    assert!(contenido.contains("5 min"), "No se encontró el tiempo '5 min'");
    assert!(contenido.contains("Línea 7"), "No se encontró 'Línea 7'");
    assert!(contenido.contains("12 min"), "No se encontró el tiempo '12 min'");
}

#[test]
fn a_new_board_is_empty_and_running() {
    let app = App::default();
    assert!(!app.should_exit());
    assert_eq!(app.state(), SchedulerState::Running);
    assert_eq!(app.current_snapshot().len(), 0);
}

#[test]
fn lines_not_polled_yet_show_the_placeholder() {
    let views = render(&App::default());
    assert_eq!(views.len(), 3);
    for (view, name) in views.iter().zip(["9", "7", "12"]) {
        assert_eq!(view.label, format!("Línea {}:", name));
        assert_eq!(view.value, PLACEHOLDER);
        assert!(!view.urgent);
    }
    assert_eq!(PLACEHOLDER, "…");
    assert_eq!(TITLE, " TIEMPOS DE LLEGADA EN PARADAS CERCANAS BUSES ");
}

#[test]
fn a_bus_arriving_now_is_urgent() {
    assert_eq!(URGENT_MARKER, "LLEGANDO");
    assert!(render_linea_bus("Línea 9:", "LLEGANDO ").urgent);
    assert!(render_linea_bus("Línea 9:", "LLEGANDO | 12 min ").urgent);
    assert!(render_linea_bus("Línea 9:", "5 min | LLEGANDO").urgent);
    assert!(!render_linea_bus("Línea 9:", "5 min | 12 min ").urgent);
    assert!(!render_linea_bus("LLEGANDO", "llegando").urgent);
    assert!(!render_linea_bus("Línea 9:", "LLEGAND0").urgent);
    assert!(!render_linea_bus("Línea 9:", "").urgent);
    let view = render_linea_bus("Línea 9:", "5 min ");
    assert_eq!(view.label, "Línea 9:");
    assert_eq!(view.value, "5 min ");
    assert_eq!(line_label("12"), "Línea 12:");
    assert_eq!(line_label(""), "Línea :");
}

#[test]
fn a_poll_replaces_the_snapshot_whole() {
    let mut app = App::default();
    app.update_bus_times(&vec![ok("Línea 9", "5 min"), ok("L7", "LLEGANDO"), Fetched::Unreachable]);
    let views = render(&app);
    assert_eq!(views[0].value, "5 min ");
    assert_eq!(views[1].value, "LLEGANDO ");
    assert_eq!(views[2].value, "Sin buses ");
    assert_eq!(
        views.iter().map(|view| view.urgent).collect::<Vec<bool>>(),
        vec![false, true, false]
    );
    app.update_bus_times(&vec![Fetched::Unreachable, ok("L7", "3 min"), ok("L12", "9 min")]);
    let views = render(&app);
    assert_eq!(views[0].value, "Sin buses ");
    assert_eq!(views[1].value, "3 min ");
    assert_eq!(views[2].value, "9 min ");
    assert!(!app.should_exit());
}

#[test]
fn polling_twice_with_the_same_replies_leaves_the_same_board() {
    let replies = vec![ok("Línea 9", "5 min"), Fetched::Unreachable, ok("L12", "LLEGANDO")];
    let mut app = mock_app();
    app.update_bus_times(&replies);
    let once = render(&app);
    app.update_bus_times(&replies);
    assert_eq!(render(&app), once);
    let mut fresh = App::default();
    fresh.update_bus_times(&replies);
    assert_eq!(render(&fresh), once);
}

#[test]
fn applying_a_snapshot_leaves_lines_behind_that_are_not_monitored() {
    let mut snapshot = ArrivalSnapshot::new();
    snapshot.insert("9".to_string(), "5 min".to_string());
    snapshot.insert("4".to_string(), "1 min".to_string());
    let mut app = mock_app();
    app.request_exit();
    app.apply_snapshot(snapshot);
    assert!(app.should_exit());
    assert_eq!(app.current_snapshot().len(), 1);
    assert_eq!(app.current_snapshot().get("9"), Some(&"5 min".to_string()));
    assert_eq!(app.current_snapshot().get("4"), None);
    assert_eq!(app.current_snapshot().get("7"), None);
}

#[test]
fn only_the_press_of_q_asks_to_leave() {
    for c in ['Q', 'p', ' ', '\u{1b}', 'c'] {
        let mut app = App::default();
        app.handle_key_event(KeyEvent::new(KeyCode::Char(c)));
        assert!(!app.should_exit());
    }
    let mut app = App::default();
    app.handle_key_event(KeyEvent::new(KeyCode::Other));
    assert!(!app.should_exit());
    for kind in [KeyEventKind::Release, KeyEventKind::Repeat] {
        app.handle_events(Event::Key(KeyEvent { code: KeyCode::Char('q'), kind }));
        assert!(!app.should_exit());
    }
    app.handle_events(Event::Other);
    assert!(!app.should_exit());
    app.handle_events(Event::Key(KeyEvent::new(KeyCode::Char('q'))));
    assert!(app.should_exit());
    assert_eq!(KeyEvent::new(KeyCode::Char('q')).kind, KeyEventKind::Press);
}

#[test]
fn the_quit_key_ends_the_loop_without_a_poll() {
    for elapsed_ms in [0, 99, 59_999, 60_000, 60_001, u64::MAX] {
        let mut app = mock_app();
        assert_eq!(app.state(), SchedulerState::Running);
        assert_eq!(app.run(press('q'), elapsed_ms), Action::Stop);
        assert_eq!(app.state(), SchedulerState::Exiting);
        assert!(app.should_exit());
        assert_eq!(render(&app), render(&mock_app()));
    }
}

#[test]
fn a_loop_that_is_leaving_stays_so() {
    let mut app = mock_app();
    app.request_exit();
    for event in [None, press('q'), press('x'), Some(Event::Other)] {
        for elapsed_ms in [0, 60_000, u64::MAX] {
            assert_eq!(app.run(event, elapsed_ms), Action::Stop);
            assert_eq!(app.state(), SchedulerState::Exiting);
        }
    }
    assert_eq!(render(&app), render(&mock_app()));
}

#[test]
fn a_poll_is_due_once_the_interval_has_passed() {
    assert_eq!(REFRESH_INTERVAL_MS, 60_000);
    assert_eq!(INPUT_POLL_MS, 100);
    let release = Some(Event::Key(KeyEvent { code: KeyCode::Char('q'), kind: KeyEventKind::Release }));
    for event in [None, press('x'), Some(Event::Other), release] {
        let mut app = App::default();
        assert_eq!(app.run(event, 0), Action::Redraw);
        assert_eq!(app.run(event, 100), Action::Redraw);
        assert_eq!(app.run(event, 59_999), Action::Redraw);
        assert_eq!(app.run(event, 60_000), Action::Poll);
        assert_eq!(app.run(event, 60_001), Action::Poll);
        assert_eq!(app.run(event, u64::MAX), Action::Poll);
        assert_eq!(app.state(), SchedulerState::Running);
    }
}
