use bus_board::bus::fetch::Fetched;
use bus_board::bus::snapshot::{configured_lines, poll_all, ArrivalSnapshot, LineSpec, PADDING};

fn page(rows: &[(&str, &str)]) -> String {
    let mut html = String::from("<html><body>");
    for (label, value) in rows {
        html.push_str(&format!(
            "<div class=\"arrival_times_results_row\">{} - Plaza <span class=\"right\">{}</span></div>",
            label, value
        ));
    }
    html.push_str("</body></html>");
    html
}

fn ok(rows: &[(&str, &str)]) -> Fetched {
    Fetched::Reply { status: 200, body: page(rows) }
}

fn text_of(snapshot: &ArrivalSnapshot, name: &str) -> Option<String> {
    snapshot.get(name).cloned()
}

#[test]
fn the_monitored_lines_are_nine_seven_and_twelve() {
    let lines = configured_lines();
    let expected = vec![
        LineSpec { display_name: "9".to_string(), source_ref: "191".to_string() },
        LineSpec { display_name: "7".to_string(), source_ref: "166".to_string() },
        LineSpec { display_name: "12".to_string(), source_ref: "132".to_string() },
    ];
    assert_eq!(lines, expected);
}

#[test]
fn every_line_gets_its_padded_text() {
    let replies = vec![
        ok(&[("Línea 9", "5 min"), ("L9", "12 min")]),
        ok(&[("Línea 7", "LLEGANDO")]),
        ok(&[]),
    ];
    let snapshot = poll_all(&configured_lines(), &replies);
    assert_eq!(snapshot.len(), 3);
    assert_eq!(text_of(&snapshot, "9"), Some("5 min | 12 min ".to_string()));
    assert_eq!(text_of(&snapshot, "7"), Some("LLEGANDO ".to_string()));
    assert_eq!(text_of(&snapshot, "12"), Some("Sin buses ".to_string()));
    assert_eq!(text_of(&snapshot, "1"), None);
    assert!(snapshot.contains_key("12"));
    assert!(!snapshot.contains_key("191"));
    assert_eq!(PADDING, " ");
}

#[test]
fn a_failed_line_shows_no_data_and_the_others_keep_theirs() {
    let good = [ok(&[("Línea 9", "5 min")]), ok(&[("L7", "8 min")]), ok(&[("L12", "2 min")])];
    let names = ["9", "7", "12"];
    let texts = ["5 min ", "8 min ", "2 min "];
    let failures = [
        Fetched::Unreachable,
        Fetched::Reply { status: 404, body: page(&[("Línea 9", "5 min"), ("L7", "8 min"), ("L12", "2 min")]) },
        Fetched::Reply { status: 500, body: String::new() },
    ];
    for failure in failures.iter() {
        for failed in 0..3 {
            let mut replies = good.to_vec();
            replies[failed] = failure.clone();
            let snapshot = poll_all(&configured_lines(), &replies);
            assert_eq!(snapshot.len(), 3);
            for line in 0..3 {
                let expected = if line == failed { "Sin buses " } else { texts[line] };
                assert_eq!(text_of(&snapshot, names[line]), Some(expected.to_string()));
            }
        }
    }
}

#[test]
fn a_line_without_reply_counts_as_not_reached() {
    let snapshot = poll_all(&configured_lines(), &vec![ok(&[("L9", "5 min")])]);
    assert_eq!(snapshot.len(), 3);
    assert_eq!(text_of(&snapshot, "9"), Some("5 min ".to_string()));
    assert_eq!(text_of(&snapshot, "7"), Some("Sin buses ".to_string()));
    assert_eq!(text_of(&snapshot, "12"), Some("Sin buses ".to_string()));
    let none = poll_all(&configured_lines(), &Vec::new());
    assert_eq!(text_of(&none, "9"), Some("Sin buses ".to_string()));
    let surplus = vec![ok(&[]), ok(&[]), ok(&[]), ok(&[("L9", "5 min")])];
    assert_eq!(poll_all(&configured_lines(), &surplus).len(), 3);
}

#[test]
fn polling_twice_with_the_same_pages_gives_the_same_snapshot() {
    let replies = vec![
        ok(&[("Línea 9", "5 min"), ("L9", "12 min")]),
        Fetched::Unreachable,
        ok(&[("L12", "LLEGANDO")]),
    ];
    let first = poll_all(&configured_lines(), &replies);
    let second = poll_all(&configured_lines(), &replies);
    assert_eq!(first.len(), second.len());
    for name in ["9", "7", "12", "1"] {
        assert_eq!(text_of(&first, name), text_of(&second, name));
    }
}

#[test]
fn no_lines_give_an_empty_snapshot() {
    let snapshot = poll_all(&Vec::new(), &vec![ok(&[("L9", "5 min")])]);
    assert_eq!(snapshot.len(), 0);
    assert_eq!(text_of(&snapshot, "9"), None);
}

#[test]
fn of_two_lines_with_one_name_the_later_decides() {
    let lines = vec![
        LineSpec { display_name: "9".to_string(), source_ref: "191".to_string() },
        LineSpec { display_name: "9".to_string(), source_ref: "192".to_string() },
    ];
    let replies = vec![ok(&[("L9", "5 min")]), ok(&[("L9", "7 min")])];
    let snapshot = poll_all(&lines, &replies);
    assert_eq!(snapshot.len(), 1);
    assert_eq!(text_of(&snapshot, "9"), Some("7 min ".to_string()));
}

#[test]
fn a_snapshot_keeps_the_last_text_set_for_a_line() {
    let mut snapshot = ArrivalSnapshot::new();
    assert_eq!(snapshot.len(), 0);
    assert!(!snapshot.contains_key("9"));
    snapshot.insert("9".to_string(), "5 min".to_string());
    snapshot.insert("7".to_string(), "12 min".to_string());
    snapshot.insert("9".to_string(), "6 min".to_string());
    assert_eq!(snapshot.len(), 2);
    assert_eq!(text_of(&snapshot, "9"), Some("6 min".to_string()));
    assert_eq!(text_of(&snapshot, "7"), Some("12 min".to_string()));
    assert_eq!(text_of(&snapshot, "12"), None);
}
