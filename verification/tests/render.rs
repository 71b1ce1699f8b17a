use timetable::{Rendering, Timetable};

fn strings(items: &[&str]) -> Vec<String> {
    items.iter().map(|s| s.to_string()).collect()
}

#[test]
fn render_of_an_empty_timetable_is_no_timetable() {
    let timetable = Timetable::new();
    assert!(matches!(timetable.render(), Rendering::NoTimetable));
    assert_eq!(timetable.render().text(), "No timetable made!\n");
}

#[test]
fn render_of_days_without_periods_is_all_days_empty() {
    let mut timetable = Timetable::new();
    timetable.add_class("Math".to_string()).unwrap();
    timetable.add_period(0, 1, 1);
    assert!(timetable.remove_period(1, 1));
    assert!(matches!(timetable.render(), Rendering::AllDaysEmpty));
    assert_eq!(timetable.render().text(), "All days are empty!\n");
}

#[test]
fn render_shows_days_as_columns_and_periods_as_rows() {
    let mut timetable = Timetable::new();
    timetable.add_class("Math".to_string()).unwrap();
    timetable.add_class("Art".to_string()).unwrap();
    timetable.add_period(0, 0, 0);
    timetable.add_period(1, 0, 1);
    match timetable.render() {
        Rendering::Grid { header, rows } => {
            assert_eq!(header, strings(&["", "Day 0"]));
            assert_eq!(rows, vec![strings(&["Period 0", "Math"]), strings(&["Period 1", "Art"])]);
        },
        other => panic!("unexpected rendering {:?}", other),
    }
}

#[test]
fn render_covers_the_bounding_box_only() {
    let mut timetable = Timetable::new();
    timetable.add_class("Math".to_string()).unwrap();
    timetable.add_class("Art".to_string()).unwrap();
    timetable.add_period(0, 9, 3);
    timetable.add_period(1, 11, 5);
    timetable.add_period(7, 10, 4);
    match timetable.render() {
        Rendering::Grid { header, rows } => {
            assert_eq!(header, strings(&["", "Day 9", "Day 10", "Day 11"]));
            assert_eq!(
                rows,
                vec![
                    strings(&["Period 3", "Math", "", ""]),
                    strings(&["Period 4", "", "", ""]),
                    strings(&["Period 5", "", "", "Art"]),
                ]
            );
        },
        other => panic!("unexpected rendering {:?}", other),
    }
}

/// The text without its escape sequences.
fn plain(text: &str) -> String {
    let mut out = String::new();
    let mut chars = text.chars();
    while let Some(c) = chars.next() {
        if c == '\u{1b}' {
            for d in chars.by_ref() {
                if d == 'm' {
                    break;
                }
            }
        } else {
            out.push(c);
        }
    }
    out
}

#[test]
fn text_of_a_grid_is_drawn_as_a_table() {
    let mut timetable = Timetable::new();
    timetable.add_class("Math".to_string()).unwrap();
    timetable.add_class("Art".to_string()).unwrap();
    timetable.add_period(0, 0, 0);
    timetable.add_period(1, 0, 1);
    let text = timetable.render().text();
    let expected = "\
+----------+-------+
|          | Day 0 |
+----------+-------+
| Period 0 | Math  |
+----------+-------+
| Period 1 | Art   |
+----------+-------+
";
    assert_eq!(plain(&text), expected);
}

#[test]
fn text_of_a_grid_sets_the_labels_in_bold() {
    let mut timetable = Timetable::new();
    timetable.add_class("Math".to_string()).unwrap();
    timetable.add_class("Art".to_string()).unwrap();
    timetable.add_period(0, 0, 0);
    timetable.add_period(1, 0, 1);
    let text = timetable.render().text();
    let bold = "\u{1b}[1m";
    assert_eq!(text.matches(bold).count(), 3);
    assert!(text.contains("\u{1b}[1mDay 0\u{1b}[0m"));
    assert!(text.contains("\u{1b}[1mPeriod 0\u{1b}[0m"));
    assert!(text.contains("\u{1b}[1mPeriod 1\u{1b}[0m"));
    assert!(text.contains("\u{1b}[0mMath \u{1b}[0m"));
    assert!(text.contains("\u{1b}[0mArt  \u{1b}[0m"));
    let first_line = text.lines().next().unwrap();
    assert_eq!(
        first_line,
        "\u{1b}[0m+\u{1b}[0m\u{1b}[0m----------\u{1b}[0m\u{1b}[0m+\u{1b}[0m\u{1b}[0m-------\u{1b}[0m\u{1b}[0m+\u{1b}[0m"
    );
    let second_line = text.lines().nth(1).unwrap();
    assert_eq!(
        second_line,
        "\u{1b}[0m\u{1b}[0m|\u{1b}[0m\u{1b}[0m \u{1b}[0m\u{1b}[0m\u{1b}[0m        \u{1b}[0m \u{1b}[0m\u{1b}[0m|\u{1b}[0m\u{1b}[0m \u{1b}[0m\u{1b}[0m\u{1b}[0m\u{1b}[1mDay 0\u{1b}[0m \u{1b}[0m\u{1b}[0m|\u{1b}[0m"
    );
}

#[test]
fn text_from_passes_the_drawn_table_on() {
    let grid = Rendering::Grid { header: strings(&["", "Day 0"]), rows: Vec::new() };
    assert_eq!(grid.text_from(Some("drawn".to_string())), Some("drawn".to_string()));
    assert_eq!(grid.text_from(None), None);
    assert_eq!(
        Rendering::NoTimetable.text_from(Some("drawn".to_string())),
        Some("No timetable made!\n".to_string())
    );
    assert_eq!(
        Rendering::AllDaysEmpty.text_from(None),
        Some("All days are empty!\n".to_string())
    );
}

#[test]
fn text_of_a_wide_grid_pads_every_column() {
    let mut timetable = Timetable::new();
    timetable.add_class("Mathematics".to_string()).unwrap();
    timetable.add_period(0, 1, 0);
    timetable.add_period(0, 2, 1);
    let text = timetable.render().text();
    let expected = "\
+----------+-------------+-------------+
|          | Day 1       | Day 2       |
+----------+-------------+-------------+
| Period 0 | Mathematics |             |
+----------+-------------+-------------+
| Period 1 |             | Mathematics |
+----------+-------------+-------------+
";
    assert_eq!(plain(&text), expected);
}
