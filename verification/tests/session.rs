use timetable::{mass_add, step, Notice, SessionState, Timetable};

fn sample() -> Timetable {
    let mut timetable = Timetable::new();
    timetable.add_class("Math".to_string()).unwrap();
    timetable.add_class("Art".to_string()).unwrap();
    timetable
}

fn lines(items: &[&str]) -> Vec<String> {
    items.iter().map(|s| s.to_string()).collect()
}

fn messages(notices: &[Notice]) -> Vec<String> {
    notices.iter().map(|n| n.message()).collect()
}

#[test]
fn blank_line_ends_the_session() {
    let mut timetable = sample();
    let taken = step(&mut timetable, SessionState::AwaitingLine, "   \n");
    assert_eq!(taken.state, SessionState::Finished);
    assert!(taken.notices.is_empty());
    assert!(!taken.placed);
    let again = step(&mut timetable, SessionState::Finished, "Math,0,0");
    assert_eq!(again.state, SessionState::Finished);
    assert!(again.notices.is_empty());
    assert_eq!(timetable.grid.lookup(0, 0), None);
}

#[test]
fn request_line_places_a_class() {
    let mut timetable = sample();
    let taken = step(&mut timetable, SessionState::AwaitingLine, "Art,2,3\n");
    assert_eq!(taken.state, SessionState::AwaitingLine);
    assert!(taken.notices.is_empty());
    assert!(taken.placed);
    assert_eq!(timetable.grid.lookup(2, 3), Some(1));
}

#[test]
fn malformed_lines_are_reported_and_the_session_goes_on() {
    let mut timetable = sample();
    let cases = [
        ("Music,0,0", "No class called Music!"),
        ("Math,zero,0", "Day or period is in invalid format (must be a number)!"),
        ("Math,0,zero", "Day or period is in invalid format (must be a number)!"),
        ("Math", "Incorrect format (use `[class name],[day],[period]`)"),
        ("Math,0,0,0", "Incorrect format (use `[class name],[day],[period]`)"),
        ("weekly,0 2 4", "Unknown special series element weekly"),
        ("period series,0 2", "Incorrect format (use `[class name],[day],[period]`)"),
        ("period series,0 two 4", "Day or period is in invalid format (must be a number)!"),
    ];
    for (line, message) in cases {
        let taken = step(&mut timetable, SessionState::AwaitingLine, line);
        assert_eq!(taken.state, SessionState::AwaitingLine, "{:?}", line);
        assert_eq!(messages(&taken.notices), vec![message.to_string()], "{:?}", line);
        assert!(taken.notices[0].is_error());
        assert!(!taken.placed);
    }
    assert_eq!(timetable.grid.bounding_box(), None);
}

#[test]
fn series_asks_for_each_period_in_turn() {
    let mut timetable = sample();
    let opened = step(&mut timetable, SessionState::AwaitingLine, "period series,0 2 4");
    assert_eq!(opened.state, SessionState::AwaitingSeriesClass { day: 0, period: 2, end: 4 });
    assert_eq!(messages(&opened.notices), vec!["Series Start", "2:"]);
    assert!(!opened.notices[0].is_error());
    assert!(!opened.placed);
    let first = step(&mut timetable, opened.state, "Math");
    assert_eq!(first.state, SessionState::AwaitingSeriesClass { day: 0, period: 3, end: 4 });
    assert_eq!(messages(&first.notices), vec!["3:"]);
    assert!(first.placed);
    let second = step(&mut timetable, first.state, "Art");
    assert_eq!(second.state, SessionState::AwaitingLine);
    assert_eq!(messages(&second.notices), vec!["Series Finish"]);
    assert!(second.placed);
    assert_eq!(timetable.grid.lookup(0, 2), Some(0));
    assert_eq!(timetable.grid.lookup(0, 3), Some(1));
    assert_eq!(timetable.grid.lookup(0, 4), None);
}

#[test]
fn series_asks_again_after_an_unknown_class() {
    let mut timetable = sample();
    let state = SessionState::AwaitingSeriesClass { day: 1, period: 5, end: 6 };
    let failed = step(&mut timetable, state, "Music");
    assert_eq!(failed.state, state);
    assert_eq!(messages(&failed.notices), vec!["No class called Music!", "5:"]);
    assert!(!failed.placed);
    assert_eq!(timetable.grid.lookup(1, 5), None);
    let blank = step(&mut timetable, state, "");
    assert_eq!(blank.state, state);
    assert_eq!(messages(&blank.notices), vec!["No class called !", "5:"]);
    let placed = step(&mut timetable, state, " Art ");
    assert_eq!(placed.state, SessionState::AwaitingLine);
    assert_eq!(timetable.grid.lookup(1, 5), Some(1));
}

#[test]
fn empty_series_starts_and_finishes_at_once() {
    let mut timetable = sample();
    let taken = step(&mut timetable, SessionState::AwaitingLine, "period series,0 4 4");
    assert_eq!(taken.state, SessionState::AwaitingLine);
    assert_eq!(messages(&taken.notices), vec!["Series Start", "Series Finish"]);
    let backwards = step(&mut timetable, SessionState::AwaitingLine, "period series,0 5 2");
    assert_eq!(backwards.state, SessionState::AwaitingLine);
    assert_eq!(messages(&backwards.notices), vec!["Series Start", "Series Finish"]);
    assert_eq!(timetable.grid.bounding_box(), None);
}

#[test]
fn series_range_ignores_what_follows_the_third_number() {
    let mut timetable = sample();
    let taken = step(&mut timetable, SessionState::AwaitingLine, "period series,3 0 1 extra");
    assert_eq!(taken.state, SessionState::AwaitingSeriesClass { day: 3, period: 0, end: 1 });
}

#[test]
fn series_at_the_last_period_finishes_without_overflow() {
    let mut timetable = sample();
    let state =
        SessionState::AwaitingSeriesClass { day: 0, period: usize::MAX, end: usize::MAX };
    let taken = step(&mut timetable, state, "Math");
    assert_eq!(taken.state, SessionState::AwaitingLine);
    assert_eq!(timetable.grid.lookup(0, usize::MAX), Some(0));
}

#[test]
fn mass_add_runs_a_period_series() {
    let mut timetable = sample();
    let series = "period series".to_string() + "," + "0 2 4";
    let session = mass_add(&mut timetable, &lines(&[&series, "Math", "Art", ""]));
    assert_eq!(session.state, SessionState::Finished);
    assert!(session.placed);
    assert_eq!(timetable.grid.lookup(0, 2), Some(0));
    assert_eq!(timetable.grid.lookup(0, 3), Some(1));
    assert_eq!(timetable.grid.lookup(0, 4), None);
    assert_eq!(
        messages(&session.notices),
        vec!["[Class name],[Day],[Period]:", "Series Start", "2:", "3:", "Series Finish"]
    );
}

#[test]
fn mass_add_stops_at_the_blank_line() {
    let mut timetable = sample();
    let session = mass_add(&mut timetable, &lines(&["Math,0,0", "", "Art,0,1"]));
    assert_eq!(session.state, SessionState::Finished);
    assert_eq!(timetable.grid.lookup(0, 0), Some(0));
    assert_eq!(timetable.grid.lookup(0, 1), None);
    assert_eq!(messages(&session.notices), vec!["[Class name],[Day],[Period]:"]);
}

#[test]
fn mass_add_without_a_blank_line_awaits_more() {
    let mut timetable = sample();
    let session = mass_add(&mut timetable, &lines(&["Math,0,0", "Music,0,1"]));
    assert_eq!(session.state, SessionState::AwaitingLine);
    assert_eq!(
        messages(&session.notices),
        vec!["[Class name],[Day],[Period]:", "No class called Music!"]
    );
    assert!(session.placed);
    let idle = mass_add(&mut timetable, &Vec::new());
    assert_eq!(idle.state, SessionState::AwaitingLine);
    assert!(!idle.placed);
    assert_eq!(messages(&idle.notices), vec!["[Class name],[Day],[Period]:"]);
}

#[test]
fn mass_add_that_places_nothing_says_so() {
    let mut timetable = sample();
    let session = mass_add(&mut timetable, &lines(&["Music,0,0", "Math,x,0", "period series,0 3 3", ""]));
    assert_eq!(session.state, SessionState::Finished);
    assert!(!session.placed);
    assert_eq!(timetable.grid.bounding_box(), None);
}
