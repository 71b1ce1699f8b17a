use std::collections::HashMap;
use timetable::{Class, ClassRegistry, Document, NameRepeated, ScheduleGrid, Timetable};

type ClassParts = Vec<(String, Vec<String>)>;
type DayParts = HashMap<usize, HashMap<usize, usize>>;

fn parts_of(timetable: &Timetable) -> (ClassParts, DayParts) {
    let classes =
        timetable.classes.as_vec().iter().map(|c| (c.name.clone(), c.todo.clone())).collect();
    (classes, timetable.grid.as_days().clone())
}

fn from_parts(classes: ClassParts, days: DayParts) -> Timetable {
    let classes = classes.into_iter().map(|(name, todo)| Class { name, todo }).collect();
    Timetable {
        classes: ClassRegistry::from_classes(classes).unwrap(),
        grid: ScheduleGrid::from_days(days),
    }
}

fn through_json(document: Document) -> Document {
    let classes: ClassParts = document.classes.into_iter().map(|c| (c.name, c.todo)).collect();
    let text = serde_json::to_string_pretty(&(classes, document.timetable)).unwrap();
    let (classes, timetable): (ClassParts, DayParts) = serde_json::from_str(&text).unwrap();
    Document {
        classes: classes.into_iter().map(|(name, todo)| Class { name, todo }).collect(),
        timetable,
    }
}

fn sample() -> Timetable {
    let mut timetable = Timetable::new();
    timetable.add_class("Math".to_string()).unwrap();
    timetable.add_class("Art".to_string()).unwrap();
    assert!(timetable.classes.add_note(1, "bring paint".to_string()));
    timetable.add_period(0, 0, 0);
    timetable.add_period(1, 0, 1);
    timetable.add_period(1, 3, 2);
    timetable.add_period(5, 2, 2);
    timetable.add_period(0, 4, 4);
    assert!(timetable.remove_period(4, 4));
    timetable
}

#[test]
fn timetable_survives_a_round_trip_through_json() {
    let timetable = sample();

    let document = serde_json::to_string_pretty(&parts_of(&timetable)).unwrap();
    let (classes, days): (ClassParts, DayParts) = serde_json::from_str(&document).unwrap();
    let loaded = from_parts(classes, days);

    assert_eq!(parts_of(&loaded), parts_of(&timetable));
    assert_eq!(loaded.class_index_from_name("Art"), Some(1));
    assert_eq!(loaded.get_class(3, 2).unwrap().name, "Art");
    assert_eq!(loaded.grid.bounding_box(), timetable.grid.bounding_box());
    assert!(matches!(loaded.render(), timetable::Rendering::Grid { .. }));
}

#[test]
fn document_gives_the_timetable_back() {
    let before = parts_of(&sample());
    let loaded = Timetable::from_document(through_json(sample().into_document())).unwrap();
    assert_eq!(parts_of(&loaded), before);

    let timetable = sample();
    for name in ["Math", "Art", "Music", ""] {
        assert_eq!(
            loaded.class_index_from_name(name),
            timetable.class_index_from_name(name),
            "{:?}",
            name
        );
    }
    for day in 0..6 {
        for period in 0..6 {
            let was = timetable.get_class(day, period).map(|c| (c.name.clone(), c.todo.clone()));
            let is = loaded.get_class(day, period).map(|c| (c.name.clone(), c.todo.clone()));
            assert_eq!(is, was, "({}, {})", day, period);
            assert_eq!(loaded.grid.lookup(day, period), timetable.grid.lookup(day, period));
        }
    }
    assert_eq!(loaded.grid.bounding_box(), timetable.grid.bounding_box());
}

#[test]
fn document_holds_classes_in_order_and_days_with_their_periods() {
    let document = sample().into_document();
    let names: Vec<&str> = document.classes.iter().map(|c| c.name.as_str()).collect();
    assert_eq!(names, vec!["Math", "Art"]);
    assert_eq!(document.classes[1].todo, vec!["bring paint".to_string()]);
    let mut days: DayParts = HashMap::new();
    days.entry(0).or_default().insert(0, 0);
    days.entry(0).or_default().insert(1, 1);
    days.entry(3).or_default().insert(2, 1);
    days.entry(2).or_default().insert(2, 5);
    days.entry(4).or_default();
    assert_eq!(document.timetable, days);
}

#[test]
fn from_document_refuses_a_repeated_name() {
    let class = |name: &str| Class { name: name.to_string(), todo: Vec::new() };
    let document = Document {
        classes: vec![class("Math"), class("Art"), class("Art"), class("Math")],
        timetable: HashMap::new(),
    };
    assert_eq!(Timetable::from_document(document).err(), Some(NameRepeated { index: 2 }));
}

#[test]
fn empty_timetable_survives_a_round_trip_through_json() {
    let loaded = Timetable::from_document(through_json(Timetable::new().into_document())).unwrap();
    assert_eq!(loaded.classes.len(), 0);
    assert_eq!(loaded.grid.bounding_box(), None);
}
