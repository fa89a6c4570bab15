use std::cell::RefCell;
use std::rc::Rc;
use std::sync::{Arc, Mutex};

use boiling_frog::discovery::{is_virtual, parse_objects, text_contains, ManagedInterface};
use boiling_frog::metric::{Category, Metric, PropValue, Property};
use boiling_frog::mutex_helpers::lock;
use boiling_frog::observer::Observer;
use boiling_frog::reading::Reading;
use boiling_frog::sample::Sample;
use boiling_frog::session::{seed_tracker, snapshot, update, Session};
use boiling_frog::tracker::Tracker;

const IFACE: &str = "com.github.alexmurray.IndicatorSensors.ActiveSensor";
const ROOT: &str = "/com/github/alexmurray/IndicatorSensors/ActiveSensors";

fn reading(v: f64) -> Reading {
    Reading::from_bits(v.to_bits())
}

fn object(path: &str, label: &str, units: &str, value: f64) -> ManagedInterface {
    ManagedInterface {
        path: format!("{ROOT}/{path}"),
        interface_name: IFACE.to_string(),
        properties: vec![
            Property { name: "Label".to_string(), value: PropValue::Text(label.to_string()) },
            Property { name: "Units".to_string(), value: PropValue::Text(units.to_string()) },
            Property { name: "Value".to_string(), value: PropValue::Number(reading(value)) },
        ],
    }
}

fn scenario() -> Vec<ManagedInterface> {
    vec![
        object("libsensors/fan1", "fan1", "RPM", 1200.0),
        object("virtual/max", "max", "RPM", 5000.0),
        object("libsensors/fan2", "fan2", "RPM", 900.0),
        object("libsensors/cpu", "cpu", "\u{b0}C", 45.0),
    ]
}

type Calls = Rc<RefCell<Vec<(String, f64, String)>>>;

struct Recorder {
    calls: Calls,
}

impl Observer for Recorder {
    fn on_change(&self, label: String, value: Reading, units: String) {
        self.calls.borrow_mut().push((label, f64::from_bits(value.to_bits()), units));
    }
}

fn view(s: Option<Sample>) -> Option<(String, f64, String)> {
    s.map(|s| (s.label, f64::from_bits(s.value.to_bits()), s.units))
}

fn source<'a>(session: &'a Session<Recorder>, label: &str) -> &'a Metric {
    session.sources().iter().find(|m| m.get_value().label == label).unwrap()
}

#[test]
fn end_to_end_fan_change_notifies_once() {
    let mut session: Session<Recorder> = Session::start(&scenario());
    assert_eq!(view(session.fan().unwrap()), Some(("fan1".to_string(), 1200.0, "RPM".to_string())));
    assert_eq!(view(session.temp().unwrap()), Some(("cpu".to_string(), 45.0, "\u{b0}C".to_string())));

    let calls: Calls = Rc::new(RefCell::new(Vec::new()));
    session.set_observer(Recorder { calls: calls.clone() });
    let fan2 = source(&session, "fan2").clone();
    let changed = session.notify(&fan2, reading(1500.0)).unwrap();
    assert_eq!(view(changed), Some(("fan2".to_string(), 1500.0, "RPM".to_string())));
    assert_eq!(view(session.fan().unwrap()), Some(("fan2".to_string(), 1500.0, "RPM".to_string())));
    assert_eq!(*calls.borrow(), vec![("fan2".to_string(), 1500.0, "RPM".to_string())]);

    assert!(session.notify(&fan2, reading(1500.0)).unwrap().is_none());
    assert_eq!(calls.borrow().len(), 1);
    assert_eq!(view(session.temp().unwrap()), Some(("cpu".to_string(), 45.0, "\u{b0}C".to_string())));
}

#[test]
fn session_sources_leave_out_virtual_paths() {
    let session: Session<Recorder> = Session::start(&scenario());
    let labels: Vec<String> = session.sources().iter().map(|m| m.get_value().label.clone()).collect();
    assert_eq!(labels, vec!["fan1", "fan2", "cpu"]);
    assert_eq!(session.sources()[2].category(), Category::Temperature);
}

#[test]
fn session_without_sensors_has_no_maxima() {
    let session: Session<Recorder> = Session::start(&Vec::new());
    assert!(session.fan().unwrap().is_none());
    assert!(session.temp().unwrap().is_none());
    assert!(session.sources().is_empty());
}

#[test]
fn change_below_the_maximum_is_quiet() {
    let mut session: Session<Recorder> = Session::start(&scenario());
    let calls: Calls = Rc::new(RefCell::new(Vec::new()));
    session.set_observer(Recorder { calls: calls.clone() });
    let fan2 = source(&session, "fan2").clone();
    assert!(session.notify(&fan2, reading(1000.0)).unwrap().is_none());
    assert!(calls.borrow().is_empty());
    let fan1 = source(&session, "fan1").clone();
    let changed = session.notify(&fan1, reading(800.0)).unwrap();
    assert_eq!(view(changed), Some(("fan2".to_string(), 1000.0, "RPM".to_string())));
    assert_eq!(calls.borrow().len(), 1);
}

#[test]
fn parse_objects_partitions_and_filters() {
    let mut objects = scenario();
    objects.push(object("libsensors/volt", "in0", "V", 12.0));
    objects.push(ManagedInterface {
        path: format!("{ROOT}/libsensors/broken"),
        interface_name: IFACE.to_string(),
        properties: vec![],
    });
    objects.push(object("udisks2/disk", "sda", "\u{2103}", 38.0));
    let (fans, temps) = parse_objects(&objects);
    let f: Vec<&str> = fans.iter().map(|m| m.get_value().label.as_str()).collect();
    let t: Vec<&str> = temps.iter().map(|m| m.get_value().label.as_str()).collect();
    assert_eq!(f, vec!["fan1", "fan2"]);
    assert_eq!(t, vec!["cpu", "sda"]);
    assert!(fans.iter().all(|m| matches!(m, Metric::Fan(_))));
    assert_eq!(temps[1].get_value().dbus_info.path, format!("{ROOT}/udisks2/disk"));
}

#[test]
fn virtual_paths_are_recognised() {
    assert!(is_virtual("/com/github/alexmurray/IndicatorSensors/ActiveSensors/virtual/max"));
    assert!(!is_virtual("/com/github/alexmurray/IndicatorSensors/ActiveSensors/libsensors/x/0"));
    assert!(!is_virtual("/virtual"));
    assert!(!is_virtual("/a/virtualbox/b"));
    assert!(text_contains("abcabd", "abd"));
    assert!(text_contains("abc", ""));
    assert!(!text_contains("ab", "abc"));
    assert!(!text_contains("aXbc", "abc"));
}

#[test]
fn seeded_tracker_holds_every_reading() {
    let (fans, _) = parse_objects(&scenario());
    let t = seed_tracker(&fans);
    assert_eq!(t.len(), 2);
    assert_eq!(view(t.current()), Some(("fan1".to_string(), 1200.0, "RPM".to_string())));
}

#[test]
fn shared_tracker_updates_under_its_lock() {
    let shared = Arc::new(Mutex::new(Tracker::new()));
    assert!(snapshot(&shared).unwrap().is_none());
    let s = |l: &str, v: f64| Sample::new(l.to_string(), reading(v), "RPM".to_string());
    assert_eq!(view(update(&shared, s("A", 10.0)).unwrap()).unwrap().0, "A");
    assert_eq!(view(update(&shared, s("B", 30.0)).unwrap()).unwrap().0, "B");
    assert!(update(&shared, s("C", 20.0)).unwrap().is_none());
    assert!(update(&shared, s("B", 30.0)).unwrap().is_none());
    assert_eq!(view(snapshot(&shared).unwrap()).unwrap().1, 30.0);
    assert_eq!(lock(&shared).unwrap().len(), 3);
}

#[test]
fn lock_gives_access_to_the_value() {
    let shared = Arc::new(Mutex::new(41));
    {
        let mut guard = lock(&shared).unwrap();
        *guard += 1;
    }
    assert_eq!(*lock(&shared).unwrap(), 42);
}

#[test]
fn second_observer_replaces_the_first() {
    let mut session: Session<Recorder> = Session::start(&scenario());
    let first: Calls = Rc::new(RefCell::new(Vec::new()));
    let second: Calls = Rc::new(RefCell::new(Vec::new()));
    session.set_observer(Recorder { calls: first.clone() });
    session.set_observer(Recorder { calls: second.clone() });
    let fan2 = source(&session, "fan2").clone();
    assert!(session.notify(&fan2, reading(2000.0)).unwrap().is_some());
    assert!(first.borrow().is_empty());
    assert_eq!(*second.borrow(), vec![("fan2".to_string(), 2000.0, "RPM".to_string())]);
}
