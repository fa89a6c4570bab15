use boiling_frog::reading::Reading;
use boiling_frog::sample::{label_before, Sample};
use boiling_frog::tracker::Tracker;

fn reading(v: f64) -> Reading {
    Reading::from_bits(v.to_bits())
}

fn sample(label: &str, v: f64) -> Sample {
    Sample::new(label.to_string(), reading(v), "RPM".to_string())
}

fn current(t: &Tracker) -> (String, f64) {
    let m = t.current().expect("a maximum");
    (m.label, f64::from_bits(m.value.to_bits()))
}

#[test]
fn maximum_follows_updates() {
    let mut t = Tracker::new();
    t.insert(sample("A", 10.0));
    t.insert(sample("B", 30.0));
    t.insert(sample("C", 20.0));
    assert_eq!(current(&t), ("B".to_string(), 30.0));
    t.insert(sample("B", 5.0));
    assert_eq!(current(&t), ("C".to_string(), 20.0));
    t.insert(sample("A", 40.0));
    assert_eq!(current(&t), ("A".to_string(), 40.0));
    assert_eq!(t.len(), 3);
}

#[test]
fn insert_reports_only_changes() {
    let mut t = Tracker::new();
    let r = t.insert(sample("A", 10.0)).expect("first sample is a change");
    assert_eq!(r.label, "A");
    let r = t.insert(sample("B", 30.0)).expect("new maximum");
    assert_eq!(f64::from_bits(r.value.to_bits()), 30.0);
    assert!(t.insert(sample("C", 20.0)).is_none());
    let r = t.insert(sample("B", 5.0)).expect("maximum moved to C");
    assert_eq!(r.label, "C");
    let r = t.insert(sample("C", 25.0)).expect("maximum value changed");
    assert_eq!(f64::from_bits(r.value.to_bits()), 25.0);
}

#[test]
fn same_sample_twice_reports_once() {
    let mut t = Tracker::new();
    t.insert(sample("A", 10.0));
    assert!(t.insert(sample("B", 30.0)).is_some());
    assert!(t.insert(sample("B", 30.0)).is_none());
    assert!(t.insert(sample("A", 10.0)).is_none());
    assert_eq!(t.len(), 2);
}

#[test]
fn empty_tracker_has_no_maximum() {
    let t = Tracker::new();
    assert!(t.current().is_none());
    assert_eq!(t.len(), 0);
}

#[test]
fn ties_go_to_the_first_label() {
    let mut t = Tracker::new();
    t.insert(sample("fan2", 1000.0));
    t.insert(sample("fan1", 1000.0));
    assert_eq!(current(&t), ("fan1".to_string(), 1000.0));
    let mut u = Tracker::new();
    u.insert(sample("fan1", 1000.0));
    assert!(u.insert(sample("fan2", 1000.0)).is_none());
    assert_eq!(current(&u), ("fan1".to_string(), 1000.0));
}

fn run_schedule(schedule: &[&str]) -> Tracker {
    let updates: [(&str, [f64; 2]); 4] =
        [("a", [3.0, 1.0]), ("b", [2.0, 7.0]), ("c", [7.0, 7.0]), ("d", [-1.0, 0.5])];
    let mut next = [0usize; 4];
    let mut t = Tracker::new();
    for name in schedule {
        let k = updates.iter().position(|(n, _)| n == name).unwrap();
        t.insert(sample(name, updates[k].1[next[k]]));
        next[k] += 1;
    }
    t
}

#[test]
fn interleavings_of_sources_agree() {
    let schedules: [[&str; 8]; 5] = [
        ["a", "a", "b", "b", "c", "c", "d", "d"],
        ["d", "c", "b", "a", "a", "b", "c", "d"],
        ["c", "c", "d", "b", "a", "d", "b", "a"],
        ["b", "d", "a", "c", "b", "a", "d", "c"],
        ["d", "d", "c", "c", "b", "b", "a", "a"],
    ];
    for schedule in schedules.iter() {
        let t = run_schedule(schedule);
        assert_eq!(t.len(), 4);
        assert_eq!(current(&t), ("b".to_string(), 7.0), "{schedule:?}");
    }
}

#[test]
fn readings_follow_the_total_order() {
    let values = [f64::NEG_INFINITY, -2.5, -0.0, 0.0, 1e-300, 1.0, 1200.0, f64::INFINITY, f64::NAN];
    for a in values.iter() {
        for b in values.iter() {
            let expect = a.total_cmp(b) == std::cmp::Ordering::Greater;
            assert_eq!(reading(*a).exceeds(&reading(*b)), expect, "{a} vs {b}");
        }
    }
    assert!(reading(-1.0).exceeds(&reading(-2.0)));
    assert!(!reading(-2.0).exceeds(&reading(-1.0)));
    assert!(reading(0.0).exceeds(&reading(-0.0)));
}

#[test]
fn negative_readings_compare_correctly() {
    let mut t = Tracker::new();
    t.insert(Sample::new("cold".to_string(), reading(-20.0), "\u{b0}C".to_string()));
    t.insert(Sample::new("colder".to_string(), reading(-30.0), "\u{b0}C".to_string()));
    assert_eq!(current(&t), ("cold".to_string(), -20.0));
}

#[test]
fn labels_order_by_code_point() {
    assert!(label_before("a", "b"));
    assert!(!label_before("b", "a"));
    assert!(label_before("fan", "fan1"));
    assert!(!label_before("fan1", "fan"));
    assert!(!label_before("same", "same"));
    assert!(label_before("", "x"));
    assert!(label_before("Z", "a"));
    assert!(label_before("\u{b0}", "\u{2103}"));
}

#[test]
fn samples_compare_by_content() {
    let a = sample("A", 1.0);
    assert!(a.same_as(&a.clone()));
    assert!(!a.same_as(&sample("A", 2.0)));
    assert!(!a.same_as(&sample("B", 1.0)));
    assert!(sample("A", 2.0).beats(&sample("B", 1.0)));
    assert!(sample("A", 1.0).beats(&sample("B", 1.0)));
    assert!(!sample("B", 1.0).beats(&sample("A", 1.0)));
}
