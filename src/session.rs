use std::sync::{Arc, Mutex};

use vstd::prelude::*;

use crate::discovery::{discovered, interfaces_view, metrics_view, parse_objects, ManagedInterface};
use crate::metric::{Category, Metric, MetricModel};
use crate::mutex_helpers::{guarded, lock, LockError};
use crate::observer::Observer;
use crate::reading::Reading;
use crate::sample::{beats, option_view, Sample, SampleModel};
use crate::tracker::{
    lemma_max_is_greatest, lemma_record_keeps_others, tracked_after, Tracker, TrackerModel,
};

verus! {

/// Relies on `Mutex::new`: an unlocked lock that protects `t`.
#[verifier::external_body]
fn new_mutex<T>(t: T) -> Mutex<T> {
    Mutex::new(t)
}

/// The sample that a metric's reading makes.
pub open spec fn sample_of(m: MetricModel) -> SampleModel {
    SampleModel { label: m.value.label, value: m.value.value, units: m.value.units }
}

pub open spec fn samples_of(ms: Seq<MetricModel>) -> Seq<SampleModel> {
    ms.map_values(|m: MetricModel| sample_of(m))
}

/// The tracker after each of `xs` is recorded in turn.
pub open spec fn record_all(m: TrackerModel, xs: Seq<SampleModel>) -> TrackerModel
    decreases xs.len(),
{
    if xs.len() == 0 {
        m
    } else {
        tracked_after(record_all(m, xs.drop_last()), xs.last())
    }
}

pub open spec fn empty_tracker() -> TrackerModel {
    TrackerModel { samples: Seq::empty(), max: None }
}

/// A tracker holding the readings of `metrics`, recorded in order.
pub fn seed_tracker(metrics: &Vec<Metric>) -> (r: Tracker)
    ensures
        r@ == record_all(empty_tracker(), samples_of(metrics_view(metrics@))),
{
    let mut t = Tracker::new();
    let n = metrics.len();
    let mut i: usize = 0;
    assert(samples_of(metrics_view(metrics@)).take(0) == Seq::<SampleModel>::empty());
    assert(t@ == empty_tracker());
    while i < n
        invariant
            n == metrics@.len(),
            i <= n,
            t@ == record_all(empty_tracker(), samples_of(metrics_view(metrics@)).take(i as int)),
        decreases n - i,
    {
        let ghost xs = samples_of(metrics_view(metrics@));
        assert(xs.take(i + 1).drop_last() == xs.take(i as int));
        assert(xs.take(i + 1).last() == sample_of(metrics@[i as int]@));
        let sample = metrics[i].get_value().to_sample();
        t.insert(sample);
        i = i + 1;
    }
    assert(samples_of(metrics_view(metrics@)).take(n as int) == samples_of(metrics_view(metrics@)));
    t
}

/// Records `sample` in a shared tracker while holding its lock, and releases
/// the lock before returning the new maximum where it changed. That maximum
/// is the sample itself or beats it.
pub fn update(tracker: &Arc<Mutex<Tracker>>, sample: Sample) -> (r: Result<Option<Sample>, LockError>)
    ensures
        r matches Ok(Some(m)) ==> m@ == sample@ || beats(m@, sample@),
{
    let ghost x = sample@;
    let changed = {
        let mut guard = lock(tracker)?;
        let t = guarded(&mut guard);
        let ghost before = t@;
        let changed = t.insert(sample);
        proof {
            let after = tracked_after(before, x);
            lemma_record_keeps_others(before, x);
            lemma_max_is_greatest(after);
            if let Some(m) = option_view(changed) {
                assert(after.samples.contains(x));
                let k = choose|k: int| 0 <= k < after.samples.len() && after.samples[k] == x;
                if m.label == x.label {
                    let j = choose|j: int| 0 <= j < after.samples.len() && after.samples[j] == m;
                    assert(j == k);
                } else {
                    assert(beats(m, after.samples[k]));
                }
            }
        }
        changed
    };
    Ok(changed)
}

/// The maximum that a shared tracker holds, read under its lock.
pub fn snapshot(tracker: &Arc<Mutex<Tracker>>) -> (r: Result<Option<Sample>, LockError>) {
    let mut guard = lock(tracker)?;
    let t = guarded(&mut guard);
    Ok(t.current())
}

/// The aggregation of all sensors: one shared tracker per category, the
/// metrics that discovery found, and the observer told of changes.
pub struct Session<O: Observer> {
    fan: Arc<Mutex<Tracker>>,
    temp: Arc<Mutex<Tracker>>,
    sources: Vec<Metric>,
    observer: Option<O>,
}

impl<O: Observer> Session<O> {
    pub closed spec fn sources_view(&self) -> Seq<MetricModel> {
        metrics_view(self.sources@)
    }

    /// The observer told of changes, if one is registered.
    pub closed spec fn observer_view(&self) -> Option<O> {
        self.observer
    }

    /// The shared tracker that holds the samples of category `c`.
    pub closed spec fn lock_of(&self, c: Category) -> Arc<Mutex<Tracker>> {
        match c {
            Category::Fan => self.fan,
            Category::Temperature => self.temp,
        }
    }

    /// Discovers the metrics among the managed interfaces and seeds each
    /// category's tracker with their readings, so that the maxima are known
    /// before any change arrives.
    pub fn start(objects: &Vec<ManagedInterface>) -> (r: Session<O>)
        ensures
            r.sources_view() == discovered(interfaces_view(objects@), Category::Fan) + discovered(
                interfaces_view(objects@),
                Category::Temperature,
            ),
            r.observer_view() == None::<O>,
    {
        let (fans, temps) = parse_objects(objects);
        let fan = Arc::new(new_mutex(seed_tracker(&fans)));
        let temp = Arc::new(new_mutex(seed_tracker(&temps)));
        let mut sources = fans;
        let mut more = temps;
        sources.append(&mut more);
        Session { fan, temp, sources, observer: None }
    }

    /// The metrics that discovery found: the fans, then the temperatures.
    pub fn sources(&self) -> (r: &Vec<Metric>)
        ensures
            metrics_view(r@) == self.sources_view(),
    {
        &self.sources
    }

    /// Registers the observer, replacing any earlier one.
    pub fn set_observer(&mut self, observer: O)
        ensures
            final(self).observer_view() == Some(observer),
            final(self).sources_view() == old(self).sources_view(),
            forall|c: Category| #[trigger] final(self).lock_of(c) == old(self).lock_of(c),
    {
        self.observer = Some(observer);
    }

    /// The tracker of category `c`.
    pub fn tracker(&self, c: Category) -> (r: &Arc<Mutex<Tracker>>)
        ensures
            *r == self.lock_of(c),
    {
        match c {
            Category::Fan => &self.fan,
            Category::Temperature => &self.temp,
        }
    }

    /// The fastest fan, `None` before any fan reported.
    pub fn fan(&self) -> (r: Result<Option<Sample>, LockError>) {
        snapshot(self.tracker(Category::Fan))
    }

    /// The hottest temperature, `None` before any sensor reported.
    pub fn temp(&self) -> (r: Result<Option<Sample>, LockError>) {
        snapshot(self.tracker(Category::Temperature))
    }

    /// Applies a new reading of `source`: records it in the tracker of its
    /// category, and where that changes the maximum tells the observer once
    /// the lock is released. Returns the new maximum where it changed.
    pub fn notify(&self, source: &Metric, value: Reading) -> (r: Result<Option<Sample>, LockError>)
        ensures
            r matches Ok(Some(m)) ==> (m@ == (SampleModel {
                label: source@.value.label,
                value,
                units: source@.value.units,
            }) || beats(
                m@,
                SampleModel { label: source@.value.label, value, units: source@.value.units },
            )),
    {
        let sample = source.get_value().with_reading(value);
        let changed = update(self.tracker(source.category()), sample)?;
        match (&changed, &self.observer) {
            (Some(m), Some(observer)) => {
                observer.on_change(m.label.clone(), m.value, m.units.clone());
            },
            _ => {},
        }
        Ok(changed)
    }
}

} // verus!
