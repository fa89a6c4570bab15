use vstd::prelude::*;

use crate::sample::{
    beats, lemma_beats_asymmetric, lemma_beats_total, lemma_beats_transitive, option_view, Sample,
    SampleModel,
};

verus! {

/// No two samples carry the same label.
pub open spec fn labels_unique(s: Seq<SampleModel>) -> bool {
    forall|i: int, j: int|
        0 <= i < s.len() && 0 <= j < s.len() && i != j ==> #[trigger] s[i].label != #[trigger] s[j].label
}

/// Some sample carries label `l`.
pub open spec fn has_label(s: Seq<SampleModel>, l: Seq<char>) -> bool {
    exists|i: int| 0 <= i < s.len() && #[trigger] s[i].label == l
}

/// The maximum of a sequence of samples: the one that beats every other,
/// found by a left-to-right scan; `None` for no samples.
pub open spec fn best_of(s: Seq<SampleModel>) -> Option<SampleModel>
    decreases s.len(),
{
    if s.len() == 0 {
        None
    } else {
        match best_of(s.drop_last()) {
            None => Some(s.last()),
            Some(b) => if beats(s.last(), b) {
                Some(s.last())
            } else {
                Some(b)
            },
        }
    }
}

/// The samples after `x` is recorded: it replaces the sample with its label
/// where there is one, and is added at the end otherwise.
pub open spec fn upsert(s: Seq<SampleModel>, x: SampleModel) -> Seq<SampleModel> {
    if has_label(s, x.label) {
        let i = choose|i: int| 0 <= i < s.len() && #[trigger] s[i].label == x.label;
        s.update(i, x)
    } else {
        s.push(x)
    }
}

/// What a tracker holds: the latest sample of each source and the maximum.
pub struct TrackerModel {
    pub samples: Seq<SampleModel>,
    pub max: Option<SampleModel>,
}

/// A tracker's state is consistent: one sample per label, and the maximum is
/// the maximum of all of them.
pub open spec fn tracker_valid(m: TrackerModel) -> bool {
    labels_unique(m.samples) && m.max == best_of(m.samples)
}

/// The tracker after `x` is recorded.
pub open spec fn tracked_after(m: TrackerModel, x: SampleModel) -> TrackerModel {
    TrackerModel { samples: upsert(m.samples, x), max: best_of(upsert(m.samples, x)) }
}

/// What recording `x` reports: the new maximum where it differs from the
/// previous one, else `None`.
pub open spec fn change_reported(m: TrackerModel, x: SampleModel) -> Option<SampleModel> {
    let n = tracked_after(m, x);
    if n.max != m.max {
        n.max
    } else {
        None
    }
}

pub open spec fn models(v: Seq<Sample>) -> Seq<SampleModel> {
    v.map_values(|s: Sample| s@)
}

/// `b` is among `s` and beats every sample of `s` with another label.
pub open spec fn is_greatest(s: Seq<SampleModel>, b: SampleModel) -> bool {
    s.contains(b) && forall|i: int|
        0 <= i < s.len() && s[i].label != b.label ==> beats(b, #[trigger] s[i])
}

proof fn lemma_drop_last_unique(s: Seq<SampleModel>)
    requires
        labels_unique(s),
        s.len() > 0,
    ensures
        labels_unique(s.drop_last()),
{
    let p = s.drop_last();
    assert forall|i: int, j: int|
        0 <= i < p.len() && 0 <= j < p.len() && i != j implies #[trigger] p[i].label
        != #[trigger] p[j].label by {
        assert(p[i] == s[i] && p[j] == s[j]);
    }
}

/// The scan's result is the greatest sample, and there is one unless there
/// are no samples.
proof fn lemma_best_of(s: Seq<SampleModel>)
    requires
        labels_unique(s),
    ensures
        match best_of(s) {
            None => s.len() == 0,
            Some(b) => is_greatest(s, b),
        },
    decreases s.len(),
{
    if s.len() > 0 {
        let p = s.drop_last();
        let z = s.last();
        let last = s.len() - 1;
        lemma_drop_last_unique(s);
        lemma_best_of(p);
        assert(s[last] == z);
        match best_of(p) {
            None => {
                assert forall|i: int| 0 <= i < s.len() && s[i].label != z.label implies beats(
                    z,
                    #[trigger] s[i],
                ) by {
                    assert(i == last);
                }
            },
            Some(c) => {
                let j = choose|j: int| 0 <= j < p.len() && p[j] == c;
                assert(s[j] == p[j]);
                if beats(z, c) {
                    assert forall|i: int|
                        0 <= i < s.len() && s[i].label != z.label implies beats(
                        z,
                        #[trigger] s[i],
                    ) by {
                        assert(i != last);
                        assert(s[i] == p[i]);
                        if s[i].label == c.label {
                            assert(i == j);
                        } else {
                            assert(beats(c, p[i]));
                            lemma_beats_transitive(z, c, s[i]);
                        }
                    }
                } else {
                    assert(z.label != c.label) by {
                        assert(s[last].label != s[j].label);
                    }
                    lemma_beats_total(z, c);
                    assert forall|i: int|
                        0 <= i < s.len() && s[i].label != c.label implies beats(
                        c,
                        #[trigger] s[i],
                    ) by {
                        if i != last {
                            assert(s[i] == p[i]);
                        }
                    }
                }
            },
        }
    }
}

/// Samples with unique labels and the same contents have the same maximum.
proof fn lemma_best_of_same_contents(s1: Seq<SampleModel>, s2: Seq<SampleModel>)
    requires
        labels_unique(s1),
        labels_unique(s2),
        forall|e: SampleModel| #![trigger s1.contains(e)] #![trigger s2.contains(e)]
            s1.contains(e) == s2.contains(e),
    ensures
        best_of(s1) == best_of(s2),
{
    lemma_best_of(s1);
    lemma_best_of(s2);
    if s1.len() > 0 {
        assert(s1.contains(s1[0]));
    }
    if s2.len() > 0 {
        assert(s2.contains(s2[0]));
    }
    if let (Some(b1), Some(b2)) = (best_of(s1), best_of(s2)) {
        if b1 != b2 {
            assert(s2.contains(b1));
            assert(s1.contains(b2));
            let k1 = choose|k: int| 0 <= k < s2.len() && s2[k] == b1;
            let k2 = choose|k: int| 0 <= k < s2.len() && s2[k] == b2;
            if b1.label == b2.label {
                assert(k1 == k2);
            } else {
                let m = choose|k: int| 0 <= k < s1.len() && s1[k] == b2;
                assert(beats(b1, s1[m]));
                assert(beats(b2, s2[k1]));
                lemma_beats_asymmetric(b1, b2);
            }
        }
    }
}

proof fn lemma_upsert_unique(s: Seq<SampleModel>, x: SampleModel)
    requires
        labels_unique(s),
    ensures
        labels_unique(upsert(s, x)),
{
    let u = upsert(s, x);
    if has_label(s, x.label) {
        let i = choose|i: int| 0 <= i < s.len() && #[trigger] s[i].label == x.label;
        assert forall|a: int, b: int|
            0 <= a < u.len() && 0 <= b < u.len() && a != b implies #[trigger] u[a].label
            != #[trigger] u[b].label by {
            if a != i && b != i {
                assert(s[a].label != s[b].label);
            } else if a == i {
                assert(s[b].label != s[i].label);
            } else {
                assert(s[a].label != s[i].label);
            }
        }
    } else {
        assert forall|a: int, b: int|
            0 <= a < u.len() && 0 <= b < u.len() && a != b implies #[trigger] u[a].label
            != #[trigger] u[b].label by {
            if a != s.len() && b != s.len() {
                assert(s[a].label != s[b].label);
            } else if a == s.len() {
                assert(u[b] == s[b]);
            } else {
                assert(u[a] == s[a]);
            }
        }
    }
}

proof fn lemma_upsert_contents(s: Seq<SampleModel>, x: SampleModel)
    requires
        labels_unique(s),
    ensures
        forall|e: SampleModel| #[trigger]
            upsert(s, x).contains(e) == (e == x || (s.contains(e) && e.label != x.label)),
{
    let u = upsert(s, x);
    if has_label(s, x.label) {
        let i = choose|i: int| 0 <= i < s.len() && #[trigger] s[i].label == x.label;
        assert forall|e: SampleModel| #[trigger]
            u.contains(e) == (e == x || (s.contains(e) && e.label != x.label)) by {
            if u.contains(e) {
                let k = choose|k: int| 0 <= k < u.len() && u[k] == e;
                if k != i {
                    assert(s[k] == e);
                    assert(s[k].label != s[i].label);
                }
            }
            if e == x {
                assert(u[i] == x);
            } else if s.contains(e) && e.label != x.label {
                let k = choose|k: int| 0 <= k < s.len() && s[k] == e;
                assert(k != i);
                assert(u[k] == e);
            }
        }
    } else {
        assert forall|e: SampleModel| #[trigger]
            u.contains(e) == (e == x || (s.contains(e) && e.label != x.label)) by {
            if u.contains(e) {
                let k = choose|k: int| 0 <= k < u.len() && u[k] == e;
                if k != s.len() {
                    assert(s[k] == e);
                }
            }
            if e == x {
                assert(u[s.len() as int] == x);
            } else if s.contains(e) {
                let k = choose|k: int| 0 <= k < s.len() && s[k] == e;
                assert(u[k] == e);
            }
        }
    }
}

/// A tracker's maximum is consistent with its samples: it is one of them
/// and beats every other, with a higher reading or, on equal readings, a
/// label that comes first; there is one as soon as there is a sample.
pub proof fn lemma_max_is_greatest(m: TrackerModel)
    requires
        tracker_valid(m),
    ensures
        match m.max {
            None => m.samples.len() == 0,
            Some(b) => is_greatest(m.samples, b),
        },
{
    lemma_best_of(m.samples);
}

/// Recording a sample loses no update: afterwards the tracker holds that
/// sample, and of every other source exactly the sample it held before.
pub proof fn lemma_record_keeps_others(m: TrackerModel, x: SampleModel)
    requires
        tracker_valid(m),
    ensures
        tracker_valid(tracked_after(m, x)),
        forall|e: SampleModel| #[trigger]
            tracked_after(m, x).samples.contains(e) == (e == x || (m.samples.contains(e)
                && e.label != x.label)),
{
    lemma_upsert_unique(m.samples, x);
    lemma_upsert_contents(m.samples, x);
}

/// Recording the same sample of a source a second time reports no change.
pub proof fn lemma_repeat_record_is_quiet(m: TrackerModel, x: SampleModel)
    requires
        tracker_valid(m),
    ensures
        tracked_after(tracked_after(m, x), x) == tracked_after(m, x),
        change_reported(tracked_after(m, x), x) == None::<SampleModel>,
{
    let u = upsert(m.samples, x);
    lemma_upsert_unique(m.samples, x);
    lemma_upsert_contents(m.samples, x);
    assert(u.contains(x));
    let k = choose|k: int| 0 <= k < u.len() && u[k] == x;
    assert(has_label(u, x.label));
    let i = choose|i: int| 0 <= i < u.len() && #[trigger] u[i].label == x.label;
    assert(i == k);
    assert(u.update(i, x) =~= u);
}

/// Recordings from two different sources give the same tracker contents and
/// the same maximum in either order.
pub proof fn lemma_records_commute(m: TrackerModel, x: SampleModel, y: SampleModel)
    requires
        tracker_valid(m),
        x.label != y.label,
    ensures
        forall|e: SampleModel| #[trigger]
            tracked_after(tracked_after(m, x), y).samples.contains(e) == tracked_after(
                tracked_after(m, y),
                x,
            ).samples.contains(e),
        tracked_after(tracked_after(m, x), y).max == tracked_after(tracked_after(m, y), x).max,
{
    let s = m.samples;
    let sx = upsert(s, x);
    let sy = upsert(s, y);
    lemma_upsert_unique(s, x);
    lemma_upsert_unique(s, y);
    lemma_upsert_contents(s, x);
    lemma_upsert_contents(s, y);
    lemma_upsert_unique(sx, y);
    lemma_upsert_unique(sy, x);
    lemma_upsert_contents(sx, y);
    lemma_upsert_contents(sy, x);
    let a = upsert(sx, y);
    let b = upsert(sy, x);
    assert forall|e: SampleModel| #![trigger a.contains(e)] #![trigger b.contains(e)]
        a.contains(e) == b.contains(e) by {
        assert(a.contains(e) == (e == y || (sx.contains(e) && e.label != y.label)));
        assert(b.contains(e) == (e == x || (sy.contains(e) && e.label != x.label)));
        assert(sx.contains(e) == (e == x || (s.contains(e) && e.label != x.label)));
        assert(sy.contains(e) == (e == y || (s.contains(e) && e.label != y.label)));
    }
    lemma_best_of_same_contents(a, b);
}

/// The latest sample of every source in one category, and the one holding
/// the maximum reading.
#[derive(Debug)]
pub struct Tracker {
    samples: Vec<Sample>,
    max: Option<Sample>,
}

impl View for Tracker {
    type V = TrackerModel;

    closed spec fn view(&self) -> TrackerModel {
        TrackerModel { samples: models(self.samples@), max: option_view(self.max) }
    }
}

/// The maximum among `v`, as `best_of` scans it.
fn best_sample(v: &Vec<Sample>) -> (r: Option<Sample>)
    ensures
        option_view(r) == best_of(models(v@)),
{
    let n = v.len();
    if n == 0 {
        return None;
    }
    let mut bi: usize = 0;
    let mut i: usize = 1;
    assert(models(v@).take(1).drop_last() == Seq::<SampleModel>::empty());
    assert(models(v@).take(1).last() == v@[0]@);
    assert(best_of(Seq::<SampleModel>::empty()) == None::<SampleModel>);
    assert(best_of(models(v@).take(1)) == Some(v@[0]@));
    while i < n
        invariant
            n == v@.len(),
            1 <= i <= n,
            bi < i,
            best_of(models(v@).take(i as int)) == Some(v@[bi as int]@),
        decreases n - i,
    {
        assert(models(v@).take(i + 1).drop_last() == models(v@).take(i as int));
        assert(models(v@).take(i + 1).last() == v@[i as int]@);
        if v[i].beats(&v[bi]) {
            bi = i;
        }
        i = i + 1;
    }
    assert(models(v@).take(n as int) == models(v@));
    Some(v[bi].clone())
}

impl Tracker {
    #[verifier::type_invariant]
    spec fn well_formed(&self) -> bool {
        tracker_valid(self@)
    }

    /// A tracker with no samples.
    pub fn new() -> (r: Tracker)
        ensures
            r@.samples == Seq::<SampleModel>::empty(),
            r@.max == None::<SampleModel>,
            tracker_valid(r@),
    {
        let r = Tracker { samples: Vec::new(), max: None };
        assert(models(r.samples@) == Seq::<SampleModel>::empty());
        r
    }

    /// The sample that holds the maximum, if any sample was recorded.
    pub fn current(&self) -> (r: Option<Sample>)
        ensures
            option_view(r) == self@.max,
            tracker_valid(self@),
    {
        proof {
            use_type_invariant(self);
        }
        match &self.max {
            Some(m) => Some(m.clone()),
            None => None,
        }
    }

    /// Number of sources with a sample.
    pub fn len(&self) -> (r: usize)
        ensures
            r == self@.samples.len(),
    {
        self.samples.len()
    }

    /// Records `sample` as the latest of its source and recomputes the
    /// maximum; returns the new maximum where it changed.
    pub fn insert(&mut self, sample: Sample) -> (r: Option<Sample>)
        ensures
            final(self)@ == tracked_after(old(self)@, sample@),
            option_view(r) == change_reported(old(self)@, sample@),
            tracker_valid(old(self)@),
            tracker_valid(final(self)@),
    {
        proof {
            use_type_invariant(&*self);
        }
        let ghost old_m = self@;
        let ghost x = sample@;
        let n = self.samples.len();
        let mut i: usize = 0;
        let mut found = false;
        while !found && i < n
            invariant
                n == self.samples@.len(),
                self@ == old_m,
                x == sample@,
                i <= n,
                found ==> i < n && self.samples@[i as int]@.label == x.label,
                !found ==> forall|j: int| 0 <= j < i ==> (#[trigger] self.samples@[j])@.label != x.label,
            decreases n - i + if found { 0int } else { 1int },
        {
            if self.samples[i].label.eq(&sample.label) {
                found = true;
            } else {
                i = i + 1;
            }
        }
        let ghost s = old_m.samples;
        proof {
            assert forall|j: int| 0 <= j < s.len() implies #[trigger] s[j] == self.samples@[j]@ by {}
            if !found {
                assert forall|j: int| 0 <= j < s.len() implies #[trigger] s[j].label != x.label by {
                    assert(s[j] == self.samples@[j]@);
                }
            }
        }
        let mut previous = Tracker::new();
        std::mem::swap(&mut previous, self);
        let Tracker { mut samples, max } = previous;
        if found {
            proof {
                assert(s[i as int].label == x.label);
                let k = choose|k: int| 0 <= k < s.len() && #[trigger] s[k].label == x.label;
                assert(k == i);
            }
            samples.set(i, sample);
            assert(models(samples@) == s.update(i as int, x));
        } else {
            proof {
                assert(!has_label(s, x.label));
            }
            samples.push(sample);
            assert(models(samples@) == s.push(x));
        }
        let new_max = best_sample(&samples);
        let changed = match (&max, &new_max) {
            (Some(a), Some(b)) => !a.same_as(b),
            (None, None) => false,
            _ => true,
        };
        let report = if changed {
            match &new_max {
                Some(m) => Some(m.clone()),
                None => None,
            }
        } else {
            None
        };
        proof {
            lemma_upsert_unique(s, x);
        }
        *self = Tracker { samples, max: new_max };
        report
    }
}

} // verus!
