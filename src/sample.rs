use vstd::prelude::*;

use crate::reading::Reading;

verus! {

/// What a sample is, as values: its label, its reading and its units.
pub struct SampleModel {
    pub label: Seq<char>,
    pub value: Reading,
    pub units: Seq<char>,
}

/// Code-point lexicographic order on labels: `a` comes strictly before `b`.
pub open spec fn label_less(a: Seq<char>, b: Seq<char>) -> bool
    decreases a.len(),
{
    if a.len() == 0 {
        b.len() > 0
    } else if b.len() == 0 {
        false
    } else if a[0] != b[0] {
        (a[0] as int) < (b[0] as int)
    } else {
        label_less(a.drop_first(), b.drop_first())
    }
}

/// `a` wins over `b` as the maximum: a higher reading, or an equal reading
/// and a label that comes first.
pub open spec fn beats(a: SampleModel, b: SampleModel) -> bool {
    a.value.key() > b.value.key() || (a.value.key() == b.value.key() && label_less(
        a.label,
        b.label,
    ))
}

/// The latest reading of one sensor.
#[derive(Debug)]
pub struct Sample {
    pub label: String,
    pub value: Reading,
    pub units: String,
}

impl View for Sample {
    type V = SampleModel;

    open spec fn view(&self) -> SampleModel {
        SampleModel { label: self.label@, value: self.value, units: self.units@ }
    }
}

pub open spec fn option_view(o: Option<Sample>) -> Option<SampleModel> {
    match o {
        Some(s) => Some(s@),
        None => None,
    }
}

impl Clone for Sample {
    fn clone(&self) -> (r: Sample)
        ensures
            r@ == self@,
    {
        Sample { label: self.label.clone(), value: self.value, units: self.units.clone() }
    }
}

impl Sample {
    pub fn new(label: String, value: Reading, units: String) -> (r: Sample)
        ensures
            r@ == (SampleModel { label: label@, value, units: units@ }),
    {
        Sample { label, value, units }
    }

    /// Whether the two samples hold the same label, reading and units.
    pub fn same_as(&self, other: &Sample) -> (r: bool)
        ensures
            r == (self@ == other@),
    {
        self.value == other.value && self.label == other.label && self.units == other.units
    }

    /// Whether `self` wins over `other` as the maximum.
    pub fn beats(&self, other: &Sample) -> (r: bool)
        ensures
            r == beats(self@, other@),
    {
        if self.value.exceeds(&other.value) {
            true
        } else if other.value.exceeds(&self.value) {
            false
        } else {
            label_before(self.label.as_str(), other.label.as_str())
        }
    }
}

proof fn lemma_label_less_suffix(a: Seq<char>, b: Seq<char>, i: int)
    requires
        0 <= i <= a.len(),
        i <= b.len(),
        a.subrange(0, i) == b.subrange(0, i),
    ensures
        label_less(a, b) == label_less(a.subrange(i, a.len() as int), b.subrange(i, b.len() as int)),
    decreases i,
{
    if i > 0 {
        assert(a[0] == a.subrange(0, i)[0]);
        assert(b[0] == b.subrange(0, i)[0]);
        assert(a.drop_first().subrange(0, i - 1) == a.subrange(0, i).drop_first());
        assert(b.drop_first().subrange(0, i - 1) == b.subrange(0, i).drop_first());
        lemma_label_less_suffix(a.drop_first(), b.drop_first(), i - 1);
        assert(a.drop_first().subrange(i - 1, a.len() - 1) == a.subrange(i, a.len() as int));
        assert(b.drop_first().subrange(i - 1, b.len() - 1) == b.subrange(i, b.len() as int));
    } else {
        assert(a.subrange(0, a.len() as int) == a);
        assert(b.subrange(0, b.len() as int) == b);
    }
}

/// Of two labels, at most one comes before the other.
pub proof fn lemma_label_less_asymmetric(a: Seq<char>, b: Seq<char>)
    ensures
        !(label_less(a, b) && label_less(b, a)),
    decreases a.len(),
{
    if a.len() > 0 && b.len() > 0 && a[0] == b[0] {
        lemma_label_less_asymmetric(a.drop_first(), b.drop_first());
    }
}

/// Of two different labels, one comes before the other.
pub proof fn lemma_label_less_total(a: Seq<char>, b: Seq<char>)
    requires
        a != b,
    ensures
        label_less(a, b) || label_less(b, a),
    decreases a.len(),
{
    if a.len() == 0 {
        assert(b.len() > 0) by {
            if b.len() == 0 {
                assert(a =~= b);
            }
        }
    } else if b.len() > 0 && a[0] == b[0] {
        if a.drop_first() == b.drop_first() {
            assert(a =~= seq![a[0]] + a.drop_first());
            assert(b =~= seq![b[0]] + b.drop_first());
        }
        lemma_label_less_total(a.drop_first(), b.drop_first());
    } else if b.len() > 0 {
        assert((a[0] as int) != (b[0] as int));
    }
}

/// The order on labels is transitive.
pub proof fn lemma_label_less_transitive(a: Seq<char>, b: Seq<char>, c: Seq<char>)
    requires
        label_less(a, b),
        label_less(b, c),
    ensures
        label_less(a, c),
    decreases a.len(),
{
    if a.len() > 0 && b.len() > 0 && c.len() > 0 && a[0] == b[0] && b[0] == c[0] {
        lemma_label_less_transitive(a.drop_first(), b.drop_first(), c.drop_first());
    }
}

/// Of two samples, at most one beats the other.
pub proof fn lemma_beats_asymmetric(a: SampleModel, b: SampleModel)
    ensures
        !(beats(a, b) && beats(b, a)),
{
    lemma_label_less_asymmetric(a.label, b.label);
}

/// Of two samples with different labels, one beats the other.
pub proof fn lemma_beats_total(a: SampleModel, b: SampleModel)
    requires
        a.label != b.label,
    ensures
        beats(a, b) || beats(b, a),
{
    lemma_label_less_total(a.label, b.label);
}

/// Beating is transitive.
pub proof fn lemma_beats_transitive(a: SampleModel, b: SampleModel, c: SampleModel)
    requires
        beats(a, b),
        beats(b, c),
    ensures
        beats(a, c),
{
    if a.value.key() == b.value.key() && b.value.key() == c.value.key() {
        lemma_label_less_transitive(a.label, b.label, c.label);
    }
}

/// Whether label `a` comes strictly before label `b` in code-point order.
pub fn label_before(a: &str, b: &str) -> (r: bool)
    ensures
        r == label_less(a@, b@),
{
    let na = a.unicode_len();
    let nb = b.unicode_len();
    let mut i: usize = 0;
    while i < na && i < nb
        invariant
            na == a@.len(),
            nb == b@.len(),
            i <= na,
            i <= nb,
            a@.subrange(0, i as int) == b@.subrange(0, i as int),
        decreases na - i,
    {
        let ca = a.get_char(i);
        let cb = b.get_char(i);
        if ca != cb {
            proof {
                lemma_label_less_suffix(a@, b@, i as int);
                let sa = a@.subrange(i as int, a@.len() as int);
                let sb = b@.subrange(i as int, b@.len() as int);
                assert(sa[0] == ca && sb[0] == cb);
            }
            return (ca as u32) < (cb as u32);
        }
        assert(a@.subrange(0, i + 1) == a@.subrange(0, i as int).push(ca));
        assert(b@.subrange(0, i + 1) == b@.subrange(0, i as int).push(cb));
        i = i + 1;
    }
    proof {
        lemma_label_less_suffix(a@, b@, i as int);
    }
    i == na && i < nb
}

} // verus!
