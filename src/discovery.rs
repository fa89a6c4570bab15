use vstd::prelude::*;

use crate::metric::{
    classify, properties_view, Category, DbusInfo, DbusInfoModel, Metric, MetricModel, PropModel,
    Property,
};

verus! {

/// One interface of one object that the sensor service manages, with the
/// properties it holds.
#[derive(Debug)]
pub struct ManagedInterface {
    pub path: String,
    pub interface_name: String,
    pub properties: Vec<Property>,
}

pub struct ManagedInterfaceModel {
    pub path: Seq<char>,
    pub interface_name: Seq<char>,
    pub properties: Seq<(Seq<char>, PropModel)>,
}

impl View for ManagedInterface {
    type V = ManagedInterfaceModel;

    open spec fn view(&self) -> ManagedInterfaceModel {
        ManagedInterfaceModel {
            path: self.path@,
            interface_name: self.interface_name@,
            properties: properties_view(self.properties@),
        }
    }
}

pub open spec fn interfaces_view(v: Seq<ManagedInterface>) -> Seq<ManagedInterfaceModel> {
    v.map_values(|m: ManagedInterface| m@)
}

pub open spec fn metrics_view(v: Seq<Metric>) -> Seq<MetricModel> {
    v.map_values(|m: Metric| m@)
}

/// `n` occurs in `h` starting at position `i`.
pub open spec fn occurs_at(h: Seq<char>, n: Seq<char>, i: int) -> bool {
    0 <= i && i + n.len() <= h.len() && h.subrange(i, i + n.len()) == n
}

pub open spec fn contains_text(h: Seq<char>, n: Seq<char>) -> bool {
    exists|i: int| occurs_at(h, n, i)
}

/// Paths under which the sensor service publishes aggregates of its own
/// rather than a sensor: those with a `virtual` segment inside them.
pub open spec fn is_virtual_path(p: Seq<char>) -> bool {
    contains_text(p, "/virtual/"@)
}

/// The metrics of category `c` that discovery keeps from `objs`, in order:
/// the entries off virtual paths whose properties classify into `c`.
pub open spec fn discovered(objs: Seq<ManagedInterfaceModel>, c: Category) -> Seq<MetricModel>
    decreases objs.len(),
{
    if objs.len() == 0 {
        Seq::empty()
    } else {
        let prev = discovered(objs.drop_last(), c);
        let o = objs.last();
        if is_virtual_path(o.path) {
            prev
        } else {
            match classify(DbusInfoModel { interface_name: o.interface_name, path: o.path }, o.properties) {
                Ok(m) => if m.category == c {
                    prev.push(m)
                } else {
                    prev
                },
                Err(_) => prev,
            }
        }
    }
}

/// Whether `n` occurs at position `i` of `h`.
fn occurs_at_exec(h: &str, hl: usize, n: &str, nl: usize, i: usize) -> (r: bool)
    requires
        hl == h@.len(),
        nl == n@.len(),
        i + nl <= hl,
    ensures
        r == occurs_at(h@, n@, i as int),
{
    let mut j: usize = 0;
    while j < nl
        invariant
            hl == h@.len(),
            nl == n@.len(),
            i + nl <= hl,
            j <= nl,
            h@.subrange(i as int, i + j) == n@.subrange(0, j as int),
        decreases nl - j,
    {
        if h.get_char(i + j) != n.get_char(j) {
            assert(h@.subrange(i as int, i + nl)[j as int] == h@[i + j]);
            return false;
        }
        assert(h@.subrange(i as int, i + j + 1) == h@.subrange(i as int, i + j).push(h@[i + j]));
        assert(n@.subrange(0, j + 1) == n@.subrange(0, j as int).push(n@[j as int]));
        j = j + 1;
    }
    assert(n@.subrange(0, nl as int) == n@);
    true
}

/// Whether `n` occurs anywhere in `h`.
pub fn text_contains(h: &str, n: &str) -> (r: bool)
    ensures
        r == contains_text(h@, n@),
{
    let hl = h.unicode_len();
    let nl = n.unicode_len();
    if nl > hl {
        return false;
    }
    let mut i: usize = 0;
    let last = hl - nl;
    while i <= last
        invariant
            last == hl - nl,
            hl == h@.len(),
            nl == n@.len(),
            nl <= hl,
            i <= hl - nl + 1,
            forall|k: int| 0 <= k < i ==> !#[trigger] occurs_at(h@, n@, k),
        decreases last + 1 - i,
    {
        if occurs_at_exec(h, hl, n, nl, i) {
            return true;
        }
        if i == last {
            assert forall|k: int| !#[trigger] occurs_at(h@, n@, k) by {
                if 0 <= k <= i {
                }
            }
            return false;
        }
        i = i + 1;
    }
    assert forall|k: int| !#[trigger] occurs_at(h@, n@, k) by {
        if 0 <= k < i {
        }
    }
    false
}

/// Whether `path` holds a sensor service aggregate rather than a sensor.
pub fn is_virtual(path: &str) -> (r: bool)
    ensures
        r == is_virtual_path(path@),
{
    text_contains(path, "/virtual/")
}

/// Classifies every managed interface and parts the usable metrics into
/// fans and temperatures, leaving out the service's own aggregates.
pub fn parse_objects(objects: &Vec<ManagedInterface>) -> (r: (Vec<Metric>, Vec<Metric>))
    ensures
        metrics_view(r.0@) == discovered(interfaces_view(objects@), Category::Fan),
        metrics_view(r.1@) == discovered(interfaces_view(objects@), Category::Temperature),
{
    let mut fans: Vec<Metric> = Vec::new();
    let mut temps: Vec<Metric> = Vec::new();
    let n = objects.len();
    let mut i: usize = 0;
    while i < n
        invariant
            n == objects@.len(),
            i <= n,
            metrics_view(fans@) == discovered(interfaces_view(objects@).take(i as int), Category::Fan),
            metrics_view(temps@) == discovered(
                interfaces_view(objects@).take(i as int),
                Category::Temperature,
            ),
        decreases n - i,
    {
        let ghost seen = interfaces_view(objects@).take(i + 1);
        assert(seen.drop_last() == interfaces_view(objects@).take(i as int));
        assert(seen.last() == objects@[i as int]@);
        let object = &objects[i];
        if !is_virtual(object.path.as_str()) {
            let dbus_info = DbusInfo::new(object.interface_name.clone(), object.path.clone());
            match Metric::try_metric(&dbus_info, &object.properties) {
                Some(metric) => {
                    let ghost before_f = fans@;
                    let ghost before_t = temps@;
                    let ghost m = metric@;
                    match metric {
                        Metric::Fan(_) => fans.push(metric),
                        Metric::Temp(_) => temps.push(metric),
                    }
                    assert(metrics_view(fans@) == if m.category == Category::Fan {
                        metrics_view(before_f).push(m)
                    } else {
                        metrics_view(before_f)
                    });
                    assert(metrics_view(temps@) == if m.category == Category::Temperature {
                        metrics_view(before_t).push(m)
                    } else {
                        metrics_view(before_t)
                    });
                },
                None => {},
            }
        }
        i = i + 1;
    }
    assert(interfaces_view(objects@).take(n as int) == interfaces_view(objects@));
    (fans, temps)
}

} // verus!
