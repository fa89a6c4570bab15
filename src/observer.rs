use vstd::prelude::*;

use crate::reading::Reading;

verus! {

/// Told of each change of a category's maximum: the label, reading and
/// units of the sample that now holds it.
pub trait Observer {
    fn on_change(&self, label: String, value: Reading, units: String);
}

} // verus!
