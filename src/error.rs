use vstd::prelude::*;

verus! {

/// The units of a sensor object are none that a category is known for.
#[derive(Debug)]
pub struct UnknownMetricUnitsError {
    pub units: String,
}

/// A sensor object lacks one of the properties a metric needs.
#[derive(Debug, PartialEq, Eq, Structural)]
pub struct MissingPropertyError {}

/// A property of a sensor object holds a value of the wrong type.
#[derive(Debug, PartialEq, Eq, Structural)]
pub struct BadPropertyTypeError {}

/// Why a sensor object is not a usable metric.
#[derive(Debug)]
pub enum ClassifyError {
    MissingProperty(MissingPropertyError),
    BadPropertyType(BadPropertyTypeError),
    UnknownUnits(UnknownMetricUnitsError),
}

/// A classification error as values.
pub enum ClassifyFault {
    MissingProperty,
    BadPropertyType,
    UnknownUnits(Seq<char>),
}

impl View for ClassifyError {
    type V = ClassifyFault;

    open spec fn view(&self) -> ClassifyFault {
        match self {
            ClassifyError::MissingProperty(_) => ClassifyFault::MissingProperty,
            ClassifyError::BadPropertyType(_) => ClassifyFault::BadPropertyType,
            ClassifyError::UnknownUnits(e) => ClassifyFault::UnknownUnits(e.units@),
        }
    }
}

} // verus!
