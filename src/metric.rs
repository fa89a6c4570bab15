use vstd::prelude::*;

use crate::error::{
    BadPropertyTypeError, ClassifyError, ClassifyFault, MissingPropertyError,
    UnknownMetricUnitsError,
};
use crate::names::{interface_name_ok, is_interface_name};
use crate::reading::Reading;
use crate::sample::{Sample, SampleModel};

verus! {

/// The value of one property of a sensor object.
#[derive(Debug)]
pub enum PropValue {
    Text(String),
    Number(Reading),
    Other,
}

/// A property value as values.
pub enum PropModel {
    Text(Seq<char>),
    Number(Reading),
    Other,
}

impl View for PropValue {
    type V = PropModel;

    open spec fn view(&self) -> PropModel {
        match self {
            PropValue::Text(s) => PropModel::Text(s@),
            PropValue::Number(n) => PropModel::Number(*n),
            PropValue::Other => PropModel::Other,
        }
    }
}

/// A named property of a sensor object.
#[derive(Debug)]
pub struct Property {
    pub name: String,
    pub value: PropValue,
}

impl View for Property {
    type V = (Seq<char>, PropModel);

    open spec fn view(&self) -> (Seq<char>, PropModel) {
        (self.name@, self.value@)
    }
}

pub open spec fn properties_view(p: Seq<Property>) -> Seq<(Seq<char>, PropModel)> {
    p.map_values(|q: Property| q@)
}

/// The value of the first property called `name`.
pub open spec fn lookup(p: Seq<(Seq<char>, PropModel)>, name: Seq<char>) -> Option<PropModel>
    decreases p.len(),
{
    if p.len() == 0 {
        None
    } else if p[0].0 == name {
        Some(p[0].1)
    } else {
        lookup(p.drop_first(), name)
    }
}

/// Where a sensor object lives on the bus: its interface and object path.
#[derive(Debug)]
pub struct DbusInfo {
    pub interface_name: String,
    pub path: String,
}

pub struct DbusInfoModel {
    pub interface_name: Seq<char>,
    pub path: Seq<char>,
}

impl View for DbusInfo {
    type V = DbusInfoModel;

    open spec fn view(&self) -> DbusInfoModel {
        DbusInfoModel { interface_name: self.interface_name@, path: self.path@ }
    }
}

impl Clone for DbusInfo {
    fn clone(&self) -> (r: DbusInfo)
        ensures
            r@ == self@,
    {
        DbusInfo { interface_name: self.interface_name.clone(), path: self.path.clone() }
    }
}

impl DbusInfo {
    pub fn new(interface_name: String, path: String) -> (r: DbusInfo)
        ensures
            r@ == (DbusInfoModel { interface_name: interface_name@, path: path@ }),
    {
        DbusInfo { interface_name, path }
    }
}

/// The reading of a sensor object, with its label and units.
#[derive(Debug)]
pub struct MetricValue {
    pub dbus_info: DbusInfo,
    pub label: String,
    pub units: String,
    pub value: Reading,
}

pub struct MetricValueModel {
    pub dbus_info: DbusInfoModel,
    pub label: Seq<char>,
    pub units: Seq<char>,
    pub value: Reading,
}

impl View for MetricValue {
    type V = MetricValueModel;

    open spec fn view(&self) -> MetricValueModel {
        MetricValueModel {
            dbus_info: self.dbus_info@,
            label: self.label@,
            units: self.units@,
            value: self.value,
        }
    }
}

impl Clone for MetricValue {
    fn clone(&self) -> (r: MetricValue)
        ensures
            r@ == self@,
    {
        MetricValue {
            dbus_info: self.dbus_info.clone(),
            label: self.label.clone(),
            units: self.units.clone(),
            value: self.value,
        }
    }
}

/// The two kinds of metric.
#[derive(Clone, Copy, Debug, PartialEq, Eq, Structural)]
pub enum Category {
    Fan,
    Temperature,
}

/// The category that a units string names, once trimmed.
pub open spec fn units_category(u: Seq<char>) -> Option<Category> {
    if u == "RPM"@ {
        Some(Category::Fan)
    } else if u == "\u{2103}"@ || u == "\u{b0}C"@ || u == "\u{2109}"@ || u == "\u{b0}F"@ {
        Some(Category::Temperature)
    } else {
        None
    }
}

/// What `str::trim` makes of a string.
pub uninterp spec fn trimmed(s: Seq<char>) -> Seq<char>;

/// Relies on `str::trim`: the string without its leading and trailing
/// whitespace, which depends on its characters alone.
#[verifier::external_body]
fn trim_str(s: &str) -> (r: &str)
    ensures
        r@ == trimmed(s@),
{
    s.trim()
}

/// Whether two strings hold the same characters.
fn same_text(a: &str, b: &str) -> (r: bool)
    ensures
        r == (a@ == b@),
{
    let x = a.to_owned();
    let y = b.to_owned();
    x.eq(&y)
}

/// The category that a trimmed units string names.
pub fn category_of_trimmed(t: &str) -> (r: Option<Category>)
    ensures
        r == units_category(t@),
{
    if same_text(t, "RPM") {
        Some(Category::Fan)
    } else if same_text(t, "\u{2103}") || same_text(t, "\u{b0}C") || same_text(t, "\u{2109}")
        || same_text(t, "\u{b0}F") {
        Some(Category::Temperature)
    } else {
        None
    }
}

/// The category of a units string, trimmed first.
pub fn category_of_units(units: &str) -> (r: Option<Category>)
    ensures
        r == units_category(trimmed(units@)),
{
    category_of_trimmed(trim_str(units))
}

/// A classified sensor reading.
#[derive(Debug)]
pub enum Metric {
    Fan(MetricValue),
    Temp(MetricValue),
}

pub struct MetricModel {
    pub category: Category,
    pub value: MetricValueModel,
}

impl View for Metric {
    type V = MetricModel;

    open spec fn view(&self) -> MetricModel {
        match self {
            Metric::Fan(v) => MetricModel { category: Category::Fan, value: v@ },
            Metric::Temp(v) => MetricModel { category: Category::Temperature, value: v@ },
        }
    }
}

impl Clone for Metric {
    fn clone(&self) -> (r: Metric)
        ensures
            r@ == self@,
    {
        match self {
            Metric::Fan(v) => Metric::Fan(v.clone()),
            Metric::Temp(v) => Metric::Temp(v.clone()),
        }
    }
}

/// The text held under `name`, or why there is none.
pub open spec fn text_property(p: Seq<(Seq<char>, PropModel)>, name: Seq<char>) -> Result<
    Seq<char>,
    ClassifyFault,
> {
    match lookup(p, name) {
        None => Err(ClassifyFault::MissingProperty),
        Some(PropModel::Text(s)) => Ok(s),
        Some(_) => Err(ClassifyFault::BadPropertyType),
    }
}

/// The number held under `name`, or why there is none.
pub open spec fn number_property(p: Seq<(Seq<char>, PropModel)>, name: Seq<char>) -> Result<
    Reading,
    ClassifyFault,
> {
    match lookup(p, name) {
        None => Err(ClassifyFault::MissingProperty),
        Some(PropModel::Number(n)) => Ok(n),
        Some(_) => Err(ClassifyFault::BadPropertyType),
    }
}

/// The reading that a property set describes: `Label`, then `Units`, then
/// `Value` are read, and the first that is missing or of the wrong type
/// gives the error.
pub open spec fn metric_value_of(info: DbusInfoModel, p: Seq<(Seq<char>, PropModel)>) -> Result<
    MetricValueModel,
    ClassifyFault,
> {
    match text_property(p, "Label"@) {
        Err(e) => Err(e),
        Ok(label) => match text_property(p, "Units"@) {
            Err(e) => Err(e),
            Ok(units) => match number_property(p, "Value"@) {
                Err(e) => Err(e),
                Ok(value) => Ok(MetricValueModel { dbus_info: info, label, units, value }),
            },
        },
    }
}

/// The metric that a property set describes: its reading, and the category
/// that its trimmed units name.
pub open spec fn classify(info: DbusInfoModel, p: Seq<(Seq<char>, PropModel)>) -> Result<
    MetricModel,
    ClassifyFault,
> {
    match metric_value_of(info, p) {
        Err(e) => Err(e),
        Ok(v) => match units_category(trimmed(v.units)) {
            Some(c) => Ok(MetricModel { category: c, value: v }),
            None => Err(ClassifyFault::UnknownUnits(v.units)),
        },
    }
}

/// A property set with a label, units and a reading classifies by its
/// trimmed units alone: `RPM` makes a fan, the four temperature units make a
/// temperature, and any other units are rejected, naming them.
pub proof fn lemma_classify_by_units(info: DbusInfoModel, p: Seq<(Seq<char>, PropModel)>)
    requires
        metric_value_of(info, p) is Ok,
    ensures
        ({
            let v = metric_value_of(info, p)->Ok_0;
            let u = trimmed(v.units);
            &&& u == "RPM"@ ==> classify(info, p) == Ok::<MetricModel, ClassifyFault>(
                MetricModel { category: Category::Fan, value: v },
            )
            &&& (u == "\u{2103}"@ || u == "\u{b0}C"@ || u == "\u{2109}"@ || u == "\u{b0}F"@)
                ==> classify(info, p) == Ok::<MetricModel, ClassifyFault>(
                MetricModel { category: Category::Temperature, value: v },
            )
            &&& units_category(u) is None ==> classify(info, p) == Err::<MetricModel, ClassifyFault>(
                ClassifyFault::UnknownUnits(v.units),
            )
        }),
{
    reveal_strlit("RPM");
    reveal_strlit("\u{2103}");
    reveal_strlit("\u{b0}C");
    reveal_strlit("\u{2109}");
    reveal_strlit("\u{b0}F");
    assert("RPM"@.len() == 3);
    assert("\u{2103}"@.len() == 1);
    assert("\u{2109}"@.len() == 1);
    assert("\u{b0}C"@.len() == 2);
    assert("\u{b0}F"@.len() == 2);
}

/// The properties a metric needs are each absent or of the right type.
pub open spec fn no_mistyped_property(p: Seq<(Seq<char>, PropModel)>) -> bool {
    &&& text_property(p, "Label"@) != Err::<Seq<char>, ClassifyFault>(ClassifyFault::BadPropertyType)
    &&& text_property(p, "Units"@) != Err::<Seq<char>, ClassifyFault>(ClassifyFault::BadPropertyType)
    &&& number_property(p, "Value"@) != Err::<Reading, ClassifyFault>(ClassifyFault::BadPropertyType)
}

/// A property set without a label, units or a reading is rejected as
/// missing a property, provided no property it does hold has the wrong type
/// (the properties are read in turn, and the first fault is the one told).
pub proof fn lemma_missing_property(info: DbusInfoModel, p: Seq<(Seq<char>, PropModel)>)
    requires
        lookup(p, "Label"@) is None || lookup(p, "Units"@) is None || lookup(p, "Value"@) is None,
        no_mistyped_property(p),
    ensures
        classify(info, p) == Err::<MetricModel, ClassifyFault>(ClassifyFault::MissingProperty),
{
}

/// The first property called `name`.
pub fn find_property<'a>(map: &'a Vec<Property>, name: &str) -> (r: Option<&'a PropValue>)
    ensures
        match r {
            Some(v) => lookup(properties_view(map@), name@) == Some(v@),
            None => lookup(properties_view(map@), name@) == None::<PropModel>,
        },
{
    let n = map.len();
    let mut i: usize = 0;
    assert(properties_view(map@).subrange(0, n as int) == properties_view(map@));
    while i < n
        invariant
            n == map@.len(),
            i <= n,
            lookup(properties_view(map@), name@) == lookup(
                properties_view(map@).subrange(i as int, n as int),
                name@,
            ),
        decreases n - i,
    {
        let ghost rest = properties_view(map@).subrange(i as int, n as int);
        assert(rest[0] == map@[i as int]@);
        if same_text(map[i].name.as_str(), name) {
            return Some(&map[i].value);
        }
        assert(rest.drop_first() == properties_view(map@).subrange(i + 1, n as int));
        i = i + 1;
    }
    None
}

fn text_of(map: &Vec<Property>, name: &str) -> (r: Result<String, ClassifyError>)
    ensures
        match r {
            Ok(s) => text_property(properties_view(map@), name@) == Ok::<Seq<char>, ClassifyFault>(s@),
            Err(e) => text_property(properties_view(map@), name@) == Err::<Seq<char>, ClassifyFault>(e@),
        },
{
    match find_property(map, name) {
        None => Err(ClassifyError::MissingProperty(MissingPropertyError {})),
        Some(PropValue::Text(s)) => Ok(s.clone()),
        Some(_) => Err(ClassifyError::BadPropertyType(BadPropertyTypeError {})),
    }
}

fn number_of(map: &Vec<Property>, name: &str) -> (r: Result<Reading, ClassifyError>)
    ensures
        match r {
            Ok(n) => number_property(properties_view(map@), name@) == Ok::<Reading, ClassifyFault>(n),
            Err(e) => number_property(properties_view(map@), name@) == Err::<Reading, ClassifyFault>(e@),
        },
{
    match find_property(map, name) {
        None => Err(ClassifyError::MissingProperty(MissingPropertyError {})),
        Some(PropValue::Number(n)) => Ok(*n),
        Some(_) => Err(ClassifyError::BadPropertyType(BadPropertyTypeError {})),
    }
}

impl MetricValue {
    /// Reads the label, units and reading of a sensor object.
    pub fn value_from(dbus_info: &DbusInfo, map: &Vec<Property>) -> (r: Result<MetricValue, ClassifyError>)
        ensures
            match r {
                Ok(v) => metric_value_of(dbus_info@, properties_view(map@)) == Ok::<MetricValueModel, ClassifyFault>(v@),
                Err(e) => metric_value_of(dbus_info@, properties_view(map@)) == Err::<MetricValueModel, ClassifyFault>(e@),
            },
    {
        let label = text_of(map, "Label")?;
        let units = text_of(map, "Units")?;
        let value = number_of(map, "Value")?;
        Ok(MetricValue { dbus_info: dbus_info.clone(), label, units, value })
    }

    /// The sample this reading makes.
    pub fn to_sample(&self) -> (r: Sample)
        ensures
            r@ == (SampleModel { label: self.label@, value: self.value, units: self.units@ }),
    {
        Sample { label: self.label.clone(), value: self.value, units: self.units.clone() }
    }

    /// The sample of this source once its reading has changed to `value`:
    /// label and units stay those of the source.
    pub fn with_reading(&self, value: Reading) -> (r: Sample)
        ensures
            r@ == (SampleModel { label: self.label@, value, units: self.units@ }),
    {
        Sample { label: self.label.clone(), value, units: self.units.clone() }
    }
}

impl Metric {
    /// Classifies a sensor object by its properties.
    pub fn metric_from(dbus_info: &DbusInfo, map: &Vec<Property>) -> (r: Result<Metric, ClassifyError>)
        ensures
            match r {
                Ok(m) => classify(dbus_info@, properties_view(map@)) == Ok::<MetricModel, ClassifyFault>(m@),
                Err(e) => classify(dbus_info@, properties_view(map@)) == Err::<MetricModel, ClassifyFault>(e@),
            },
    {
        let value = MetricValue::value_from(dbus_info, map)?;
        match category_of_units(value.units.as_str()) {
            Some(Category::Fan) => Ok(Metric::Fan(value)),
            Some(Category::Temperature) => Ok(Metric::Temp(value)),
            None => {
                let units = value.units.clone();
                Err(ClassifyError::UnknownUnits(UnknownMetricUnitsError { units }))
            },
        }
    }

    /// Classifies a sensor object, `None` where it is no usable metric.
    pub fn try_metric(dbus_info: &DbusInfo, map: &Vec<Property>) -> (r: Option<Metric>)
        ensures
            match r {
                Some(m) => classify(dbus_info@, properties_view(map@)) == Ok::<MetricModel, ClassifyFault>(m@),
                None => classify(dbus_info@, properties_view(map@)) is Err,
            },
    {
        match Metric::metric_from(dbus_info, map) {
            Ok(m) => Some(m),
            Err(_) => None,
        }
    }

    pub fn get_value(&self) -> (r: &MetricValue)
        ensures
            r@ == self@.value,
    {
        match self {
            Metric::Fan(value) => value,
            Metric::Temp(value) => value,
        }
    }

    /// The source to subscribe to for changes of this metric, where the bus
    /// accepts its interface name.
    pub fn listen_target(&self) -> (r: Option<DbusInfo>)
        ensures
            match r {
                Some(info) => is_interface_name(self@.value.dbus_info.interface_name) && info@
                    == self@.value.dbus_info,
                None => !is_interface_name(self@.value.dbus_info.interface_name),
            },
    {
        let info = &self.get_value().dbus_info;
        if interface_name_ok(info.interface_name.as_str()) {
            Some(info.clone())
        } else {
            None
        }
    }

    pub fn category(&self) -> (r: Category)
        ensures
            r == self@.category,
    {
        match self {
            Metric::Fan(_) => Category::Fan,
            Metric::Temp(_) => Category::Temperature,
        }
    }
}

} // verus!
