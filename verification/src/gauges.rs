//! The gauge family a poller publishes into, kept in a `prometheus::GaugeVec`.
//!
//! The family is modelled by the label names it was created with and by its
//! series. `prometheus` files a series under a 64-bit key that it computes
//! from the label values, so the model is a map from keys to series, and two
//! lists of label values with one key share a series.

use vstd::prelude::*;
use crate::poller::PollerError;

verus! {

/// A family of gauges with one name and one list of label names.
///
/// The field is a `prometheus::GaugeVec` that has no constant labels: the
/// library creates every family itself, through `GaugeFamily::new`.
#[verifier::external_body]
pub struct GaugeFamily {
    inner: prometheus::GaugeVec,
}

/// A family as it is handed to whoever exposes it. The handle shares the
/// family's series and is meant for reading them: what is stated of a
/// family holds as long as its series change through the family alone.
#[verifier::external_body]
pub struct FamilyHandle {
    pub collector: prometheus::GaugeVec,
}

/// `prometheus::Error`, of which nothing is known but that it is a value.
#[verifier::external_type_specification]
#[verifier::external_body]
pub struct ExPrometheusError(prometheus::Error);

/// The name a family was created with.
pub uninterp spec fn family_name(family: GaugeFamily) -> Seq<char>;

/// The help text a family was created with.
pub uninterp spec fn family_help(family: GaugeFamily) -> Seq<char>;

/// The label names a family was created with, in their order.
pub uninterp spec fn family_label_names(family: GaugeFamily) -> Seq<Seq<char>>;

/// The name of the family that a handle exposes.
pub uninterp spec fn handle_name(handle: FamilyHandle) -> Seq<char>;

/// The help text of the family that a handle exposes.
pub uninterp spec fn handle_help(handle: FamilyHandle) -> Seq<char>;

/// The label names of the family that a handle exposes, in their order.
pub uninterp spec fn handle_label_names(handle: FamilyHandle) -> Seq<Seq<char>>;

/// The series of a family: under each key the label values of the series,
/// in the order of the label names, and the value of its gauge.
pub uninterp spec fn family_series(family: GaugeFamily) -> Map<u64, (Seq<Seq<char>>, int)>;

/// The key under which `prometheus` files the series with these label
/// values (a hash of the values' bytes).
pub uninterp spec fn series_key(values: Seq<Seq<char>>) -> u64;

/// The series of a gauge family by key: label values and gauge value.
pub type SeriesMap = Map<u64, (Seq<Seq<char>>, int)>;

/// Whether `c` may stand in a label name: a letter of `a` to `z` or `A` to
/// `Z`, or an underscore; after the first character also a digit.
pub open spec fn is_label_char(c: char, first: bool) -> bool {
    ||| 0x61 <= c as u32 && c as u32 <= 0x7a
    ||| 0x41 <= c as u32 && c as u32 <= 0x5a
    ||| c == '_'
    ||| !first && 0x30 <= c as u32 && c as u32 <= 0x39
}

/// Whether `name` can be the name of a label.
pub open spec fn is_label_name(name: Seq<char>) -> bool {
    &&& name.len() > 0
    &&& forall|i: int| 0 <= i < name.len() ==> is_label_char(#[trigger] name[i], i == 0)
}

/// Whether `name` can be the name of a family: as a label name, with the
/// colon as one more letter.
pub open spec fn is_family_name(name: Seq<char>) -> bool {
    &&& name.len() > 0
    &&& forall|i: int|
        0 <= i < name.len() ==> is_label_char(#[trigger] name[i], i == 0) || name[i] == ':'
}

/// Whether a family can be created with this name, help text and label
/// names: the help text is not empty, the names are well formed, and no
/// label name comes twice.
pub open spec fn family_accepts(name: Seq<char>, help: Seq<char>, label_names: Seq<Seq<char>>)
    -> bool {
    &&& help.len() > 0
    &&& is_family_name(name)
    &&& forall|i: int| 0 <= i < label_names.len() ==> is_label_name(#[trigger] label_names[i])
    &&& label_names.no_duplicates()
}

/// The names of a list of labels, in its order.
pub open spec fn pair_names(pairs: Seq<(Seq<char>, Seq<char>)>) -> Seq<Seq<char>> {
    pairs.map_values(|pair: (Seq<char>, Seq<char>)| pair.0)
}

/// The value that the label `name` has in `pairs`: that of the last pair of
/// this name, if there is one.
pub open spec fn label_value(pairs: Seq<(Seq<char>, Seq<char>)>, name: Seq<char>) -> Option<
    Seq<char>,
>
    decreases pairs.len(),
{
    if pairs.len() == 0 {
        None
    } else if pairs.last().0 == name {
        Some(pairs.last().1)
    } else {
        label_value(pairs.drop_last(), name)
    }
}

/// Whether `pairs` names exactly the labels `names`: as many different
/// names as `names` has, and every one of `names` among them.
pub open spec fn labels_fit(names: Seq<Seq<char>>, pairs: Seq<(Seq<char>, Seq<char>)>) -> bool {
    &&& pair_names(pairs).to_set().len() == names.len()
    &&& forall|j: int| 0 <= j < names.len() ==> label_value(pairs, #[trigger] names[j]) is Some
}

/// The values that `pairs` gives to the labels `names`, in the order of
/// `names`.
pub open spec fn values_in_order(names: Seq<Seq<char>>, pairs: Seq<(Seq<char>, Seq<char>)>) -> Seq<
    Seq<char>,
> {
    Seq::new(names.len(), |j: int| label_value(pairs, names[j]).unwrap())
}

/// The series after the gauge for `values` is set to `value`: the series
/// that holds the key of `values` gets the value and keeps its label values;
/// where there is none, one is added.
pub open spec fn series_with(
    series: SeriesMap,
    values: Seq<Seq<char>>,
    value: int,
) -> SeriesMap {
    let key = series_key(values);
    if series.dom().contains(key) {
        series.insert(key, (series[key].0, value))
    } else {
        series.insert(key, (values, value))
    }
}

/// Whether every series is filed under the key of its own label values,
/// of which it has `width`.
pub open spec fn well_filed(series: SeriesMap, width: nat) -> bool {
    forall|key: u64| #[trigger]
        series.dom().contains(key) ==> series_key(series[key].0) == key && series[key].0.len()
            == width
}

/// The series without the one filed under the key of `values`.
pub open spec fn series_without(series: SeriesMap, values: Seq<Seq<char>>)
    -> SeriesMap {
    series.remove(series_key(values))
}

/// Whether `listed` lists the series filed under `keys`, one by one: each
/// entry names exactly the labels `names` and gives them the values of its
/// series.
pub open spec fn lists_by_keys(
    listed: Seq<Seq<(Seq<char>, Seq<char>)>>,
    keys: Seq<u64>,
    names: Seq<Seq<char>>,
    series: SeriesMap,
) -> bool {
    &&& keys.len() == listed.len()
    &&& keys.no_duplicates()
    &&& keys.to_set() == series.dom()
    &&& forall|i: int|
        0 <= i < listed.len() ==> labels_fit(names, #[trigger] listed[i]) && values_in_order(
            names,
            listed[i],
        ) == series[keys[i]].0
}

/// Whether `listed` lists every series once, in some order.
pub open spec fn lists_series(
    listed: Seq<Seq<(Seq<char>, Seq<char>)>>,
    names: Seq<Seq<char>>,
    series: SeriesMap,
) -> bool {
    exists|keys: Seq<u64>| #[trigger] lists_by_keys(listed, keys, names, series)
}

/// `GaugeVec::new` on `Opts::new(name, help)`. As its source shows, it
/// succeeds exactly when the help text is not empty, the name and the label
/// names are well formed and no label name comes twice; the new family has
/// this name, this help text, these label names and no series.
#[verifier::external_body]
fn family_create(name: &str, help: &str, label_names: &Vec<String>) -> (made: Result<
    GaugeFamily,
    prometheus::Error,
>)
    ensures
        made is Ok == family_accepts(name@, help@, label_names.deep_view()),
        made matches Ok(family) ==> family_name(family) == name@,
        made matches Ok(family) ==> family_help(family) == help@,
        made matches Ok(family) ==> family_label_names(family) == label_names.deep_view(),
        made matches Ok(family) ==> family_series(family).dom() =~= Set::empty(),
{
    let names: Vec<&str> = label_names.iter().map(|name| name.as_str()).collect();
    match prometheus::GaugeVec::new(prometheus::Opts::new(name, help), &names) {
        Ok(inner) => Ok(GaugeFamily { inner }),
        Err(e) => Err(e),
    }
}

/// `ToString::to_string` of a `prometheus::Error`: its message. Nothing is
/// claimed of the text; where the error wraps one of the operating system,
/// the text is that system's.
#[verifier::external_body]
fn error_text(error: &prometheus::Error) -> (text: String) {
    error.to_string()
}

/// `GaugeVec::get_metric_with` on the label map built from `labels`, then
/// `Gauge::set` on the gauge it hands out. As the source shows, the gauge is
/// found or made exactly when the map names the family's labels; it is the
/// one filed under the key of the values, which keeps the label values it
/// was made with. What the family was created with stays as it is.
#[verifier::external_body]
fn family_set(family: &mut GaugeFamily, labels: &Vec<(String, String)>, value: u32) -> (done: bool)
    ensures
        family_name(*final(family)) == family_name(*old(family)),
        family_help(*final(family)) == family_help(*old(family)),
        family_label_names(*final(family)) == family_label_names(*old(family)),
        done == labels_fit(family_label_names(*old(family)), labels.deep_view()),
        done ==> family_series(*final(family)) == series_with(
            family_series(*old(family)),
            values_in_order(family_label_names(*old(family)), labels.deep_view()),
            value as int,
        ),
        !done ==> family_series(*final(family)) == family_series(*old(family)),
{
    let map = labels.iter().map(|pair| (pair.0.as_str(), pair.1.as_str())).collect();
    match family.inner.get_metric_with(&map) {
        Ok(gauge) => {
            gauge.set(value.into());
            true
        },
        Err(_) => false,
    }
}

/// `GaugeVec::remove` on the label map built from `labels`. As the source
/// shows, it removes the series filed under the key of the values, and fails
/// when the map does not name the family's labels or no series has the key.
/// What the family was created with stays as it is.
#[verifier::external_body]
fn family_remove(family: &mut GaugeFamily, labels: &Vec<(String, String)>) -> (done: bool)
    ensures
        family_name(*final(family)) == family_name(*old(family)),
        family_help(*final(family)) == family_help(*old(family)),
        family_label_names(*final(family)) == family_label_names(*old(family)),
        done == (labels_fit(family_label_names(*old(family)), labels.deep_view())
            && family_series(*old(family)).dom().contains(
            series_key(values_in_order(family_label_names(*old(family)), labels.deep_view())),
        )),
        done ==> family_series(*final(family)) == series_without(
            family_series(*old(family)),
            values_in_order(family_label_names(*old(family)), labels.deep_view()),
        ),
        !done ==> family_series(*final(family)) == family_series(*old(family)),
{
    let map = labels.iter().map(|pair| (pair.0.as_str(), pair.1.as_str())).collect();
    family.inner.remove(&map).is_ok()
}

/// `Collector::collect` on the family, each series turned into its list of
/// labels. Every series is listed once; the order of the series is not
/// fixed.
#[verifier::external_body]
fn family_snapshot(family: &GaugeFamily) -> (listed: Vec<Vec<(String, String)>>)
    ensures
        lists_series(listed.deep_view(), family_label_names(*family), family_series(*family)),
{
    let mut listed = Vec::new();
    for metrics in prometheus::core::Collector::collect(&family.inner).iter() {
        for metric in metrics.get_metric().iter() {
            let labels = metric.get_label().iter();
            listed.push(labels.map(|l| (l.get_name().to_owned(), l.get_value().to_owned())).collect());
        }
    }
    listed
}

/// `Clone::clone` on the `GaugeVec`: another handle on the same series. As
/// the source shows, the clone shares all there is of the family, so it
/// has the name, the help text and the label names that the family was
/// created with. Nothing is claimed of the series as the handle shows
/// them: they change with the family, while the handle stays the value it
/// is.
#[verifier::external_body]
fn family_handle(family: &GaugeFamily) -> (handle: FamilyHandle)
    ensures
        handle_name(handle) == family_name(*family),
        handle_help(handle) == family_help(*family),
        handle_label_names(handle) == family_label_names(*family),
{
    FamilyHandle { collector: family.inner.clone() }
}

/// An error of the metrics library is an `UnknownError` with the message
/// of the error.
impl From<prometheus::Error> for PollerError {
    fn from(error: prometheus::Error) -> (class: PollerError)
        ensures
            class is UnknownError,
    {
        PollerError::UnknownError(error_text(&error))
    }
}

/// The conversion has no spec function: the message is not modelled.
impl vstd::std_specs::convert::FromSpecImpl<prometheus::Error> for PollerError {
    open spec fn obeys_from_spec() -> bool {
        false
    }

    open spec fn from_spec(error: prometheus::Error) -> PollerError {
        arbitrary()
    }
}

impl FamilyHandle {
    /// The name of the family that the handle exposes.
    pub open spec fn name(self) -> Seq<char> {
        handle_name(self)
    }

    /// The help text of the family that the handle exposes.
    pub open spec fn help(self) -> Seq<char> {
        handle_help(self)
    }

    /// The label names of the family that the handle exposes.
    pub open spec fn label_names(self) -> Seq<Seq<char>> {
        handle_label_names(self)
    }

    /// Whether the handle exposes a family that is described as `family`
    /// is: by its name, its help text and its label names.
    pub open spec fn exposes(self, family: GaugeFamily) -> bool {
        &&& self.name() == family.name()
        &&& self.help() == family.help()
        &&& self.label_names() == family.label_names()
    }
}

impl GaugeFamily {
    /// The name of the family.
    pub open spec fn name(self) -> Seq<char> {
        family_name(self)
    }

    /// The help text of the family.
    pub open spec fn help(self) -> Seq<char> {
        family_help(self)
    }

    /// The label names of the family.
    pub open spec fn label_names(self) -> Seq<Seq<char>> {
        family_label_names(self)
    }

    /// Whether the family is described as `other` is: by its name, its
    /// help text and its label names. A family is described as it was
    /// created, whatever becomes of its series.
    pub open spec fn described_as(self, other: GaugeFamily) -> bool {
        &&& self.name() == other.name()
        &&& self.help() == other.help()
        &&& self.label_names() == other.label_names()
    }

    /// The series of the family by key.
    pub open spec fn series(self) -> SeriesMap {
        family_series(self)
    }

    /// Whether the family is in order: no label name comes twice, and every
    /// series is filed under the key of its own label values, of which it
    /// has one for each label name.
    pub open spec fn well_filed(self) -> bool {
        &&& self.label_names().no_duplicates()
        &&& well_filed(self.series(), self.label_names().len())
    }

    /// A new family without series. It can be created exactly when
    /// `family_accepts` says so; a refusal is an `UnknownError` with the
    /// message of the refusal.
    pub fn new(name: &str, help: &str, label_names: &Vec<String>) -> (made: Result<
        GaugeFamily,
        PollerError,
    >)
        ensures
            made is Ok == family_accepts(name@, help@, label_names.deep_view()),
            made matches Ok(family) ==> {
                &&& family.name() == name@
                &&& family.help() == help@
                &&& family.label_names() == label_names.deep_view()
                &&& family.series() == SeriesMap::empty()
                &&& family.well_filed()
            },
            made matches Err(e) ==> e is UnknownError,
    {
        match family_create(name, help, label_names) {
            Ok(family) => {
                assert(family.series() =~= SeriesMap::empty());
                Ok(family)
            },
            Err(e) => Err(PollerError::from(e)),
        }
    }

    /// Sets the gauge of the series that `labels` describes to `value`,
    /// adding the series if need be. Nothing is done, and `false` returned,
    /// when `labels` does not name exactly the labels of the family.
    pub fn set(&mut self, labels: &Vec<(String, String)>, value: u32) -> (done: bool)
        ensures
            final(self).described_as(*old(self)),
            done == labels_fit(old(self).label_names(), labels.deep_view()),
            final(self).series() == (if done {
                series_with(
                    old(self).series(),
                    values_in_order(old(self).label_names(), labels.deep_view()),
                    value as int,
                )
            } else {
                old(self).series()
            }),
            old(self).well_filed() ==> final(self).well_filed(),
    {
        let done = family_set(self, labels, value);
        proof {
            if done && old(self).well_filed() {
                let values = values_in_order(old(self).label_names(), labels.deep_view());
                assert(values.len() == old(self).label_names().len());
                assert forall|key: u64| #[trigger]
                    self.series().dom().contains(key) implies series_key(self.series()[key].0)
                    == key && self.series()[key].0.len() == self.label_names().len() by {
                    if key != series_key(values) {
                        assert(old(self).series().dom().contains(key));
                    } else if old(self).series().dom().contains(key) {
                        assert(self.series()[key].0 == old(self).series()[key].0);
                    }
                }
                assert(self.well_filed());
            }
            if !done && old(self).well_filed() {
                assert(self.series() == old(self).series());
                assert(self.label_names() == old(self).label_names());
                assert(self.well_filed());
            }
        }
        done
    }

    /// Removes the series that `labels` describes. Nothing is done, and
    /// `false` returned, when `labels` does not name exactly the labels of
    /// the family or there is no such series.
    pub fn remove(&mut self, labels: &Vec<(String, String)>) -> (done: bool)
        ensures
            final(self).described_as(*old(self)),
            done == (labels_fit(old(self).label_names(), labels.deep_view())
                && old(self).series().dom().contains(
                series_key(values_in_order(old(self).label_names(), labels.deep_view())),
            )),
            final(self).series() == (if done {
                series_without(
                    old(self).series(),
                    values_in_order(old(self).label_names(), labels.deep_view()),
                )
            } else {
                old(self).series()
            }),
            old(self).well_filed() ==> final(self).well_filed(),
    {
        let done = family_remove(self, labels);
        proof {
            if done && old(self).well_filed() {
                assert forall|key: u64| #[trigger]
                    self.series().dom().contains(key) implies series_key(self.series()[key].0)
                    == key && self.series()[key].0.len() == self.label_names().len() by {
                    assert(old(self).series().dom().contains(key));
                }
                assert(self.well_filed());
            }
            if !done && old(self).well_filed() {
                assert(self.series() == old(self).series());
                assert(self.well_filed());
            }
        }
        done
    }

    /// The labels of every series, each series once, in no particular
    /// order.
    pub fn snapshot(&self) -> (listed: Vec<Vec<(String, String)>>)
        ensures
            lists_series(listed.deep_view(), self.label_names(), self.series()),
    {
        family_snapshot(self)
    }

    /// A handle on the family for whoever exposes it: it exposes the
    /// family under the name, the help text and the label names that the
    /// family was created with.
    pub fn handle(&self) -> (handle: FamilyHandle)
        ensures
            handle.exposes(*self),
    {
        family_handle(self)
    }
}

} // verus!
