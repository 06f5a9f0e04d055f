//! How a record of the fleet becomes a set of labels.

use vstd::prelude::*;
use crate::ec2::{Instance, SpotPrice, Tag};
use crate::gauges::{label_value, labels_fit, pair_names, values_in_order};
use crate::text::{eq_ignore_ascii_case, same_ignoring_ascii_case};

verus! {

/// The label names of the instances family: the identity, the fixed
/// dimensions, then the exposed tags in their declared order.
pub open spec fn instance_label_names(expose_tags: Seq<Seq<char>>) -> Seq<Seq<char>> {
    seq!["id"@, "availability_zone"@, "platform"@, "type"@, "lifecycle"@] + expose_tags
}

/// Whether `tag` is the tag `name`, up to the case of ASCII letters. A tag
/// without a key is no tag of any name.
pub open spec fn tag_matches(tag: Tag, name: Seq<char>) -> bool {
    tag.key matches Some(key) && same_ignoring_ascii_case(name, key@)
}

/// The first tag from position `from` on that matches `name`.
pub open spec fn matching_tag(tags: Seq<Tag>, name: Seq<char>, from: int) -> Option<Tag>
    decreases tags.len() - from,
{
    if from < 0 || from >= tags.len() {
        None
    } else if tag_matches(tags[from], name) {
        Some(tags[from])
    } else {
        matching_tag(tags, name, from + 1)
    }
}

/// The value of the label that exposes the tag `name`: the value of the
/// first matching tag, and the empty text where no tag matches or the tag
/// has no value.
pub open spec fn exposed_value(tags: Seq<Tag>, name: Seq<char>) -> Seq<char> {
    match matching_tag(tags, name, 0) {
        Some(tag) => match tag.value {
            Some(value) => value@,
            None => Seq::empty(),
        },
        None => Seq::empty(),
    }
}

/// Whether the listing gave everything of `instance` that its labels are
/// built from: its tags, its id, its type and its availability zone. An
/// instance that lacks one of them is passed over.
pub open spec fn is_complete(instance: Instance) -> bool {
    &&& instance.tags is Some
    &&& instance.instance_id is Some
    &&& instance.instance_type is Some
    &&& instance.placement matches Some(placement) && placement.availability_zone is Some
}

/// A text that may be missing, with the text that stands in for it.
pub open spec fn text_or(text: Option<String>, fallback: Seq<char>) -> Seq<char> {
    match text {
        Some(t) => t@,
        None => fallback,
    }
}

/// The label values of a complete instance, in the order of the label
/// names.
pub open spec fn instance_values(instance: Instance, expose_tags: Seq<Seq<char>>) -> Seq<
    Seq<char>,
> {
    seq![
        instance.instance_id->0@,
        instance.placement->0.availability_zone->0@,
        text_or(instance.platform, "linux"@),
        instance.instance_type->0@,
        text_or(instance.instance_lifecycle, "ondemand"@),
    ] + Seq::new(expose_tags.len(), |i: int| exposed_value(instance.tags->0@, expose_tags[i]))
}

/// Names and values paired position by position.
pub open spec fn paired(names: Seq<Seq<char>>, values: Seq<Seq<char>>) -> Seq<
    (Seq<char>, Seq<char>),
> {
    Seq::new(names.len(), |i: int| (names[i], values[i]))
}

/// The labels of a complete instance.
pub open spec fn instance_labels(instance: Instance, expose_tags: Seq<Seq<char>>) -> Seq<
    (Seq<char>, Seq<char>),
> {
    paired(instance_label_names(expose_tags), instance_values(instance, expose_tags))
}

/// The platform label of a spot price product.
pub open spec fn platform_of(product: Seq<char>) -> Option<Seq<char>> {
    if product == "Linux/UNIX"@ {
        Some("linux"@)
    } else if product == "Windows"@ {
        Some("windows"@)
    } else {
        None
    }
}

/// The label names of the spot prices family.
pub open spec fn spot_price_label_names() -> Seq<Seq<char>> {
    seq!["availability_zone"@, "platform"@, "type"@]
}

/// Whether the listing gave everything of `price` that its labels are built
/// from.
pub open spec fn is_complete_price(price: SpotPrice) -> bool {
    &&& price.availability_zone is Some
    &&& price.product_description is Some
    &&& price.instance_type is Some
}

/// The label values of a complete spot price. A product that is neither of
/// the two known ones has the empty text for its platform.
pub open spec fn spot_price_values(price: SpotPrice) -> Seq<Seq<char>> {
    seq![
        price.availability_zone->0@,
        match platform_of(price.product_description->0@) {
            Some(platform) => platform,
            None => Seq::empty(),
        },
        price.instance_type->0@,
    ]
}

/// The labels of a complete spot price.
pub open spec fn spot_price_labels(price: SpotPrice) -> Seq<(Seq<char>, Seq<char>)> {
    paired(spot_price_label_names(), spot_price_values(price))
}

/// The value of the label that exposes the tag `name`.
fn exposed_tag_value(tags: &Vec<Tag>, name: &String) -> (value: String)
    ensures
        value@ == exposed_value(tags@, name@),
{
    let mut i: usize = 0;
    while i < tags.len()
        invariant
            i <= tags.len(),
            matching_tag(tags@, name@, 0) == matching_tag(tags@, name@, i as int),
        decreases tags.len() - i,
    {
        let hit = match &tags[i].key {
            Some(key) => eq_ignore_ascii_case(name.as_str(), key.as_str()),
            None => false,
        };
        if hit {
            return match &tags[i].value {
                Some(value) => value.clone(),
                None => String::new(),
            };
        }
        i = i + 1;
    }
    String::new()
}

/// One label.
fn label(name: &str, value: String) -> (pair: (String, String))
    ensures
        pair.deep_view() == (name@, value@),
{
    (name.to_owned(), value)
}

/// The text, or the fallback where it is missing.
fn text_or_else(text: &Option<String>, fallback: &str) -> (chosen: String)
    ensures
        chosen@ == text_or(*text, fallback@),
{
    match text {
        Some(t) => t.clone(),
        None => fallback.to_owned(),
    }
}

/// The label names of the instances family.
pub fn name_instance_labels(expose_tags: &Vec<String>) -> (names: Vec<String>)
    ensures
        names.deep_view() == instance_label_names(expose_tags.deep_view()),
{
    let mut names: Vec<String> = Vec::new();
    names.push("id".to_owned());
    names.push("availability_zone".to_owned());
    names.push("platform".to_owned());
    names.push("type".to_owned());
    names.push("lifecycle".to_owned());
    let ghost expected = instance_label_names(expose_tags.deep_view());
    assert(names.deep_view() =~= expected.subrange(0, 5));
    let mut i: usize = 0;
    while i < expose_tags.len()
        invariant
            i <= expose_tags.len(),
            expected == instance_label_names(expose_tags.deep_view()),
            names.len() == 5 + i,
            names.deep_view() == expected.subrange(0, 5 + i),
        decreases expose_tags.len() - i,
    {
        names.push(expose_tags[i].clone());
        i = i + 1;
        assert(names.deep_view() =~= expected.subrange(0, 5 + i));
    }
    assert(expected.subrange(0, 5 + i) =~= expected);
    names
}

/// The labels of an instance, or `None` for an instance that the listing
/// described without its tags, id, type or availability zone.
pub fn label_instance(instance: &Instance, expose_tags: &Vec<String>) -> (labels: Option<
    Vec<(String, String)>,
>)
    ensures
        labels is Some == is_complete(*instance),
        labels matches Some(l) ==> l.deep_view() == instance_labels(
            *instance,
            expose_tags.deep_view(),
        ),
{
    let tags = match &instance.tags {
        Some(tags) => tags,
        None => {
            return None;
        },
    };
    let id = match &instance.instance_id {
        Some(id) => id.clone(),
        None => {
            return None;
        },
    };
    let kind = match &instance.instance_type {
        Some(kind) => kind.clone(),
        None => {
            return None;
        },
    };
    let zone = match &instance.placement {
        Some(placement) => match &placement.availability_zone {
            Some(zone) => zone.clone(),
            None => {
                return None;
            },
        },
        None => {
            return None;
        },
    };
    let ghost expected = instance_labels(*instance, expose_tags.deep_view());
    let mut labels: Vec<(String, String)> = Vec::new();
    labels.push(label("id", id));
    labels.push(label("availability_zone", zone));
    labels.push(label("platform", text_or_else(&instance.platform, "linux")));
    labels.push(label("type", kind));
    labels.push(label("lifecycle", text_or_else(&instance.instance_lifecycle, "ondemand")));
    assert(labels.deep_view() =~= expected.subrange(0, 5));
    let mut i: usize = 0;
    while i < expose_tags.len()
        invariant
            i <= expose_tags.len(),
            instance.tags == Some(*tags),
            expected == instance_labels(*instance, expose_tags.deep_view()),
            labels.len() == 5 + i,
            labels.deep_view() == expected.subrange(0, 5 + i),
        decreases expose_tags.len() - i,
    {
        let value = exposed_tag_value(tags, &expose_tags[i]);
        labels.push((expose_tags[i].clone(), value));
        i = i + 1;
        assert(labels.deep_view() =~= expected.subrange(0, 5 + i));
    }
    assert(expected.subrange(0, 5 + i) =~= expected);
    Some(labels)
}

/// The platform label of a spot price product, if it is a known one.
pub fn product_to_platform(product: &str) -> (platform: Option<&'static str>)
    ensures
        match platform {
            Some(p) => platform_of(product@) == Some(p@),
            None => platform_of(product@) is None,
        },
{
    let product = product.to_owned();
    let linux = "Linux/UNIX".to_owned();
    let windows = "Windows".to_owned();
    if product.eq(&linux) {
        Some("linux")
    } else if product.eq(&windows) {
        Some("windows")
    } else {
        None
    }
}

/// The label names of the spot prices family.
pub fn name_spot_price_labels() -> (names: Vec<String>)
    ensures
        names.deep_view() == spot_price_label_names(),
{
    let mut names: Vec<String> = Vec::new();
    names.push("availability_zone".to_owned());
    names.push("platform".to_owned());
    names.push("type".to_owned());
    assert(names.deep_view() =~= spot_price_label_names());
    names
}

/// The labels of a spot price, or `None` for one that the listing
/// described without its availability zone, product or instance type.
pub fn label_spot_price(price: &SpotPrice) -> (labels: Option<Vec<(String, String)>>)
    ensures
        labels is Some == is_complete_price(*price),
        labels matches Some(l) ==> l.deep_view() == spot_price_labels(*price),
{
    let zone = match &price.availability_zone {
        Some(zone) => zone.clone(),
        None => {
            return None;
        },
    };
    let platform = match &price.product_description {
        Some(product) => match product_to_platform(product.as_str()) {
            Some(platform) => platform.to_owned(),
            None => String::new(),
        },
        None => {
            return None;
        },
    };
    let kind = match &price.instance_type {
        Some(kind) => kind.clone(),
        None => {
            return None;
        },
    };
    let mut labels: Vec<(String, String)> = Vec::new();
    labels.push(label("availability_zone", zone));
    labels.push(label("platform", platform));
    labels.push(label("type", kind));
    assert(labels.deep_view() =~= spot_price_labels(*price));
    Some(labels)
}

/// In a list of labels without a repeated name, every label has the value
/// of its own pair.
proof fn lemma_label_value_of_pair(pairs: Seq<(Seq<char>, Seq<char>)>, j: int)
    requires
        pair_names(pairs).no_duplicates(),
        0 <= j < pairs.len(),
    ensures
        label_value(pairs, pairs[j].0) == Some(pairs[j].1),
    decreases pairs.len(),
{
    let names = pair_names(pairs);
    if j == pairs.len() - 1 {
    } else {
        assert(names[j] == pairs[j].0);
        assert(names[pairs.len() - 1] == pairs.last().0);
        let rest = pairs.drop_last();
        assert(pair_names(rest) =~= names.drop_last());
        assert(rest[j] == pairs[j]);
        lemma_label_value_of_pair(rest, j);
    }
}

/// Labels that pair a family's names with values fit the family and give
/// it these values.
pub proof fn lemma_paired_labels_fit(names: Seq<Seq<char>>, values: Seq<Seq<char>>)
    requires
        names.no_duplicates(),
        values.len() == names.len(),
    ensures
        labels_fit(names, paired(names, values)),
        values_in_order(names, paired(names, values)) == values,
{
    let pairs = paired(names, values);
    assert(pair_names(pairs) =~= names);
    names.unique_seq_to_set();
    assert forall|j: int| 0 <= j < names.len() implies label_value(pairs, #[trigger] names[j])
        == Some(values[j]) by {
        lemma_label_value_of_pair(pairs, j);
    }
    assert(values_in_order(names, pairs) =~= values);
}

} // verus!
