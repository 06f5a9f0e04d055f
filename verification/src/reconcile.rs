//! Bringing a gauge family in line with what a pass over a listing
//! observed: everything observed has its gauge set to one, and what the
//! family held under an identity that was not observed is removed, but
//! only once the listing was fetched to its end.

use vstd::prelude::*;
use crate::gauges::{
    label_value, labels_fit, lists_by_keys, series_key, series_with, values_in_order, well_filed,
    GaugeFamily, SeriesMap,
};

verus! {

/// The identity of what a series stands for: the first `width` of its
/// label values.
pub open spec fn id_of(values: Seq<Seq<char>>, width: nat) -> Seq<Seq<char>> {
    values.take(width as int)
}

/// The series after a gauge was set to one for each of `observed`, one
/// after the other.
pub open spec fn upserted(series: SeriesMap, observed: Seq<Seq<Seq<char>>>) -> SeriesMap
    decreases observed.len(),
{
    if observed.len() == 0 {
        series
    } else {
        series_with(upserted(series, observed.drop_last()), observed.last(), 1)
    }
}

/// The identities that occur in `observed`.
pub open spec fn seen_ids(observed: Seq<Seq<Seq<char>>>, width: nat) -> Set<Seq<Seq<char>>> {
    Set::new(
        |id: Seq<Seq<char>>|
            exists|i: int| 0 <= i < observed.len() && id_of(#[trigger] observed[i], width) == id,
    )
}

/// The keys of the series of `snapshot` whose identity does not occur in
/// `observed`.
pub open spec fn stale_keys(snapshot: SeriesMap, observed: Seq<Seq<Seq<char>>>, width: nat) -> Set<
    u64,
> {
    Set::new(
        |key: u64|
            snapshot.dom().contains(key) && !seen_ids(observed, width).contains(
                id_of(snapshot[key].0, width),
            ),
    )
}

/// The series after a pass that ran to its end: everything observed is set
/// to one, and what the snapshot held under an identity that was not
/// observed is removed.
pub open spec fn committed(snapshot: SeriesMap, observed: Seq<Seq<Seq<char>>>, width: nat)
    -> SeriesMap {
    upserted(snapshot, observed).remove_keys(stale_keys(snapshot, observed, width))
}

/// The series after a pass: committed if the fetch ran to its end, and
/// otherwise with nothing removed.
pub open spec fn reconciled(
    snapshot: SeriesMap,
    observed: Seq<Seq<Seq<char>>>,
    complete: bool,
    width: nat,
) -> SeriesMap {
    if complete {
        committed(snapshot, observed, width)
    } else {
        upserted(snapshot, observed)
    }
}

/// One reconciliation pass in progress: the series as they were when the
/// pass began, what was observed since, and the labels of the series that
/// are to be removed if the pass runs to its end.
pub struct ReconciliationPass {
    id_names: Vec<String>,
    pending: Vec<Vec<(String, String)>>,
    keys: Ghost<Seq<u64>>,
    snapshot: Ghost<SeriesMap>,
    observed: Ghost<Seq<Seq<Seq<char>>>>,
}

/// The value that the label `name` has in `pairs`, if it has one.
fn find_label<'a>(pairs: &'a Vec<(String, String)>, name: &String) -> (found: Option<&'a String>)
    ensures
        match found {
            Some(value) => label_value(pairs.deep_view(), name@) == Some(value@),
            None => label_value(pairs.deep_view(), name@) is None,
        },
{
    let ghost all = pairs.deep_view();
    let mut i: usize = pairs.len();
    assert(all.subrange(0, i as int) =~= all);
    while i > 0
        invariant
            i <= pairs.len(),
            all == pairs.deep_view(),
            label_value(all, name@) == label_value(all.subrange(0, i as int), name@),
        decreases i,
    {
        let ghost upto = all.subrange(0, i as int);
        i = i - 1;
        assert(upto.last() == all[i as int]);
        assert(upto.drop_last() =~= all.subrange(0, i as int));
        if pairs[i].0.eq(name) {
            return Some(&pairs[i].1);
        }
    }
    None
}

/// Whether two lists of labels give the same values to the labels
/// `id_names`.
fn same_identity(
    a: &Vec<(String, String)>,
    b: &Vec<(String, String)>,
    id_names: &Vec<String>,
) -> (same: bool)
    ensures
        same == forall|j: int|
            0 <= j < id_names@.len() ==> label_value(a.deep_view(), #[trigger] id_names@[j]@)
                == label_value(b.deep_view(), id_names@[j]@),
{
    let mut j: usize = 0;
    while j < id_names.len()
        invariant
            j <= id_names@.len(),
            forall|m: int|
                0 <= m < j ==> label_value(a.deep_view(), #[trigger] id_names@[m]@) == label_value(
                    b.deep_view(),
                    id_names@[m]@,
                ),
        decreases id_names@.len() - j,
    {
        let same = match (find_label(a, &id_names[j]), find_label(b, &id_names[j])) {
            (Some(x), Some(y)) => x.eq(y),
            (None, None) => true,
            _ => false,
        };
        if !same {
            return false;
        }
        j = j + 1;
    }
    true
}

/// Two lists of labels that fit a family give the same values to its
/// first labels exactly when they have the same identity.
proof fn lemma_same_identity(
    names: Seq<Seq<char>>,
    id_names: Seq<Seq<char>>,
    a: Seq<(Seq<char>, Seq<char>)>,
    b: Seq<(Seq<char>, Seq<char>)>,
)
    requires
        id_names.len() <= names.len(),
        names.take(id_names.len() as int) == id_names,
        labels_fit(names, a),
        labels_fit(names, b),
    ensures
        (forall|j: int|
            0 <= j < id_names.len() ==> label_value(a, #[trigger] id_names[j]) == label_value(
                b,
                id_names[j],
            )) <==> id_of(values_in_order(names, a), id_names.len()) == id_of(
            values_in_order(names, b),
            id_names.len(),
        ),
{
    let width = id_names.len();
    let va = values_in_order(names, a);
    let vb = values_in_order(names, b);
    assert forall|j: int| 0 <= j < width implies names[j] == #[trigger] id_names[j] by {
        assert(names.take(width as int)[j] == names[j]);
    }
    assert forall|j: int| 0 <= j < width implies label_value(a, #[trigger] id_names[j]) == Some(
        va[j],
    ) && label_value(b, id_names[j]) == Some(vb[j]) by {
        assert(names[j] == id_names[j]);
        assert(label_value(a, names[j]) is Some);
        assert(label_value(b, names[j]) is Some);
    }
    if forall|j: int|
        0 <= j < width ==> label_value(a, #[trigger] id_names[j]) == label_value(b, id_names[j]) {
        assert forall|j: int| 0 <= j < width implies va.take(width as int)[j] == vb.take(
            width as int,
        )[j] by {
            assert(label_value(a, id_names[j]) == label_value(b, id_names[j]));
        }
        assert(va.take(width as int) =~= vb.take(width as int));
    }
    if id_of(va, width) == id_of(vb, width) {
        assert forall|j: int| 0 <= j < width implies label_value(a, #[trigger] id_names[j])
            == label_value(b, id_names[j]) by {
            assert(va.take(width as int)[j] == vb.take(width as int)[j]);
        }
    }
}

/// An identity joins those of what was observed with it, and no other
/// does.
proof fn lemma_seen_ids_push(observed: Seq<Seq<Seq<char>>>, values: Seq<Seq<char>>, width: nat)
    ensures
        forall|id: Seq<Seq<char>>|
            #![trigger seen_ids(observed.push(values), width).contains(id)]
            #![trigger seen_ids(observed, width).contains(id)]
            seen_ids(observed.push(values), width).contains(id) <==> (seen_ids(observed, width).contains(id)
                || id == id_of(values, width)),
{
    let more = observed.push(values);
    assert forall|id: Seq<Seq<char>>| seen_ids(more, width).contains(id) <==> (seen_ids(observed, width).contains(id)
        || id == id_of(values, width)) by {
        if seen_ids(more, width).contains(id) {
            let i = choose|i: int| 0 <= i < more.len() && id_of(#[trigger] more[i], width) == id;
            if i < observed.len() {
                assert(id_of(observed[i], width) == id);
            }
        }
        if seen_ids(observed, width).contains(id) {
            let i = choose|i: int| 0 <= i < observed.len() && id_of(#[trigger] observed[i], width) == id;
            assert(id_of(more[i], width) == id);
        }
        if id == id_of(values, width) {
            assert(id_of(more[observed.len() as int], width) == id);
        }
    }
}

/// Setting one gauge after some others is setting them all in a row.
proof fn lemma_upserted_push(series: SeriesMap, observed: Seq<Seq<Seq<char>>>, values: Seq<Seq<char>>)
    ensures
        upserted(series, observed.push(values)) == series_with(
            upserted(series, observed),
            values,
            1,
        ),
{
    assert(observed.push(values).drop_last() =~= observed);
}

impl ReconciliationPass {
    /// The series as they were when the pass began.
    pub closed spec fn snapshot(&self) -> SeriesMap {
        self.snapshot@
    }

    /// The label values of what was observed so far, in order.
    pub closed spec fn observed(&self) -> Seq<Seq<Seq<char>>> {
        self.observed@
    }

    /// The number of labels that make up the identity: the first so many
    /// of the family's labels.
    pub closed spec fn width(&self) -> nat {
        self.id_names@.len()
    }

    /// Whether the pass has its books in order for a family with the label
    /// names `names`: the first labels are the identity, and the pending
    /// labels are those of the stale series of the snapshot, each once.
    pub closed spec fn tracks(&self, names: Seq<Seq<char>>) -> bool {
        let width = self.width();
        &&& width <= names.len()
        &&& names.take(width as int) == self.id_names.deep_view()
        &&& well_filed(self.snapshot@, names.len())
        &&& self.keys@.len() == self.pending@.len()
        &&& self.keys@.no_duplicates()
        &&& self.keys@.to_set() == stale_keys(self.snapshot@, self.observed@, width)
        &&& forall|i: int|
            0 <= i < self.pending@.len() ==> labels_fit(names, #[trigger] self.pending.deep_view()[i])
                && values_in_order(names, self.pending.deep_view()[i])
                == self.snapshot@[self.keys@[i]].0
    }

    /// Whether this is a pass over `family` in progress: the family is in
    /// order, and its series are those of the snapshot with everything
    /// observed set to one.
    pub open spec fn follows(&self, family: GaugeFamily) -> bool {
        &&& family.well_filed()
        &&& self.tracks(family.label_names())
        &&& family.series() == upserted(self.snapshot(), self.observed())
    }

    /// Takes note of something observed with the labels `labels`, which
    /// give the label values `values`: what is pending under its identity
    /// is pending no more.
    fn mark_seen(
        &mut self,
        labels: &Vec<(String, String)>,
        Ghost(names): Ghost<Seq<Seq<char>>>,
        Ghost(values): Ghost<Seq<Seq<char>>>,
    )
        requires
            old(self).tracks(names),
            labels_fit(names, labels.deep_view()),
            values == values_in_order(names, labels.deep_view()),
        ensures
            final(self).tracks(names),
            final(self).width() == old(self).width(),
            final(self).snapshot() == old(self).snapshot(),
            final(self).observed() == old(self).observed().push(values),
    {
        let ghost width = self.width();
        let ghost ident = id_of(values, width);
        let ghost all = self.pending.deep_view();
        let ghost keys = self.keys@;
        let ghost snapshot = self.snapshot@;
        let mut kept: Vec<Vec<(String, String)>> = Vec::new();
        let ghost mut kept_keys: Seq<u64> = Seq::empty();
        let count = self.pending.len();
        let mut i: usize = 0;
        while i < count
            invariant
                i <= count,
                count == all.len(),
                keys.len() == count,
                keys.no_duplicates(),
                width == self.id_names@.len(),
                width <= names.len(),
                names.take(width as int) == self.id_names.deep_view(),
                well_filed(snapshot, names.len()),
                labels_fit(names, labels.deep_view()),
                values == values_in_order(names, labels.deep_view()),
                ident == id_of(values, width),
                keys.to_set() == stale_keys(snapshot, old(self).observed@, width),
                self.pending@.len() == count,
                self.snapshot@ == snapshot,
                self.observed@ == old(self).observed@,
                forall|j: int| i <= j < count ==> self.pending@[j].deep_view() == all[j],
                forall|j: int|
                    0 <= j < count ==> labels_fit(names, #[trigger] all[j]) && values_in_order(
                        names,
                        all[j],
                    ) == snapshot[keys[j]].0,
                kept_keys.len() == kept@.len(),
                kept_keys.no_duplicates(),
                forall|m: int|
                    0 <= m < kept@.len() ==> labels_fit(names, #[trigger] kept.deep_view()[m])
                        && values_in_order(names, kept.deep_view()[m])
                        == snapshot[kept_keys[m]].0,
                forall|key: u64|
                    kept_keys.contains(key) <==> exists|j: int|
                        0 <= j < i && #[trigger] keys[j] == key && id_of(snapshot[key].0, width) != ident,
            decreases count - i,
        {
            let mut entry: Vec<(String, String)> = Vec::new();
            std::mem::swap(&mut self.pending[i], &mut entry);
            assert(entry.deep_view() == all[i as int]);
            let same = same_identity(&entry, labels, &self.id_names);
            proof {
                let key = keys[i as int];
                assert(labels_fit(names, all[i as int]));
                assert(keys.to_set().contains(key));
                assert(snapshot.dom().contains(key));
                let ids = self.id_names.deep_view();
                lemma_same_identity(names, ids, all[i as int], labels.deep_view());
                assert(ids.len() == width);
                assert forall|j: int| 0 <= j < width implies #[trigger] ids[j]
                    == self.id_names@[j]@ by {}
                assert(values_in_order(names, all[i as int]) == snapshot[key].0);
                let alike = forall|j: int|
                    0 <= j < ids.len() ==> label_value(all[i as int], #[trigger] ids[j])
                        == label_value(labels.deep_view(), ids[j]);
                if same {
                    assert forall|j: int| 0 <= j < ids.len() implies label_value(
                        all[i as int],
                        #[trigger] ids[j],
                    ) == label_value(labels.deep_view(), ids[j]) by {
                        assert(ids[j] == self.id_names@[j]@);
                    }
                }
                if alike {
                    assert forall|j: int| 0 <= j < self.id_names@.len() implies label_value(
                        entry.deep_view(),
                        #[trigger] self.id_names@[j]@,
                    ) == label_value(labels.deep_view(), self.id_names@[j]@) by {
                        assert(ids[j] == self.id_names@[j]@);
                    }
                }
                assert(same == alike);
                assert(same == (id_of(snapshot[key].0, width) == ident));
            }
            let ghost before = kept_keys;
            let ghost before_view = kept.deep_view();
            if !same {
                kept.push(entry);
                proof {
                    kept_keys = kept_keys.push(keys[i as int]);
                    assert(!before.contains(keys[i as int])) by {
                        if before.contains(keys[i as int]) {
                            let j = choose|j: int|
                                0 <= j < i && #[trigger] keys[j] == keys[i as int] && id_of(
                                    snapshot[keys[i as int]].0,
                                    width,
                                ) != ident;
                            assert(keys[j] == keys[i as int]);
                        }
                    }
                    assert forall|m: int| 0 <= m < kept@.len() implies labels_fit(
                        names,
                        #[trigger] kept.deep_view()[m],
                    ) && values_in_order(names, kept.deep_view()[m])
                        == snapshot[kept_keys[m]].0 by {
                        if m < before_view.len() {
                            assert(kept.deep_view()[m] == before_view[m]);
                        } else {
                            assert(kept.deep_view()[m] == all[i as int]);
                        }
                    }
                }
            }
            i = i + 1;
            proof {
                assert forall|key: u64| kept_keys.contains(key) <==> exists|j: int|
                    0 <= j < i && #[trigger] keys[j] == key && id_of(snapshot[key].0, width) != ident by {
                    if kept_keys.contains(key) {
                        if before.contains(key) {
                            let j = choose|j: int|
                                0 <= j < i - 1 && #[trigger] keys[j] == key && id_of(
                                    snapshot[key].0,
                                    width,
                                ) != ident;
                            assert(0 <= j < i && keys[j] == key);
                        } else {
                            assert(kept_keys != before);
                            let at = choose|at: int| 0 <= at < kept_keys.len() && kept_keys[at] == key;
                            assert(at == before.len());
                            assert(keys[i - 1] == key);
                        }
                    }
                    if exists|j: int|
                        0 <= j < i && #[trigger] keys[j] == key && id_of(snapshot[key].0, width) != ident {
                        let j = choose|j: int|
                            0 <= j < i && #[trigger] keys[j] == key && id_of(snapshot[key].0, width)
                                != ident;
                        if j < i - 1 {
                            assert(before.contains(key));
                            let at = choose|at: int| 0 <= at < before.len() && before[at] == key;
                            assert(kept_keys[at] == key);
                        } else {
                            assert(!same);
                            assert(kept_keys[before.len() as int] == key);
                        }
                    }
                }
            }
        }
        self.pending = kept;
        self.keys = Ghost(kept_keys);
        self.observed = Ghost(self.observed@.push(values));
        proof {
            let observed = old(self).observed@;
            lemma_seen_ids_push(observed, values, width);
            assert(keys.to_set() == stale_keys(snapshot, observed, width));
            assert forall|key: u64| kept_keys.to_set().contains(key) <==> stale_keys(
                snapshot,
                observed.push(values),
                width,
            ).contains(key) by {
                if kept_keys.contains(key) {
                    let j = choose|j: int|
                        0 <= j < count && #[trigger] keys[j] == key && id_of(snapshot[key].0, width)
                            != ident;
                    assert(keys.to_set().contains(key));
                }
                if stale_keys(snapshot, observed.push(values), width).contains(key) {
                    assert(stale_keys(snapshot, observed, width).contains(key));
                    assert(keys.to_set().contains(key));
                    let j = choose|j: int| 0 <= j < keys.len() && keys[j] == key;
                    assert(0 <= j < count && keys[j] == key && id_of(snapshot[key].0, width) != ident);
                }
            }
            assert(kept_keys.to_set() =~= stale_keys(snapshot, observed.push(values), width));
        }
    }
}

impl ReconciliationPass {
    /// Begins a pass over `family`: takes the snapshot. The first labels
    /// of the family, `id_names`, are the identity of what a series stands
    /// for.
    pub fn begin(family: &GaugeFamily, id_names: Vec<String>) -> (pass: Self)
        requires
            family.well_filed(),
            id_names@.len() <= family.label_names().len(),
            family.label_names().take(id_names@.len() as int) == id_names.deep_view(),
        ensures
            pass.follows(*family),
            pass.width() == id_names@.len(),
            pass.snapshot() == family.series(),
            pass.observed().len() == 0,
    {
        let pending = family.snapshot();
        let ghost names = family.label_names();
        let ghost series = family.series();
        let ghost keys = choose|keys: Seq<u64>| #[trigger]
            lists_by_keys(pending.deep_view(), keys, names, series);
        let pass = ReconciliationPass {
            id_names: id_names,
            pending: pending,
            keys: Ghost(keys),
            snapshot: Ghost(series),
            observed: Ghost(Seq::empty()),
        };
        proof {
            assert(lists_by_keys(pending.deep_view(), keys, names, series));
            let none = Seq::<Seq<Seq<char>>>::empty();
            assert(keys.to_set() =~= stale_keys(series, none, pass.width()));
            assert(pending.deep_view().len() == pending@.len());
        }
        pass
    }

    /// Takes something observed into the pass: its gauge is set to one,
    /// and what the snapshot holds under its identity will not be removed.
    pub fn observe(&mut self, family: &mut GaugeFamily, labels: &Vec<(String, String)>)
        requires
            old(self).follows(*old(family)),
            labels_fit(old(family).label_names(), labels.deep_view()),
        ensures
            final(self).follows(*final(family)),
            final(family).described_as(*old(family)),
            final(self).width() == old(self).width(),
            final(self).snapshot() == old(self).snapshot(),
            final(self).observed() == old(self).observed().push(
                values_in_order(old(family).label_names(), labels.deep_view()),
            ),
    {
        let ghost names = family.label_names();
        let ghost values = values_in_order(names, labels.deep_view());
        self.mark_seen(labels, Ghost(names), Ghost(values));
        let done = family.set(labels, 1);
        proof {
            assert(done);
            lemma_upserted_push(old(self).snapshot(), old(self).observed(), values);
        }
    }

    /// Ends a pass over a listing that was fetched to its end: removes
    /// what the snapshot held under identities that were not observed.
    pub fn commit(self, family: &mut GaugeFamily)
        requires
            self.follows(*old(family)),
        ensures
            final(family).well_filed(),
            final(family).described_as(*old(family)),
            final(family).series() == committed(self.snapshot(), self.observed(), self.width()),
    {
        let ghost names = family.label_names();
        let ghost width = self.width();
        let ghost start = family.series();
        let ghost keys = self.keys@;
        let ghost snapshot = self.snapshot@;
        let mut i: usize = 0;
        assert(start.remove_keys(keys.subrange(0, 0).to_set()) =~= start);
        while i < self.pending.len()
            invariant
                i <= self.pending@.len(),
                self.tracks(names),
                keys == self.keys@,
                snapshot == self.snapshot@,
                family.label_names() == names,
                family.described_as(*old(family)),
                family.well_filed(),
                family.series() == start.remove_keys(keys.subrange(0, i as int).to_set()),
            decreases self.pending@.len() - i,
        {
            let ghost before = family.series();
            let ghost entry = self.pending.deep_view()[i as int];
            assert(self.pending@[i as int].deep_view() == entry);
            assert(labels_fit(names, entry));
            let _ = family.remove(&self.pending[i]);
            proof {
                let key = keys[i as int];
                assert(keys.to_set().contains(key));
                assert(snapshot.dom().contains(key));
                assert(series_key(values_in_order(names, entry)) == key);
                assert(family.series() =~= before.remove(key));
                assert(keys.subrange(0, i + 1).to_set() =~= keys.subrange(0, i as int).to_set().insert(
                    key,
                )) by {
                    let shorter = keys.subrange(0, i as int);
                    let longer = keys.subrange(0, i + 1);
                    assert forall|k: u64| longer.to_set().contains(k) <==> shorter.to_set().insert(
                        key,
                    ).contains(k) by {
                        if longer.contains(k) {
                            let at = choose|at: int| 0 <= at < longer.len() && longer[at] == k;
                            if at < i {
                                assert(shorter[at] == k);
                            }
                        }
                        if shorter.contains(k) {
                            let at = choose|at: int| 0 <= at < shorter.len() && shorter[at] == k;
                            assert(longer[at] == k);
                        }
                        if k == key {
                            assert(longer[i as int] == k);
                        }
                    }
                }
                assert(before.remove(key) =~= start.remove_keys(
                    keys.subrange(0, i + 1).to_set(),
                ));
            }
            i = i + 1;
        }
        proof {
            assert(keys.subrange(0, i as int) =~= keys);
        }
    }
}

/// Idempotent upsert: setting the gauge of one set of label values to one
/// a second time changes nothing. After the first time there is a series
/// under the key of the values, one and no more, and its gauge is at one.
pub proof fn lemma_upsert_is_idempotent(series: SeriesMap, values: Seq<Seq<char>>)
    ensures
        series_with(series_with(series, values, 1), values, 1) == series_with(series, values, 1),
        series_with(series, values, 1).dom() == series.dom().insert(series_key(values)),
        series_with(series, values, 1)[series_key(values)].1 == 1,
        !series.dom().contains(series_key(values)) ==> series_with(series, values, 1)[series_key(
            values,
        )].0 == values,
{
    let once = series_with(series, values, 1);
    assert(series_with(once, values, 1) =~= once);
    assert(once.dom() =~= series.dom().insert(series_key(values)));
}

/// What the series hold after everything observed was set to one: a series
/// that was there keeps its label values; a series that was not there has
/// the label values of something observed under its key; and everything
/// observed has a series under its key, with its gauge at one.
pub proof fn lemma_upserted(series: SeriesMap, observed: Seq<Seq<Seq<char>>>)
    ensures
        forall|key: u64| #[trigger]
            series.dom().contains(key) ==> upserted(series, observed).dom().contains(key)
                && upserted(series, observed)[key].0 == series[key].0,
        forall|key: u64| #[trigger]
            upserted(series, observed).dom().contains(key) && !series.dom().contains(key)
                ==> exists|i: int|
                0 <= i < observed.len() && series_key(#[trigger] observed[i]) == key && upserted(
                    series,
                    observed,
                )[key].0 == observed[i],
        forall|i: int|
            0 <= i < observed.len() ==> upserted(series, observed).dom().contains(
                series_key(#[trigger] observed[i]),
            ) && upserted(series, observed)[series_key(observed[i])].1 == 1,
    decreases observed.len(),
{
    if observed.len() > 0 {
        let earlier = observed.drop_last();
        let last = observed.last();
        let before = upserted(series, earlier);
        let after = upserted(series, observed);
        lemma_upserted(series, earlier);
        assert forall|key: u64| #[trigger]
            after.dom().contains(key) && !series.dom().contains(key) implies exists|i: int|
            0 <= i < observed.len() && series_key(#[trigger] observed[i]) == key && after[key].0
                == observed[i] by {
            if before.dom().contains(key) {
                let i = choose|i: int|
                    0 <= i < earlier.len() && series_key(#[trigger] earlier[i]) == key
                        && before[key].0 == earlier[i];
                assert(observed[i] == earlier[i]);
            } else {
                assert(observed[observed.len() - 1] == last);
            }
        }
        assert forall|i: int| 0 <= i < observed.len() implies after.dom().contains(
            series_key(#[trigger] observed[i]),
        ) && after[series_key(observed[i])].1 == 1 by {
            if i < earlier.len() {
                assert(observed[i] == earlier[i]);
            }
        }
    }
}

/// Idempotent upsert, within a pass: an instance that was observed before
/// in the pass changes nothing when it is observed again with the same
/// labels. Neither the series nor what a commit removes depend on it.
pub proof fn lemma_observing_again(
    snapshot: SeriesMap,
    observed: Seq<Seq<Seq<char>>>,
    i: int,
    width: nat,
)
    requires
        0 <= i < observed.len(),
    ensures
        upserted(snapshot, observed.push(observed[i])) == upserted(snapshot, observed),
        seen_ids(observed.push(observed[i]), width) == seen_ids(observed, width),
        committed(snapshot, observed.push(observed[i]), width) == committed(snapshot, observed, width),
{
    let values = observed[i];
    let again = observed.push(values);
    let before = upserted(snapshot, observed);
    lemma_upserted(snapshot, observed);
    assert(again.drop_last() =~= observed);
    assert(before.dom().contains(series_key(values)) && before[series_key(values)].1 == 1);
    assert(series_with(before, values, 1) =~= before);
    lemma_seen_ids_push(observed, values, width);
    assert(seen_ids(observed, width).contains(id_of(values, width)));
    assert forall|id: Seq<Seq<char>>| seen_ids(again, width).contains(id) <==> seen_ids(observed, width).contains(
        id,
    ) by {
        assert(seen_ids(again, width).contains(id) <==> (seen_ids(observed, width).contains(id) || id
            == id_of(values, width)));
    }
    assert(seen_ids(again, width) =~= seen_ids(observed, width));
    assert(stale_keys(snapshot, again, width) =~= stale_keys(snapshot, observed, width));
}

/// Safe deletion. After a pass that ran to its end,
/// - every series has an id that was observed;
/// - a series of the snapshot whose id was observed is still there, with
///   the label values it had;
/// - everything observed has its series, with the gauge at one, unless a
///   stale series of the snapshot held the very same key.
///
/// After a pass whose fetch failed, every series of the snapshot is still
/// there, with the label values it had, and everything observed has its
/// series: the family may have grown, it has not shrunk.
pub proof fn lemma_safe_deletion(snapshot: SeriesMap, observed: Seq<Seq<Seq<char>>>, width: nat)
    ensures
        forall|key: u64| #[trigger]
            committed(snapshot, observed, width).dom().contains(key) ==> seen_ids(observed, width).contains(
                id_of(committed(snapshot, observed, width)[key].0, width),
            ),
        forall|key: u64| #[trigger]
            snapshot.dom().contains(key) && seen_ids(observed, width).contains(id_of(snapshot[key].0, width))
                ==> committed(snapshot, observed, width).dom().contains(key) && committed(
                snapshot,
                observed,
                width,
            )[key].0 == snapshot[key].0,
        forall|i: int|
            0 <= i < observed.len() && !stale_keys(snapshot, observed, width).contains(
                series_key(#[trigger] observed[i]),
            ) ==> committed(snapshot, observed, width).dom().contains(series_key(observed[i]))
                && committed(snapshot, observed, width)[series_key(observed[i])].1 == 1,
        forall|key: u64| #[trigger]
            snapshot.dom().contains(key) ==> reconciled(snapshot, observed, false, width).dom().contains(
                key,
            ) && reconciled(snapshot, observed, false, width)[key].0 == snapshot[key].0,
        forall|i: int|
            0 <= i < observed.len() ==> reconciled(snapshot, observed, false, width).dom().contains(
                series_key(#[trigger] observed[i]),
            ),
{
    lemma_upserted(snapshot, observed);
    let done = committed(snapshot, observed, width);
    let set_up = upserted(snapshot, observed);
    assert forall|key: u64| #[trigger] done.dom().contains(key) implies seen_ids(
        observed,
        width,
    ).contains(id_of(done[key].0, width)) by {
        assert(set_up.dom().contains(key));
        if snapshot.dom().contains(key) {
            assert(!stale_keys(snapshot, observed, width).contains(key));
        } else {
            let i = choose|i: int|
                0 <= i < observed.len() && series_key(#[trigger] observed[i]) == key
                    && set_up[key].0 == observed[i];
            assert(id_of(observed[i], width) == id_of(done[key].0, width));
        }
    }
}

/// Safe deletion where all the labels are the identity. After a pass that
/// ran to its end every series is one that the pass observed: it has the
/// label values of something observed and is filed under their key. So
/// nothing of the snapshot is left but what was observed again.
pub proof fn lemma_committed_by_all_labels(
    snapshot: SeriesMap,
    observed: Seq<Seq<Seq<char>>>,
    width: nat,
)
    requires
        well_filed(snapshot, width),
        forall|i: int| 0 <= i < observed.len() ==> (#[trigger] observed[i]).len() == width,
    ensures
        forall|key: u64| #[trigger]
            committed(snapshot, observed, width).dom().contains(key) ==> exists|i: int|
                0 <= i < observed.len() && series_key(#[trigger] observed[i]) == key && committed(
                    snapshot,
                    observed,
                    width,
                )[key].0 == observed[i],
{
    lemma_upserted(snapshot, observed);
    let done = committed(snapshot, observed, width);
    let set_up = upserted(snapshot, observed);
    assert forall|key: u64| #[trigger] done.dom().contains(key) implies exists|i: int|
        0 <= i < observed.len() && series_key(#[trigger] observed[i]) == key && done[key].0
            == observed[i] by {
        assert(set_up.dom().contains(key));
        if snapshot.dom().contains(key) {
            let values = snapshot[key].0;
            assert(!stale_keys(snapshot, observed, width).contains(key));
            assert(seen_ids(observed, width).contains(id_of(values, width)));
            let i = choose|i: int|
                0 <= i < observed.len() && id_of(#[trigger] observed[i], width) == id_of(
                    values,
                    width,
                );
            assert(observed[i].take(width as int) =~= observed[i]);
            assert(values.take(width as int) =~= values);
            assert(series_key(observed[i]) == key);
        } else {
            let i = choose|i: int|
                0 <= i < observed.len() && series_key(#[trigger] observed[i]) == key
                    && set_up[key].0 == observed[i];
            assert(done[key].0 == observed[i]);
        }
    }
}

} // verus!
