//! The pollers of the provider's compute fleet: one mirrors the running
//! instances into a gauge family and keeps it reconciled, the other mirrors
//! the latest spot prices.

use vstd::prelude::*;
use crate::config::{
    AwsInstancesPollerSettings, AwsInstancesPollerSettingsProvider, AwsSpotPricesPollerSettings,
    AwsSpotPricesPollerSettingsProvider,
};
use crate::ec2::{DescribeInstancesRequestor, DescribeSpotPricesRequestor, Filter, Instance, SpotPrice};
use crate::gauges::{family_accepts, FamilyHandle, GaugeFamily, SeriesMap};
use crate::labels::{
    instance_label_names, instance_values, is_complete, is_complete_price, label_instance,
    label_spot_price, lemma_paired_labels_fit, name_instance_labels, name_spot_price_labels,
    spot_price_label_names, spot_price_values,
};
use crate::pagination::{
    end_of_run, extends, is_page, is_rest, is_run, items_of, lemma_end_of_run, lemma_run_of,
    lemma_step_keeps_account, run_of, slot_after_all, PaginatedIterator, PaginatedRequestor,
};
use crate::poller::{classify, view_report, PollerError, PollerErrorView, ProviderError};
use crate::reconcile::{committed, reconciled, ReconciliationPass};
use crate::text::{copy_optional_texts, copy_texts, view_texts};

verus! {

/// The taxonomy under the name the compute pollers report it by.
pub type AwsPollerError = crate::poller::PollerError;

/// The name of the instances family.
pub const INSTANCES_FAMILY: &'static str = "AwsInstanceState";

/// The help text of the instances family.
pub const INSTANCES_HELP: &'static str = "Identifies a running AWS instance";

/// The name of the instances listing.
pub const DESCRIBE_INSTANCES: &'static str = "DescribeInstances";

/// The name of the spot prices family.
pub const SPOT_PRICES_FAMILY: &'static str = "AwsSpotPrices";

/// The help text of the spot prices family.
pub const SPOT_PRICES_HELP: &'static str = "Identifies a history of spot prices";

/// The name of the spot price history listing.
pub const DESCRIBE_SPOT_PRICE_HISTORY: &'static str = "DescribeSpotPriceHistory";

/// Whether `filter` lets the running instances pass and no others.
pub open spec fn is_running_filter(filter: Filter) -> bool {
    &&& filter.name matches Some(name) && name@ == "instance-state-code"@
    &&& filter.values matches Some(values) && values@.len() == 1 && values@[0]@ == "16"@
}

/// The label values of the complete instances among `records`, in their
/// order.
pub open spec fn observed_values(records: Seq<Instance>, expose_tags: Seq<Seq<char>>) -> Seq<
    Seq<Seq<char>>,
>
    decreases records.len(),
{
    if records.len() == 0 {
        Seq::empty()
    } else if is_complete(records.last()) {
        observed_values(records.drop_last(), expose_tags).push(
            instance_values(records.last(), expose_tags),
        )
    } else {
        observed_values(records.drop_last(), expose_tags)
    }
}

/// Whether a pass whose fetches were answered by `run` leads from the
/// series `before` to the series `after` and to the report `report`: the
/// records of the run are taken in, the pass is committed unless the run
/// ended in a failure, and the class of a failure is reported unless it is
/// the dry-run confirmation.
pub open spec fn is_pass(
    before: SeriesMap,
    after: SeriesMap,
    report: Option<PollerErrorView>,
    expose_tags: Seq<Seq<char>>,
    run: Seq<Result<Option<Vec<Instance>>, ProviderError>>,
) -> bool {
    &&& is_run(run)
    &&& after == reconciled(
        before,
        observed_values(items_of(run), expose_tags),
        run.last() is Ok,
        1,
    )
    &&& report == match run.last() {
        Err(e) => classify(e@, DESCRIBE_INSTANCES@).surfaced(),
        Ok(_) => None,
    }
}

/// Mirrors the running instances into a gauge family: one series per
/// instance, its gauge at one.
pub struct AwsInstancesPoller {
    max_chunk_size: Option<i32>,
    expose_tags: Vec<String>,
    gauges: GaugeFamily,
}

impl AwsInstancesPoller {
    /// The tag keys that are exposed as labels, in label order.
    pub closed spec fn expose_tags(&self) -> Seq<Seq<char>> {
        self.expose_tags.deep_view()
    }

    /// The page size hint of the listing.
    pub closed spec fn max_chunk_size(&self) -> Option<i32> {
        self.max_chunk_size
    }

    /// The gauge family.
    pub closed spec fn gauges(&self) -> GaugeFamily {
        self.gauges
    }

    /// The series of the gauge family.
    pub open spec fn series(&self) -> SeriesMap {
        self.gauges().series()
    }

    /// Whether the poller is in order: its family has the label names of
    /// the instances family for its exposed tags, and is itself in order.
    pub open spec fn wf(&self) -> bool {
        &&& self.gauges().label_names() == instance_label_names(self.expose_tags())
        &&& self.gauges().well_filed()
    }

    /// Whether `pass` is a pass of this poller in progress, with the id
    /// of an instance for its identity.
    pub open spec fn in_pass(&self, pass: ReconciliationPass) -> bool {
        &&& pass.follows(self.gauges())
        &&& pass.width() == 1
    }

    /// A poller for these settings, with an empty gauge family. The family
    /// can be created exactly when the label names of the instances family
    /// are well formed and no two are the same; a refusal is an
    /// `UnknownError`.
    pub fn from_settings(settings: AwsInstancesPollerSettings) -> (made: Result<Self, PollerError>)
        ensures
            made is Ok == family_accepts(
                INSTANCES_FAMILY@,
                INSTANCES_HELP@,
                instance_label_names(settings.expose_tags.deep_view()),
            ),
            made matches Ok(poller) ==> {
                &&& poller.wf()
                &&& poller.series() == SeriesMap::empty()
                &&& poller.expose_tags() == settings.expose_tags.deep_view()
                &&& poller.max_chunk_size() == settings.describe_instances_chunk_size
                &&& poller.gauges().name() == INSTANCES_FAMILY@
                &&& poller.gauges().help() == INSTANCES_HELP@
            },
            made matches Err(e) ==> e is UnknownError,
    {
        let names = name_instance_labels(&settings.expose_tags);
        match GaugeFamily::new(INSTANCES_FAMILY, INSTANCES_HELP, &names) {
            Ok(gauges) => Ok(
                AwsInstancesPoller {
                    max_chunk_size: settings.describe_instances_chunk_size,
                    expose_tags: settings.expose_tags,
                    gauges: gauges,
                },
            ),
            Err(e) => Err(e),
        }
    }

    /// A poller for the settings that `settings_provider` hands out.
    /// Whatever these are, a poller that is made is in order and its
    /// family is empty.
    pub fn new<P: AwsInstancesPollerSettingsProvider>(settings_provider: &P) -> (made: Result<
        Self,
        PollerError,
    >)
        ensures
            made matches Ok(poller) ==> poller.wf() && poller.series() == SeriesMap::empty(),
            made matches Ok(poller) ==> poller.gauges().name() == INSTANCES_FAMILY@
                && poller.gauges().help() == INSTANCES_HELP@,
            made matches Err(e) ==> e is UnknownError,
    {
        Self::from_settings(settings_provider.aws_instances_poller_settings())
    }

    /// The gauge family, for whoever exposes it: a handle that exposes the
    /// poller's family under the name, the help text and the label names
    /// that the family was created with.
    pub fn counters(&self) -> (handle: FamilyHandle)
        ensures
            handle.exposes(self.gauges()),
    {
        self.gauges.handle()
    }

    /// The state of a run through the listing of the running instances,
    /// with the poller's page size hint.
    pub fn requestor(&self) -> (requestor: DescribeInstancesRequestor)
        ensures
            requestor.first_chunk,
            requestor.req.dry_run is None,
            requestor.req.max_results == self.max_chunk_size(),
            requestor.req.next_token is None,
            requestor.req.filters matches Some(filters) && filters@.len() == 1 && is_running_filter(
                filters@[0],
            ),
    {
        let mut values: Vec<String> = Vec::new();
        values.push("16".to_owned());
        let running = Filter { name: Some("instance-state-code".to_owned()), values: Some(values) };
        let mut filters: Vec<Filter> = Vec::new();
        filters.push(running);
        DescribeInstancesRequestor::new(filters, self.max_chunk_size)
    }

    /// Begins a pass: takes the snapshot of the series.
    pub fn begin_pass(&self) -> (pass: ReconciliationPass)
        requires
            self.wf(),
        ensures
            self.in_pass(pass),
            pass.snapshot() == self.series(),
            pass.observed().len() == 0,
    {
        let mut id_names: Vec<String> = Vec::new();
        id_names.push("id".to_owned());
        proof {
            let names = instance_label_names(self.expose_tags());
            assert(names.take(1) =~= id_names.deep_view());
        }
        ReconciliationPass::begin(&self.gauges, id_names)
    }

    /// Takes an instance of the listing into the pass. A complete instance
    /// has its gauge set to one, and what the snapshot holds under its id
    /// will not be removed; an instance that lacks an attribute changes
    /// nothing.
    pub fn observe(&mut self, pass: &mut ReconciliationPass, instance: &Instance)
        requires
            old(self).wf(),
            old(self).in_pass(*old(pass)),
        ensures
            final(self).wf(),
            final(self).in_pass(*final(pass)),
            final(self).expose_tags() == old(self).expose_tags(),
            final(self).max_chunk_size() == old(self).max_chunk_size(),
            final(self).gauges().described_as(old(self).gauges()),
            final(pass).snapshot() == old(pass).snapshot(),
            final(pass).observed() == (if is_complete(*instance) {
                old(pass).observed().push(instance_values(*instance, old(self).expose_tags()))
            } else {
                old(pass).observed()
            }),
    {
        match label_instance(instance, &self.expose_tags) {
            None => {},
            Some(labels) => {
                proof {
                    lemma_paired_labels_fit(
                        instance_label_names(self.expose_tags()),
                        instance_values(*instance, self.expose_tags()),
                    );
                }
                pass.observe(&mut self.gauges, &labels);
            },
        }
    }

    /// Ends a pass whose fetch ran to its end: removes what the snapshot
    /// held under ids that were not observed.
    pub fn commit(&mut self, pass: ReconciliationPass)
        requires
            old(self).wf(),
            old(self).in_pass(pass),
        ensures
            final(self).wf(),
            final(self).expose_tags() == old(self).expose_tags(),
            final(self).max_chunk_size() == old(self).max_chunk_size(),
            final(self).gauges().described_as(old(self).gauges()),
            final(self).series() == committed(pass.snapshot(), pass.observed(), 1),
    {
        pass.commit(&mut self.gauges);
    }
}

impl AwsInstancesPoller {
    /// Takes everything that `instances` still hands out into the pass,
    /// record by record as it is fetched: what is buffered, then the
    /// records of every further page up to the end of the listing or the
    /// first failed fetch.
    pub fn take_in<'a, R: PaginatedRequestor<Item = Instance>>(
        &mut self,
        pass: &mut ReconciliationPass,
        instances: &mut PaginatedIterator<'a, R>,
    )
        requires
            old(self).wf(),
            old(self).in_pass(*old(pass)),
        ensures
            final(self).wf(),
            final(self).in_pass(*final(pass)),
            final(self).expose_tags() == old(self).expose_tags(),
            final(self).max_chunk_size() == old(self).max_chunk_size(),
            final(self).gauges().described_as(old(self).gauges()),
            final(pass).snapshot() == old(pass).snapshot(),
            extends(old(instances).answers(), final(instances).answers()),
            *final(final(instances).error_slot()) == *final(old(instances).error_slot()),
            final(instances).buffered().len() == 0,
            ({
                let fetched = final(instances).answers().skip(
                    old(instances).answers().len() as int,
                );
                &&& is_rest(old(instances).ended(), fetched)
                &&& final(pass).observed() == old(pass).observed() + observed_values(
                    old(instances).buffered() + items_of(fetched),
                    old(self).expose_tags(),
                )
                &&& *final(instances).error_slot() == slot_after_all(
                    *old(instances).error_slot(),
                    fetched,
                )
            }),
            final(instances).ended(),
    {
        let ghost before = instances.answers();
        let ghost base = instances.buffered();
        let ghost start = pass.observed();
        let ghost expose = self.expose_tags();
        let ghost mut taken: Seq<Instance> = Seq::empty();
        proof {
            assert(before.subrange(0, before.len() as int) =~= before);
            assert(items_of(before.skip(before.len() as int)) =~= Seq::<Instance>::empty());
            assert(taken + base =~= base + items_of(before.skip(before.len() as int)));
            assert(start + observed_values(taken, expose) =~= start);
        }
        loop
            invariant
                self.wf(),
                self.in_pass(*pass),
                self.expose_tags() == expose,
                expose == old(self).expose_tags(),
                self.max_chunk_size() == old(self).max_chunk_size(),
                self.gauges().described_as(old(self).gauges()),
                pass.snapshot() == old(pass).snapshot(),
                before == old(instances).answers(),
                base == old(instances).buffered(),
                start == old(pass).observed(),
                extends(before, instances.answers()),
                *final(instances.error_slot()) == *final(old(instances).error_slot()),
                *instances.error_slot() == *old(instances).error_slot(),
                instances.ended() == old(instances).ended(),
                instances.ended() ==> instances.answers().skip(before.len() as int).len() == 0,
                pass.observed() == start + observed_values(taken, expose),
                ({
                    let fetched = instances.answers().skip(before.len() as int);
                    &&& forall|i: int| 0 <= i < fetched.len() ==> is_page(#[trigger] fetched[i])
                    &&& taken + instances.buffered() == base + items_of(fetched)
                }),
            decreases instances.requestor().pages_left(), instances.buffered().len(),
        {
            let ghost earlier = instances.answers();
            let ghost fetched = earlier.skip(before.len() as int);
            let ghost buffer = instances.buffered();
            proof {
                instances.lemma_ended_is_empty();
            }
            let next = instances.next();
            proof {
                let now = instances.answers();
                let step = now.skip(earlier.len() as int);
                assert(now.skip(before.len() as int) =~= fetched + step);
                assert(now.subrange(0, before.len() as int) =~= before);
                lemma_step_keeps_account(
                    old(instances).ended(),
                    base,
                    taken,
                    buffer,
                    fetched,
                    step,
                    next,
                    instances.buffered(),
                );
            }
            match next {
                Some(instance) => {
                    self.observe(pass, &instance);
                    proof {
                        let gathered = taken;
                        taken = taken.push(instance);
                        assert(taken.drop_last() =~= gathered);
                        assert(taken.last() == instance);
                        let seen = observed_values(gathered, expose);
                        if is_complete(instance) {
                            assert(start + seen.push(instance_values(instance, expose)) =~= (start
                                + seen).push(instance_values(instance, expose)));
                        }
                    }
                },
                None => {
                    return ;
                },
            }
        }
    }

    /// Runs one reconciliation pass over the listing behind `requestor`.
    ///
    /// The records are taken in as they are fetched. If the listing is
    /// fetched to its end, the pass is committed; if a fetch fails, nothing
    /// is removed and the class of the failure is reported, unless it is
    /// the dry-run confirmation.
    pub fn poll<R: PaginatedRequestor<Item = Instance, Error = ProviderError>>(
        &mut self,
        requestor: R,
    ) -> (report: Option<PollerError>)
        requires
            old(self).wf(),
        ensures
            final(self).wf(),
            final(self).expose_tags() == old(self).expose_tags(),
            final(self).max_chunk_size() == old(self).max_chunk_size(),
            final(self).gauges().described_as(old(self).gauges()),
            exists|run: Seq<Result<Option<Vec<Instance>>, ProviderError>>| #[trigger]
                is_pass(
                    old(self).series(),
                    final(self).series(),
                    view_report(report),
                    old(self).expose_tags(),
                    run,
                ),
    {
        let mut pass = self.begin_pass();
        let mut query_err: Option<ProviderError> = None;
        let mut instances = PaginatedIterator::new(requestor, &mut query_err);
        self.take_in(&mut pass, &mut instances);
        let ghost run = instances.answers();
        proof {
            instances.lemma_error_slot_settles();
            assert(run.skip(0) =~= run);
            assert(Seq::<Instance>::empty() + items_of(run) =~= items_of(run));
            assert(Seq::<Seq<Seq<char>>>::empty() + observed_values(
                items_of(run),
                self.expose_tags(),
            ) =~= observed_values(items_of(run), self.expose_tags()));
        }
        let report = match query_err {
            None => {
                self.commit(pass);
                None
            },
            Some(e) => PollerError::classify(e, DESCRIBE_INSTANCES).surfaced(),
        };
        proof {
            assert(is_pass(
                old(self).series(),
                self.series(),
                view_report(report),
                old(self).expose_tags(),
                run,
            ));
        }
        report
    }
}

impl AwsInstancesPoller {
    /// Runs one reconciliation pass over answers that are at hand: what a
    /// pass does with a listing that gives these answers. The pages are
    /// taken in up to the first answer that is not a page; the end of the
    /// listing, or no more answers, commits the pass; a failure leaves
    /// everything in place and is reported with its class, unless it is
    /// the dry-run confirmation. Answers after the first that is not a
    /// page are not looked at.
    pub fn pass_over(&mut self, answers: Vec<Result<Option<Vec<Instance>>, ProviderError>>) -> (report:
        Option<PollerError>)
        requires
            old(self).wf(),
        ensures
            final(self).wf(),
            final(self).expose_tags() == old(self).expose_tags(),
            final(self).max_chunk_size() == old(self).max_chunk_size(),
            final(self).gauges().described_as(old(self).gauges()),
            is_pass(
                old(self).series(),
                final(self).series(),
                view_report(report),
                old(self).expose_tags(),
                run_of(answers@),
            ),
    {
        let mut answers = answers;
        let ghost all = answers@;
        let ghost expose = self.expose_tags();
        let mut pass = self.begin_pass();
        let mut failure: Option<ProviderError> = None;
        let mut ended = false;
        let mut i: usize = 0;
        proof {
            assert(items_of(all.take(0)) =~= Seq::<Instance>::empty());
        }
        while i < answers.len() && !ended
            invariant
                self.wf(),
                self.in_pass(pass),
                self.expose_tags() == expose,
                expose == old(self).expose_tags(),
                self.max_chunk_size() == old(self).max_chunk_size(),
                self.gauges().described_as(old(self).gauges()),
                pass.snapshot() == old(self).series(),
                answers@.len() == all.len(),
                i <= all.len(),
                forall|j: int| 0 <= j < i ==> is_page(#[trigger] all[j]),
                forall|j: int| i < j < all.len() ==> answers@[j] == all[j],
                !ended ==> failure is None && (i < all.len() ==> answers@[i as int] == all[i as int]),
                ended ==> i < all.len() && !is_page(all[i as int]) && (match all[i as int] {
                    Err(e) => failure == Some(e),
                    _ => failure is None,
                }),
                pass.observed() == observed_values(items_of(all.take(i as int)), expose),
            decreases all.len() - i, !ended as int,
        {
            let mut answer: Result<Option<Vec<Instance>>, ProviderError> = Ok(None);
            std::mem::swap(&mut answers[i], &mut answer);
            assert(answer == all[i as int]);
            match answer {
                Ok(Some(page)) => {
                    let ghost before = items_of(all.take(i as int));
                    let mut j: usize = 0;
                    proof {
                        assert(before + page@.take(0) =~= before);
                    }
                    while j < page.len()
                        invariant
                            self.wf(),
                            self.in_pass(pass),
                            self.expose_tags() == expose,
                            self.max_chunk_size() == old(self).max_chunk_size(),
                            self.gauges().described_as(old(self).gauges()),
                            pass.snapshot() == old(self).series(),
                            j <= page@.len(),
                            pass.observed() == observed_values(
                                before + page@.take(j as int),
                                expose,
                            ),
                        decreases page@.len() - j,
                    {
                        self.observe(&mut pass, &page[j]);
                        proof {
                            let so_far = before + page@.take(j as int);
                            let more = before + page@.take(j + 1);
                            assert(more.drop_last() =~= so_far);
                            assert(more.last() == page@[j as int]);
                        }
                        j = j + 1;
                    }
                    proof {
                        let upto = all.take(i + 1);
                        assert(page@.take(page@.len() as int) =~= page@);
                        assert(upto.drop_last() =~= all.take(i as int));
                        assert(upto.last() == all[i as int]);
                        assert(items_of(upto) =~= before + page@);
                    }
                    i = i + 1;
                },
                Ok(None) => {
                    ended = true;
                },
                Err(e) => {
                    failure = Some(e);
                    ended = true;
                },
            }
        }
        let ghost run = run_of(all);
        proof {
            lemma_run_of(all);
            lemma_end_of_run(all, 0);
            lemma_end_of_run(all, i as int);
            let end = end_of_run(all, 0);
            assert(end == i) by {
                if end < i {
                    assert(is_page(all[end]));
                }
                if end > i {
                    assert(!ended);
                }
            }
            if ended {
                assert(run.drop_last() =~= all.take(i as int));
                assert(run.last() == all[i as int]);
                assert(items_of(run) =~= items_of(all.take(i as int)));
            } else {
                assert(run.drop_last() =~= all);
                assert(all.take(i as int) =~= all);
                assert(items_of(run) =~= items_of(all));
            }
        }
        let report = match failure {
            None => {
                self.commit(pass);
                None
            },
            Some(e) => PollerError::classify(e, DESCRIBE_INSTANCES).surfaced(),
        };
        proof {
            assert(is_pass(
                old(self).series(),
                self.series(),
                view_report(report),
                old(self).expose_tags(),
                run,
            ));
        }
        report
    }
}

/// The label values of the complete spot prices among `records`, in their
/// order.
pub open spec fn observed_price_values(records: Seq<SpotPrice>) -> Seq<Seq<Seq<char>>>
    decreases records.len(),
{
    if records.len() == 0 {
        Seq::empty()
    } else if is_complete_price(records.last()) {
        observed_price_values(records.drop_last()).push(spot_price_values(records.last()))
    } else {
        observed_price_values(records.drop_last())
    }
}

/// Whether a pass over the spot prices whose fetches were answered by
/// `run` leads from the series `before` to the series `after` and to the
/// report `report`: the prices of the run are taken in, the pass is
/// committed unless the run ended in a failure, and the class of a failure
/// is reported unless it is the dry-run confirmation. The identity of a
/// price is all three of its labels.
pub open spec fn is_price_pass(
    before: SeriesMap,
    after: SeriesMap,
    report: Option<PollerErrorView>,
    run: Seq<Result<Option<Vec<SpotPrice>>, ProviderError>>,
) -> bool {
    &&& is_run(run)
    &&& after == reconciled(before, observed_price_values(items_of(run)), run.last() is Ok, 3)
    &&& report == match run.last() {
        Err(e) => classify(e@, DESCRIBE_SPOT_PRICE_HISTORY@).surfaced(),
        Ok(_) => None,
    }
}

/// Whether `filter` is the filter on the availability zones `zones`.
pub open spec fn is_zone_filter(filter: Filter, zones: Seq<Seq<char>>) -> bool {
    &&& filter.name matches Some(name) && name@ == "availability-zone"@
    &&& filter.values matches Some(values) && values.deep_view() == zones
}

/// Mirrors the latest spot prices into a gauge family: one series per
/// availability zone, platform and instance type that has a price, its
/// gauge at one. A pass that is fetched to its end leaves the series of
/// what it observed and removes the others.
pub struct AwsSpotPricesPoller {
    max_chunk_size: Option<i32>,
    availability_zones: Option<Vec<String>>,
    products: Option<Vec<String>>,
    instance_types: Option<Vec<String>>,
    gauges: GaugeFamily,
}

impl AwsSpotPricesPoller {
    /// The page size hint of the listing.
    pub closed spec fn max_chunk_size(&self) -> Option<i32> {
        self.max_chunk_size
    }

    /// The availability zones whose prices are listed.
    pub closed spec fn availability_zones(&self) -> Option<Seq<Seq<char>>> {
        view_texts(self.availability_zones)
    }

    /// The products whose prices are listed.
    pub closed spec fn products(&self) -> Option<Seq<Seq<char>>> {
        view_texts(self.products)
    }

    /// The instance types whose prices are listed.
    pub closed spec fn instance_types(&self) -> Option<Seq<Seq<char>>> {
        view_texts(self.instance_types)
    }

    /// The gauge family.
    pub closed spec fn gauges(&self) -> GaugeFamily {
        self.gauges
    }

    /// The series of the gauge family.
    pub open spec fn series(&self) -> SeriesMap {
        self.gauges().series()
    }

    /// Whether the poller is in order: its family has the label names of
    /// the spot prices family, and is itself in order.
    pub open spec fn wf(&self) -> bool {
        &&& self.gauges().label_names() == spot_price_label_names()
        &&& self.gauges().well_filed()
    }

    /// Whether `pass` is a pass of this poller in progress, with all three
    /// labels of a price for its identity.
    pub open spec fn in_pass(&self, pass: ReconciliationPass) -> bool {
        &&& pass.follows(self.gauges())
        &&& pass.width() == 3
    }

    /// A poller for these settings, with an empty gauge family. A refusal
    /// of the family is an `UnknownError`.
    pub fn from_settings(settings: AwsSpotPricesPollerSettings) -> (made: Result<Self, PollerError>)
        ensures
            made is Ok == family_accepts(
                SPOT_PRICES_FAMILY@,
                SPOT_PRICES_HELP@,
                spot_price_label_names(),
            ),
            made matches Ok(poller) ==> {
                &&& poller.wf()
                &&& poller.series() == SeriesMap::empty()
                &&& poller.max_chunk_size() == settings.max_chunk_size
                &&& poller.gauges().name() == SPOT_PRICES_FAMILY@
                &&& poller.gauges().help() == SPOT_PRICES_HELP@
                &&& poller.availability_zones() == view_texts(settings.availability_zones)
                &&& poller.products() == view_texts(settings.products)
                &&& poller.instance_types() == view_texts(settings.instance_types)
            },
            made matches Err(e) ==> e is UnknownError,
    {
        let names = name_spot_price_labels();
        match GaugeFamily::new(SPOT_PRICES_FAMILY, SPOT_PRICES_HELP, &names) {
            Ok(gauges) => Ok(
                AwsSpotPricesPoller {
                    max_chunk_size: settings.max_chunk_size,
                    availability_zones: settings.availability_zones,
                    products: settings.products,
                    instance_types: settings.instance_types,
                    gauges: gauges,
                },
            ),
            Err(e) => Err(e),
        }
    }

    /// A poller for the settings that `settings_provider` hands out.
    /// Whatever these are, a poller that is made is in order and its
    /// family is empty.
    pub fn new<P: AwsSpotPricesPollerSettingsProvider>(settings_provider: &P) -> (made: Result<
        Self,
        PollerError,
    >)
        ensures
            made matches Ok(poller) ==> poller.wf() && poller.series() == SeriesMap::empty(),
            made matches Ok(poller) ==> poller.gauges().name() == SPOT_PRICES_FAMILY@
                && poller.gauges().help() == SPOT_PRICES_HELP@,
            made matches Err(e) ==> e is UnknownError,
    {
        Self::from_settings(settings_provider.aws_spot_prices_poller_settings())
    }

    /// The gauge family, for whoever exposes it: a handle that exposes the
    /// poller's family under the name, the help text and the label names
    /// that the family was created with.
    pub fn counters(&self) -> (handle: FamilyHandle)
        ensures
            handle.exposes(self.gauges()),
    {
        self.gauges.handle()
    }

    /// The state of a run through the listing of the spot prices at the
    /// moment `now`: filtered by the poller's availability zones, products
    /// and instance types, with its page size hint.
    pub fn requestor_at(&self, now: String) -> (requestor: DescribeSpotPricesRequestor)
        ensures
            requestor.first_chunk,
            requestor.req.dry_run is None,
            requestor.req.start_time matches Some(t) && t@ == now@,
            requestor.req.end_time matches Some(t) && t@ == now@,
            requestor.req.max_results == self.max_chunk_size(),
            requestor.req.next_token is None,
            view_texts(requestor.req.product_descriptions) == self.products(),
            view_texts(requestor.req.instance_types) == self.instance_types(),
            match self.availability_zones() {
                Some(zones) => requestor.req.filters matches Some(filters) && filters@.len() == 1
                    && is_zone_filter(filters@[0], zones),
                None => requestor.req.filters is None,
            },
    {
        let mut filters: Vec<Filter> = Vec::new();
        if let Some(zones) = &self.availability_zones {
            filters.push(
                Filter { name: Some("availability-zone".to_owned()), values: Some(copy_texts(zones)) },
            );
        }
        DescribeSpotPricesRequestor::new(
            filters,
            copy_optional_texts(&self.products),
            copy_optional_texts(&self.instance_types),
            self.max_chunk_size,
            now,
        )
    }

    /// The state of a run through the listing of the spot prices at the
    /// present moment. Whatever the clock says, the request is that of
    /// `requestor_at` but for the moment.
    pub fn requestor(&self) -> (requestor: DescribeSpotPricesRequestor)
        ensures
            requestor.first_chunk,
            requestor.req.dry_run is None,
            requestor.req.start_time is Some,
            requestor.req.end_time is Some,
            requestor.req.start_time->0@ == requestor.req.end_time->0@,
            requestor.req.max_results == self.max_chunk_size(),
            requestor.req.next_token is None,
            view_texts(requestor.req.product_descriptions) == self.products(),
            view_texts(requestor.req.instance_types) == self.instance_types(),
            match self.availability_zones() {
                Some(zones) => requestor.req.filters matches Some(filters) && filters@.len() == 1
                    && is_zone_filter(filters@[0], zones),
                None => requestor.req.filters is None,
            },
    {
        let mut filters: Vec<Filter> = Vec::new();
        if let Some(zones) = &self.availability_zones {
            filters.push(
                Filter { name: Some("availability-zone".to_owned()), values: Some(copy_texts(zones)) },
            );
        }
        DescribeSpotPricesRequestor::at_present(
            filters,
            copy_optional_texts(&self.products),
            copy_optional_texts(&self.instance_types),
            self.max_chunk_size,
        )
    }

    /// Begins a pass: takes the snapshot of the series.
    pub fn begin_pass(&self) -> (pass: ReconciliationPass)
        requires
            self.wf(),
        ensures
            self.in_pass(pass),
            pass.snapshot() == self.series(),
            pass.observed().len() == 0,
    {
        let id_names = name_spot_price_labels();
        proof {
            assert(spot_price_label_names().take(3) =~= id_names.deep_view());
        }
        ReconciliationPass::begin(&self.gauges, id_names)
    }

    /// Takes a spot price of the listing into the pass. A complete price
    /// has its gauge set to one, and its series will not be removed; a
    /// price that lacks an attribute changes nothing.
    pub fn observe(&mut self, pass: &mut ReconciliationPass, price: &SpotPrice)
        requires
            old(self).wf(),
            old(self).in_pass(*old(pass)),
        ensures
            final(self).wf(),
            final(self).in_pass(*final(pass)),
            final(self).max_chunk_size() == old(self).max_chunk_size(),
            final(self).gauges().described_as(old(self).gauges()),
            final(self).availability_zones() == old(self).availability_zones(),
            final(self).products() == old(self).products(),
            final(self).instance_types() == old(self).instance_types(),
            final(pass).snapshot() == old(pass).snapshot(),
            final(pass).observed() == (if is_complete_price(*price) {
                old(pass).observed().push(spot_price_values(*price))
            } else {
                old(pass).observed()
            }),
    {
        match label_spot_price(price) {
            None => {},
            Some(labels) => {
                proof {
                    lemma_paired_labels_fit(spot_price_label_names(), spot_price_values(*price));
                }
                pass.observe(&mut self.gauges, &labels);
            },
        }
    }

    /// Ends a pass whose fetch ran to its end: removes what the snapshot
    /// held for prices that were not observed.
    pub fn commit(&mut self, pass: ReconciliationPass)
        requires
            old(self).wf(),
            old(self).in_pass(pass),
        ensures
            final(self).wf(),
            final(self).max_chunk_size() == old(self).max_chunk_size(),
            final(self).gauges().described_as(old(self).gauges()),
            final(self).availability_zones() == old(self).availability_zones(),
            final(self).products() == old(self).products(),
            final(self).instance_types() == old(self).instance_types(),
            final(self).series() == committed(pass.snapshot(), pass.observed(), 3),
    {
        pass.commit(&mut self.gauges);
    }

    /// Takes everything that `prices` still hands out into the pass,
    /// record by record as it is fetched: what is buffered, then the
    /// records of every further page up to the end of the listing or the
    /// first failed fetch.
    pub fn take_in<'a, R: PaginatedRequestor<Item = SpotPrice>>(
        &mut self,
        pass: &mut ReconciliationPass,
        prices: &mut PaginatedIterator<'a, R>,
    )
        requires
            old(self).wf(),
            old(self).in_pass(*old(pass)),
        ensures
            final(self).wf(),
            final(self).in_pass(*final(pass)),
            final(self).max_chunk_size() == old(self).max_chunk_size(),
            final(self).gauges().described_as(old(self).gauges()),
            final(self).availability_zones() == old(self).availability_zones(),
            final(self).products() == old(self).products(),
            final(self).instance_types() == old(self).instance_types(),
            final(pass).snapshot() == old(pass).snapshot(),
            extends(old(prices).answers(), final(prices).answers()),
            *final(final(prices).error_slot()) == *final(old(prices).error_slot()),
            final(prices).buffered().len() == 0,
            ({
                let fetched = final(prices).answers().skip(old(prices).answers().len() as int);
                &&& is_rest(old(prices).ended(), fetched)
                &&& final(pass).observed() == old(pass).observed() + observed_price_values(
                    old(prices).buffered() + items_of(fetched),
                )
                &&& *final(prices).error_slot() == slot_after_all(
                    *old(prices).error_slot(),
                    fetched,
                )
            }),
            final(prices).ended(),
    {
        let ghost before = prices.answers();
        let ghost base = prices.buffered();
        let ghost start = pass.observed();
        let ghost mut taken: Seq<SpotPrice> = Seq::empty();
        proof {
            assert(before.subrange(0, before.len() as int) =~= before);
            assert(items_of(before.skip(before.len() as int)) =~= Seq::<SpotPrice>::empty());
            assert(taken + base =~= base + items_of(before.skip(before.len() as int)));
            assert(start + observed_price_values(taken) =~= start);
        }
        loop
            invariant
                self.wf(),
                self.in_pass(*pass),
                self.max_chunk_size() == old(self).max_chunk_size(),
                self.gauges().described_as(old(self).gauges()),
                self.availability_zones() == old(self).availability_zones(),
                self.products() == old(self).products(),
                self.instance_types() == old(self).instance_types(),
                pass.snapshot() == old(pass).snapshot(),
                before == old(prices).answers(),
                base == old(prices).buffered(),
                start == old(pass).observed(),
                extends(before, prices.answers()),
                *final(prices.error_slot()) == *final(old(prices).error_slot()),
                *prices.error_slot() == *old(prices).error_slot(),
                prices.ended() == old(prices).ended(),
                prices.ended() ==> prices.answers().skip(before.len() as int).len() == 0,
                pass.observed() == start + observed_price_values(taken),
                ({
                    let fetched = prices.answers().skip(before.len() as int);
                    &&& forall|i: int| 0 <= i < fetched.len() ==> is_page(#[trigger] fetched[i])
                    &&& taken + prices.buffered() == base + items_of(fetched)
                }),
            decreases prices.requestor().pages_left(), prices.buffered().len(),
        {
            let ghost earlier = prices.answers();
            let ghost fetched = earlier.skip(before.len() as int);
            let ghost buffer = prices.buffered();
            proof {
                prices.lemma_ended_is_empty();
            }
            let next = prices.next();
            proof {
                let now = prices.answers();
                let step = now.skip(earlier.len() as int);
                assert(now.skip(before.len() as int) =~= fetched + step);
                assert(now.subrange(0, before.len() as int) =~= before);
                lemma_step_keeps_account(
                    old(prices).ended(),
                    base,
                    taken,
                    buffer,
                    fetched,
                    step,
                    next,
                    prices.buffered(),
                );
            }
            match next {
                Some(price) => {
                    self.observe(pass, &price);
                    proof {
                        let gathered = taken;
                        taken = taken.push(price);
                        assert(taken.drop_last() =~= gathered);
                        assert(taken.last() == price);
                        let seen = observed_price_values(gathered);
                        if is_complete_price(price) {
                            assert(start + seen.push(spot_price_values(price)) =~= (start
                                + seen).push(spot_price_values(price)));
                        }
                    }
                },
                None => {
                    return ;
                },
            }
        }
    }

    /// Runs one reconciliation pass over the listing behind `requestor`.
    ///
    /// The prices are taken in as they are fetched. If the listing is
    /// fetched to its end, the pass is committed; if a fetch fails, nothing
    /// is removed and the class of the failure is reported, unless it is
    /// the dry-run confirmation.
    pub fn poll<R: PaginatedRequestor<Item = SpotPrice, Error = ProviderError>>(
        &mut self,
        requestor: R,
    ) -> (report: Option<PollerError>)
        requires
            old(self).wf(),
        ensures
            final(self).wf(),
            final(self).max_chunk_size() == old(self).max_chunk_size(),
            final(self).gauges().described_as(old(self).gauges()),
            final(self).availability_zones() == old(self).availability_zones(),
            final(self).products() == old(self).products(),
            final(self).instance_types() == old(self).instance_types(),
            exists|run: Seq<Result<Option<Vec<SpotPrice>>, ProviderError>>| #[trigger]
                is_price_pass(old(self).series(), final(self).series(), view_report(report), run),
    {
        let mut pass = self.begin_pass();
        let mut query_err: Option<ProviderError> = None;
        let mut prices = PaginatedIterator::new(requestor, &mut query_err);
        self.take_in(&mut pass, &mut prices);
        let ghost run = prices.answers();
        proof {
            prices.lemma_error_slot_settles();
            assert(run.skip(0) =~= run);
            assert(Seq::<SpotPrice>::empty() + items_of(run) =~= items_of(run));
            assert(Seq::<Seq<Seq<char>>>::empty() + observed_price_values(items_of(run))
                =~= observed_price_values(items_of(run)));
        }
        let report = match query_err {
            None => {
                self.commit(pass);
                None
            },
            Some(e) => PollerError::classify(e, DESCRIBE_SPOT_PRICE_HISTORY).surfaced(),
        };
        proof {
            assert(is_price_pass(old(self).series(), self.series(), view_report(report), run));
        }
        report
    }
}

impl AwsSpotPricesPoller {
    /// Runs one reconciliation pass over answers that are at hand: what a
    /// pass does with a listing that gives these answers. The pages are
    /// taken in up to the first answer that is not a page; the end of the
    /// listing, or no more answers, commits the pass; a failure leaves
    /// everything in place and is reported with its class, unless it is
    /// the dry-run confirmation. Answers after the first that is not a
    /// page are not looked at.
    pub fn pass_over(&mut self, answers: Vec<Result<Option<Vec<SpotPrice>>, ProviderError>>) -> (report:
        Option<PollerError>)
        requires
            old(self).wf(),
        ensures
            final(self).wf(),
            final(self).max_chunk_size() == old(self).max_chunk_size(),
            final(self).gauges().described_as(old(self).gauges()),
            final(self).availability_zones() == old(self).availability_zones(),
            final(self).products() == old(self).products(),
            final(self).instance_types() == old(self).instance_types(),
            is_price_pass(
                old(self).series(),
                final(self).series(),
                view_report(report),
                run_of(answers@),
            ),
    {
        let mut answers = answers;
        let ghost all = answers@;
        let mut pass = self.begin_pass();
        let mut failure: Option<ProviderError> = None;
        let mut ended = false;
        let mut i: usize = 0;
        proof {
            assert(items_of(all.take(0)) =~= Seq::<SpotPrice>::empty());
        }
        while i < answers.len() && !ended
            invariant
                self.wf(),
                self.in_pass(pass),
                self.max_chunk_size() == old(self).max_chunk_size(),
                self.gauges().described_as(old(self).gauges()),
                self.availability_zones() == old(self).availability_zones(),
                self.products() == old(self).products(),
                self.instance_types() == old(self).instance_types(),
                pass.snapshot() == old(self).series(),
                answers@.len() == all.len(),
                i <= all.len(),
                forall|j: int| 0 <= j < i ==> is_page(#[trigger] all[j]),
                forall|j: int| i < j < all.len() ==> answers@[j] == all[j],
                !ended ==> failure is None && (i < all.len() ==> answers@[i as int] == all[i as int]),
                ended ==> i < all.len() && !is_page(all[i as int]) && (match all[i as int] {
                    Err(e) => failure == Some(e),
                    _ => failure is None,
                }),
                pass.observed() == observed_price_values(items_of(all.take(i as int))),
            decreases all.len() - i, !ended as int,
        {
            let mut answer: Result<Option<Vec<SpotPrice>>, ProviderError> = Ok(None);
            std::mem::swap(&mut answers[i], &mut answer);
            assert(answer == all[i as int]);
            match answer {
                Ok(Some(page)) => {
                    let ghost before = items_of(all.take(i as int));
                    let mut j: usize = 0;
                    proof {
                        assert(before + page@.take(0) =~= before);
                    }
                    while j < page.len()
                        invariant
                            self.wf(),
                            self.in_pass(pass),
                            self.max_chunk_size() == old(self).max_chunk_size(),
                            self.gauges().described_as(old(self).gauges()),
                            self.availability_zones() == old(self).availability_zones(),
                            self.products() == old(self).products(),
                            self.instance_types() == old(self).instance_types(),
                            pass.snapshot() == old(self).series(),
                            j <= page@.len(),
                            pass.observed() == observed_price_values(
                                before + page@.take(j as int),
                            ),
                        decreases page@.len() - j,
                    {
                        self.observe(&mut pass, &page[j]);
                        proof {
                            let so_far = before + page@.take(j as int);
                            let more = before + page@.take(j + 1);
                            assert(more.drop_last() =~= so_far);
                            assert(more.last() == page@[j as int]);
                        }
                        j = j + 1;
                    }
                    proof {
                        let upto = all.take(i + 1);
                        assert(page@.take(page@.len() as int) =~= page@);
                        assert(upto.drop_last() =~= all.take(i as int));
                        assert(upto.last() == all[i as int]);
                        assert(items_of(upto) =~= before + page@);
                    }
                    i = i + 1;
                },
                Ok(None) => {
                    ended = true;
                },
                Err(e) => {
                    failure = Some(e);
                    ended = true;
                },
            }
        }
        let ghost run = run_of(all);
        proof {
            lemma_run_of(all);
            lemma_end_of_run(all, 0);
            lemma_end_of_run(all, i as int);
            let end = end_of_run(all, 0);
            assert(end == i) by {
                if end < i {
                    assert(is_page(all[end]));
                }
                if end > i {
                    assert(!ended);
                }
            }
            if ended {
                assert(run.drop_last() =~= all.take(i as int));
                assert(run.last() == all[i as int]);
                assert(items_of(run) =~= items_of(all.take(i as int)));
            } else {
                assert(run.drop_last() =~= all);
                assert(all.take(i as int) =~= all);
                assert(items_of(run) =~= items_of(all));
            }
        }
        let report = match failure {
            None => {
                self.commit(pass);
                None
            },
            Some(e) => PollerError::classify(e, DESCRIBE_SPOT_PRICE_HISTORY).surfaced(),
        };
        proof {
            assert(is_price_pass(old(self).series(), self.series(), view_report(report), run));
        }
        report
    }
}

} // verus!
