//! The provider's compute records and list requests as plain values, and the
//! cursor bookkeeping of the two listings.

use vstd::prelude::*;

verus! {

/// A tag of a resource.
#[derive(Debug, Clone, Default)]
pub struct Tag {
    pub key: Option<String>,
    pub value: Option<String>,
}

/// Where an instance runs.
#[derive(Debug, Clone, Default)]
pub struct Placement {
    pub availability_zone: Option<String>,
}

/// A compute instance as the listing describes it. The provider may leave
/// any attribute out.
#[derive(Debug, Clone, Default)]
pub struct Instance {
    pub instance_id: Option<String>,
    pub instance_type: Option<String>,
    pub instance_lifecycle: Option<String>,
    pub platform: Option<String>,
    pub placement: Option<Placement>,
    pub tags: Option<Vec<Tag>>,
}

/// A group of instances that were launched together.
#[derive(Debug, Clone, Default)]
pub struct Reservation {
    pub instances: Option<Vec<Instance>>,
}

/// One sample of the spot price history.
#[derive(Debug, Clone, Default)]
pub struct SpotPrice {
    pub availability_zone: Option<String>,
    pub instance_type: Option<String>,
    pub product_description: Option<String>,
}

/// A server-side filter: a name and the values that pass.
#[derive(Debug, Clone, Default)]
pub struct Filter {
    pub name: Option<String>,
    pub values: Option<Vec<String>>,
}

/// The request of the instances listing.
#[derive(Debug, Clone, Default)]
pub struct DescribeInstancesRequest {
    pub dry_run: Option<bool>,
    pub filters: Option<Vec<Filter>>,
    pub max_results: Option<i32>,
    pub next_token: Option<String>,
}

/// One page of the instances listing.
#[derive(Debug, Clone, Default)]
pub struct DescribeInstancesResult {
    pub reservations: Option<Vec<Reservation>>,
    pub next_token: Option<String>,
}

/// The request of the spot price history listing.
#[derive(Debug, Clone, Default)]
pub struct DescribeSpotPriceHistoryRequest {
    pub dry_run: Option<bool>,
    pub start_time: Option<String>,
    pub end_time: Option<String>,
    pub filters: Option<Vec<Filter>>,
    pub instance_types: Option<Vec<String>>,
    pub product_descriptions: Option<Vec<String>>,
    pub max_results: Option<i32>,
    pub next_token: Option<String>,
}

/// One page of the spot price history listing.
#[derive(Debug, Clone, Default)]
pub struct DescribeSpotPriceHistoryResult {
    pub spot_price_history: Option<Vec<SpotPrice>>,
    pub next_token: Option<String>,
}

/// The filters of a request: none at all when the list is empty.
pub open spec fn filters_or_none(filters: Vec<Filter>) -> Option<Vec<Filter>> {
    if filters@.len() == 0 {
        None
    } else {
        Some(filters)
    }
}

/// Whether a listing has a page to fetch: always at the start, afterwards
/// only while the last page left a continuation token.
pub open spec fn has_more(first_chunk: bool, next_token: Option<String>) -> bool {
    first_chunk || next_token is Some
}

/// A continuation token as the listing goes on with it: an empty token is
/// no token.
pub open spec fn normalized(token: Option<String>) -> Option<String> {
    match token {
        Some(t) => if t@.len() == 0 {
            None
        } else {
            Some(t)
        },
        None => None,
    }
}

/// The continuation token as a listing goes on with it.
fn normalize(token: Option<String>) -> (kept: Option<String>)
    ensures
        kept == normalized(token),
{
    match token {
        Some(token) => if token.as_str().is_empty() {
            None
        } else {
            Some(token)
        },
        None => None,
    }
}

/// The instances of a list of reservations, reservation after reservation.
pub open spec fn instances_in(reservations: Seq<Reservation>) -> Seq<Instance>
    decreases reservations.len(),
{
    if reservations.len() == 0 {
        Seq::empty()
    } else {
        instances_in(reservations.drop_last()) + match reservations.last().instances {
            Some(instances) => instances@,
            None => Seq::empty(),
        }
    }
}

/// The records of one page of the instances listing.
pub open spec fn page_of(response: DescribeInstancesResult) -> Seq<Instance> {
    match response.reservations {
        Some(reservations) => instances_in(reservations@),
        None => Seq::empty(),
    }
}

/// The request that probes the instances listing: a dry run of an
/// otherwise empty request.
pub fn describe_instances_probe() -> (req: DescribeInstancesRequest)
    ensures
        req.dry_run == Some(true),
        req.filters is None,
        req.max_results is None,
        req.next_token is None,
{
    DescribeInstancesRequest {
        dry_run: Some(true),
        filters: None,
        max_results: None,
        next_token: None,
    }
}

/// The request that probes the spot price history listing: a dry run of an
/// otherwise empty request.
pub fn describe_spot_prices_probe() -> (req: DescribeSpotPriceHistoryRequest)
    ensures
        req.dry_run == Some(true),
        req.start_time is None,
        req.end_time is None,
        req.filters is None,
        req.instance_types is None,
        req.product_descriptions is None,
        req.max_results is None,
        req.next_token is None,
{
    DescribeSpotPriceHistoryRequest {
        dry_run: Some(true),
        start_time: None,
        end_time: None,
        filters: None,
        instance_types: None,
        product_descriptions: None,
        max_results: None,
        next_token: None,
    }
}

/// The state of one run through the instances listing: the request that
/// fetches the next page, and whether any page was asked for yet.
pub struct DescribeInstancesRequestor {
    pub req: DescribeInstancesRequest,
    pub first_chunk: bool,
}

impl DescribeInstancesRequestor {
    /// A run that has not started, with these filters and this page size
    /// hint.
    pub fn new(filters: Vec<Filter>, chunk_size: Option<i32>) -> (requestor: Self)
        ensures
            requestor.first_chunk,
            requestor.req.dry_run is None,
            requestor.req.filters == filters_or_none(filters),
            requestor.req.max_results == chunk_size,
            requestor.req.next_token is None,
    {
        let filters = if filters.len() == 0 {
            None
        } else {
            Some(filters)
        };
        DescribeInstancesRequestor {
            req: DescribeInstancesRequest {
                dry_run: None,
                filters: filters,
                max_results: chunk_size,
                next_token: None,
            },
            first_chunk: true,
        }
    }

    /// Decides whether a page is to be fetched now. The first page always
    /// is; a later one only if the page before left a token. From then on
    /// the run has started.
    pub fn begin_page(&mut self) -> (fetch: bool)
        ensures
            fetch == has_more(old(self).first_chunk, old(self).req.next_token),
            final(self).req == old(self).req,
            final(self).first_chunk == (old(self).first_chunk && !fetch),
    {
        if self.req.next_token.is_none() && !self.first_chunk {
            return false;
        }
        self.first_chunk = false;
        true
    }

    /// Takes in a page: hands out its instances, reservation after
    /// reservation, and keeps its token for the next request. An empty
    /// token ends the listing like a missing one.
    pub fn accept_page(&mut self, response: DescribeInstancesResult) -> (chunk: Vec<Instance>)
        ensures
            chunk@ == page_of(response),
            final(self).req.next_token == normalized(response.next_token),
            final(self).req.dry_run == old(self).req.dry_run,
            final(self).req.filters == old(self).req.filters,
            final(self).req.max_results == old(self).req.max_results,
            final(self).first_chunk == old(self).first_chunk,
    {
        let mut chunk: Vec<Instance> = Vec::new();
        if let Some(reservations) = response.reservations {
            let ghost all = reservations@;
            let mut reservations = reservations;
            let mut i: usize = 0;
            let count = reservations.len();
            while i < count
                invariant
                    count == all.len(),
                    reservations@.len() == count,
                    i <= count,
                    chunk@ == instances_in(all.subrange(0, i as int)),
                    forall|j: int| i <= j < count ==> reservations@[j] == all[j],
                decreases count - i,
            {
                let mut taken: Option<Vec<Instance>> = None;
                std::mem::swap(&mut reservations[i].instances, &mut taken);
                proof {
                    assert(all.subrange(0, i + 1).drop_last() =~= all.subrange(0, i as int));
                    assert(all.subrange(0, i + 1).last() == all[i as int]);
                }
                if let Some(mut instances) = taken {
                    chunk.append(&mut instances);
                }
                i = i + 1;
            }
            assert(all.subrange(0, count as int) =~= all);
        }
        self.req.next_token = normalize(response.next_token);
        chunk
    }
}

/// The form in which the listing takes a moment: the date, `T`, the time
/// of day.
pub const MOMENT_FORMAT: &'static str = "%FT%T";

/// The present time in UTC in the form `format`. This is `time::now_utc`
/// formatted by `strftime`, which takes the form `MOMENT_FORMAT` and is
/// asked for no other; nothing is claimed of the text, which depends on
/// the clock.
#[verifier::external_body]
fn utc_now(format: &str) -> (text: String)
    requires
        format@ == MOMENT_FORMAT@,
{
    format!("{}", time::now_utc().strftime(format).unwrap())
}

/// The state of one run through the spot price history listing.
pub struct DescribeSpotPricesRequestor {
    pub req: DescribeSpotPriceHistoryRequest,
    pub first_chunk: bool,
}

impl DescribeSpotPricesRequestor {
    /// A run that has not started, for the prices at the moment `now`: the
    /// window of the listing starts and ends there, so that each run sees
    /// the latest sample only.
    pub fn new(
        filters: Vec<Filter>,
        products: Option<Vec<String>>,
        instance_types: Option<Vec<String>>,
        chunk_size: Option<i32>,
        now: String,
    ) -> (requestor: Self)
        ensures
            requestor.first_chunk,
            requestor.req.dry_run is None,
            requestor.req.start_time matches Some(t) && t@ == now@,
            requestor.req.end_time matches Some(t) && t@ == now@,
            requestor.req.filters == filters_or_none(filters),
            requestor.req.instance_types == instance_types,
            requestor.req.product_descriptions == products,
            requestor.req.max_results == chunk_size,
            requestor.req.next_token is None,
    {
        let filters = if filters.len() == 0 {
            None
        } else {
            Some(filters)
        };
        let start = now.clone();
        DescribeSpotPricesRequestor {
            req: DescribeSpotPriceHistoryRequest {
                dry_run: None,
                start_time: Some(start),
                end_time: Some(now),
                filters: filters,
                instance_types: instance_types,
                product_descriptions: products,
                max_results: chunk_size,
                next_token: None,
            },
            first_chunk: true,
        }
    }

    /// A run that has not started, for the prices at the present moment.
    /// Whatever the clock says, the window starts and ends at one and the
    /// same time.
    pub fn at_present(
        filters: Vec<Filter>,
        products: Option<Vec<String>>,
        instance_types: Option<Vec<String>>,
        chunk_size: Option<i32>,
    ) -> (requestor: Self)
        ensures
            requestor.first_chunk,
            requestor.req.dry_run is None,
            requestor.req.start_time is Some,
            requestor.req.end_time is Some,
            requestor.req.start_time->0@ == requestor.req.end_time->0@,
            requestor.req.filters == filters_or_none(filters),
            requestor.req.instance_types == instance_types,
            requestor.req.product_descriptions == products,
            requestor.req.max_results == chunk_size,
            requestor.req.next_token is None,
    {
        Self::new(filters, products, instance_types, chunk_size, utc_now(MOMENT_FORMAT))
    }

    /// Decides whether a page is to be fetched now. The first page always
    /// is; a later one only if the page before left a token. From then on
    /// the run has started.
    pub fn begin_page(&mut self) -> (fetch: bool)
        ensures
            fetch == has_more(old(self).first_chunk, old(self).req.next_token),
            final(self).req == old(self).req,
            final(self).first_chunk == (old(self).first_chunk && !fetch),
    {
        if self.req.next_token.is_none() && !self.first_chunk {
            return false;
        }
        self.first_chunk = false;
        true
    }

    /// Takes in a page: hands out its samples as they came, and keeps its
    /// token for the next request. An empty token ends the listing like a
    /// missing one.
    pub fn accept_page(&mut self, response: DescribeSpotPriceHistoryResult) -> (chunk: Option<
        Vec<SpotPrice>,
    >)
        ensures
            chunk == response.spot_price_history,
            final(self).req.next_token == normalized(response.next_token),
            final(self).req.dry_run == old(self).req.dry_run,
            final(self).req.start_time == old(self).req.start_time,
            final(self).req.end_time == old(self).req.end_time,
            final(self).req.filters == old(self).req.filters,
            final(self).req.instance_types == old(self).req.instance_types,
            final(self).req.product_descriptions == old(self).req.product_descriptions,
            final(self).req.max_results == old(self).req.max_results,
            final(self).first_chunk == old(self).first_chunk,
    {
        self.req.next_token = normalize(response.next_token);
        response.spot_price_history
    }
}

} // verus!
