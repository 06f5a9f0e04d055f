//! Draining a cursor-paginated listing record by record.

use vstd::prelude::*;

verus! {

/// A ranking of the states of a requestor by natural numbers of which
/// nothing is known: it is fixed for each requestor type, and that is all.
pub closed spec fn unspecified_rank<TR>(state: TR) -> nat {
    arbitrary::<spec_fn(TR) -> nat>()(state)
}

/// One remote listing that is read page by page.
///
/// `next_page` answers with `Ok(Some(page))` for a page of records,
/// `Ok(None)` once the listing is exhausted, and `Err(e)` when a fetch fails.
///
/// A listing is finite. An implementation promises that it serves only
/// finitely many pages, and the contract of `next_page` states the promise:
/// there is a bound on the pages still to come, and every page that is
/// served lowers it. The promise of an implementation is taken on trust;
/// what is proved of the iterator holds for the requestors that keep it.
pub trait PaginatedRequestor: Sized {
    type Item;

    type Error;

    /// An upper bound on the number of pages that can still be served. An
    /// implementation that does not say what its bound is promises no more
    /// than that it has one.
    open spec fn pages_left(&self) -> nat {
        unspecified_rank(*self)
    }

    fn next_page(&mut self) -> (answer: Result<Option<Vec<Self::Item>>, Self::Error>)
        ensures
            answer matches Ok(Some(_)) ==> final(self).pages_left() < old(self).pages_left(),
    ;
}

/// Whether an answer carries a page, so that the listing goes on.
pub open spec fn is_page<I, E>(answer: Result<Option<Vec<I>>, E>) -> bool {
    answer matches Ok(Some(_))
}

/// The records of an answer: those of its page, none for any other answer.
pub open spec fn page_items<I, E>(answer: Result<Option<Vec<I>>, E>) -> Seq<I> {
    match answer {
        Ok(Some(page)) => page@,
        _ => Seq::empty(),
    }
}

/// All records of a sequence of answers, page after page, in page order.
pub open spec fn items_of<I, E>(answers: Seq<Result<Option<Vec<I>>, E>>) -> Seq<I>
    decreases answers.len(),
{
    if answers.len() == 0 {
        Seq::empty()
    } else {
        items_of(answers.drop_last()) + page_items(answers.last())
    }
}

/// A complete fetch run: any number of pages, closed by exactly one answer
/// that is not a page (the end of the listing, or a failure).
pub open spec fn is_run<I, E>(answers: Seq<Result<Option<Vec<I>>, E>>) -> bool {
    &&& answers.len() > 0
    &&& !is_page(answers.last())
    &&& forall|i: int| 0 <= i < answers.len() - 1 ==> is_page(#[trigger] answers[i])
}

/// The fetches one call of `next` makes on an empty buffer: it skips pages
/// without records and stops at the first answer that is anything else.
pub open spec fn is_search<I, E>(answers: Seq<Result<Option<Vec<I>>, E>>) -> bool {
    &&& answers.len() > 0
    &&& !(is_page(answers.last()) && page_items(answers.last()).len() == 0)
    &&& forall|i: int|
        0 <= i < answers.len() - 1 ==> is_page(#[trigger] answers[i]) && page_items(
            answers[i],
        ).len() == 0
}

/// Whether `after` continues `before`: nothing served is ever taken back.
pub open spec fn extends<I, E>(
    before: Seq<Result<Option<Vec<I>>, E>>,
    after: Seq<Result<Option<Vec<I>>, E>>,
) -> bool {
    &&& before.len() <= after.len()
    &&& after.subrange(0, before.len() as int) == before
}

/// The error slot after a fetch: a failure is stored, anything else leaves it.
pub open spec fn slot_after<I, E>(slot: Option<E>, answer: Result<Option<Vec<I>>, E>) -> Option<E> {
    match answer {
        Err(e) => Some(e),
        _ => slot,
    }
}

/// The error slot after the fetches `fetched`, of which only the last can
/// have failed.
pub open spec fn slot_after_all<I, E>(slot: Option<E>, fetched: Seq<Result<Option<Vec<I>>, E>>)
    -> Option<E> {
    if fetched.len() == 0 {
        slot
    } else {
        slot_after(slot, fetched.last())
    }
}

/// Whether `fetched` is what is fetched to get to the end of a sequence:
/// nothing at all where the sequence has `ended` already, and one complete
/// run where it has not.
pub open spec fn is_rest<I, E>(ended: bool, fetched: Seq<Result<Option<Vec<I>>, E>>) -> bool {
    if ended {
        fetched.len() == 0
    } else {
        is_run(fetched)
    }
}

/// What one call of `next` does with the records `buffered`. Once the
/// sequence has `ended` it hands out nothing and fetches nothing. Before
/// that, while there are records, it hands out the first and fetches
/// nothing; on an empty buffer it makes the fetches `fetched`, a search,
/// and hands out the first record of the page it found, if it found one.
/// `left` is what stays buffered.
pub open spec fn is_step<I, E>(
    ended: bool,
    buffered: Seq<I>,
    fetched: Seq<Result<Option<Vec<I>>, E>>,
    item: Option<I>,
    left: Seq<I>,
) -> bool {
    if ended {
        &&& fetched.len() == 0
        &&& item is None
        &&& left.len() == 0
    } else if buffered.len() > 0 {
        &&& fetched.len() == 0
        &&& item == Some(buffered[0])
        &&& left == buffered.drop_first()
    } else {
        &&& is_search(fetched)
        &&& if page_items(fetched.last()).len() > 0 {
            &&& item == Some(page_items(fetched.last())[0])
            &&& left == page_items(fetched.last()).drop_first()
        } else {
            &&& item is None
            &&& left.len() == 0
        }
    }
}

/// The answers of pages `pages`, each served successfully.
pub open spec fn served_pages<I, E>(pages: Seq<Vec<I>>) -> Seq<Result<Option<Vec<I>>, E>> {
    Seq::new(pages.len(), |i: int| Ok(Some(pages[i])))
}

/// The records of `pages`, in page order.
pub open spec fn concat_pages<I>(pages: Seq<Vec<I>>) -> Seq<I>
    decreases pages.len(),
{
    if pages.len() == 0 {
        Seq::empty()
    } else {
        concat_pages(pages.drop_last()) + pages.last()@
    }
}

/// The number of records in `pages`.
pub open spec fn total_len<I>(pages: Seq<Vec<I>>) -> nat
    decreases pages.len(),
{
    if pages.len() == 0 {
        0
    } else {
        total_len(pages.drop_last()) + pages.last()@.len()
    }
}

/// The place of the first answer from `from` on that is not a page, and
/// the number of answers if there is none.
pub open spec fn end_of_run<I, E>(answers: Seq<Result<Option<Vec<I>>, E>>, from: int) -> int
    decreases answers.len() - from,
{
    if from < 0 || from >= answers.len() {
        answers.len() as int
    } else if !is_page(answers[from]) {
        from
    } else {
        end_of_run(answers, from + 1)
    }
}

/// The run that `answers` make up: the answers up to the first that is not
/// a page, and that one; or, where all are pages, the pages and then the
/// end of the listing.
pub open spec fn run_of<I, E>(answers: Seq<Result<Option<Vec<I>>, E>>) -> Seq<
    Result<Option<Vec<I>>, E>,
> {
    let end = end_of_run(answers, 0);
    if end < answers.len() {
        answers.take(end + 1)
    } else {
        answers.push(Ok(None))
    }
}

/// Where a run ends: not before `from`, with pages only between `from` and
/// the end, and at an answer that is not a page if it ends at an answer at
/// all.
pub proof fn lemma_end_of_run<I, E>(answers: Seq<Result<Option<Vec<I>>, E>>, from: int)
    requires
        0 <= from <= answers.len(),
    ensures
        from <= end_of_run(answers, from) <= answers.len(),
        forall|i: int| from <= i < end_of_run(answers, from) ==> is_page(#[trigger] answers[i]),
        end_of_run(answers, from) < answers.len() ==> !is_page(
            answers[end_of_run(answers, from)],
        ),
    decreases answers.len() - from,
{
    if from < answers.len() && is_page(answers[from]) {
        lemma_end_of_run(answers, from + 1);
    }
}

/// What `answers` make up is one complete run, and a complete run makes up
/// itself.
pub proof fn lemma_run_of<I, E>(answers: Seq<Result<Option<Vec<I>>, E>>)
    ensures
        is_run(run_of(answers)),
        is_run(answers) ==> run_of(answers) == answers,
{
    lemma_end_of_run(answers, 0);
    let end = end_of_run(answers, 0);
    let run = run_of(answers);
    if end < answers.len() {
        assert(run.last() == answers[end]);
        assert forall|i: int| 0 <= i < run.len() - 1 implies is_page(#[trigger] run[i]) by {
            assert(run[i] == answers[i]);
        }
    } else {
        assert forall|i: int| 0 <= i < run.len() - 1 implies is_page(#[trigger] run[i]) by {
            assert(run[i] == answers[i]);
        }
    }
    if is_run(answers) {
        if end < answers.len() - 1 {
            assert(is_page(answers[end]));
        }
        assert(end == answers.len() - 1);
        assert(run =~= answers);
    }
}

/// A lazy, single-pass sequence of the records of a paginated listing.
///
/// A page is fetched only when the buffered one has been handed out in full.
/// A failed fetch ends the sequence like exhaustion does; the error is left
/// in the slot the caller handed to `new`, which the caller reads once the
/// sequence is over. A sequence that has ended stays ended: nothing is
/// fetched any more and nothing handed out.
pub struct PaginatedIterator<'a, TR: PaginatedRequestor> {
    requestor: TR,
    current_page: Option<Vec<TR::Item>>,
    ended: bool,
    error: &'a mut Option<TR::Error>,
    answers: Ghost<Seq<Result<Option<Vec<TR::Item>>, TR::Error>>>,
}

/// A page in reverse order, so that its first record is removed first.
fn reversed<I>(page: Vec<I>) -> (stack: Vec<I>)
    ensures
        stack@ == page@.reverse(),
{
    let mut page = page;
    let mut stack: Vec<I> = Vec::new();
    let ghost whole = page@;
    while page.len() > 0
        invariant
            page@.len() + stack@.len() == whole.len(),
            page@ == whole.subrange(0, page@.len() as int),
            forall|i: int| 0 <= i < stack@.len() ==> stack@[i] == whole[whole.len() - 1 - i],
        decreases page.len(),
    {
        let last = page.pop();
        match last {
            Some(item) => {
                stack.push(item);
            },
            None => {},
        }
    }
    assert(stack@ =~= whole.reverse());
    stack
}

impl<'a, TR: PaginatedRequestor> PaginatedIterator<'a, TR> {
    /// The requestor in its present state.
    pub closed spec fn requestor(&self) -> TR {
        self.requestor
    }

    /// Every answer this iterator has taken in so far, oldest first.
    pub closed spec fn answers(&self) -> Seq<Result<Option<Vec<TR::Item>>, TR::Error>> {
        self.answers@
    }

    /// The records of the fetched page that have not been handed out yet,
    /// next one first.
    pub closed spec fn buffered(&self) -> Seq<TR::Item> {
        if self.ended {
            Seq::empty()
        } else {
            match self.current_page {
                Some(stack) => stack@.reverse(),
                None => Seq::empty(),
            }
        }
    }

    /// Whether the sequence has ended: the listing was exhausted, or a
    /// fetch failed.
    pub closed spec fn ended(&self) -> bool {
        self.ended
    }

    /// A sequence that has ended has nothing buffered.
    pub proof fn lemma_ended_is_empty(&self)
        ensures
            self.ended() ==> self.buffered().len() == 0,
    {
    }

    /// The caller's error slot.
    pub closed spec fn error_slot(&self) -> &'a mut Option<TR::Error> {
        self.error
    }

    /// Once the iterator is no longer used, the error slot keeps what it
    /// holds.
    pub proof fn lemma_error_slot_settles(&self)
        requires
            has_resolved(*self),
        ensures
            *final(self.error_slot()) == *self.error_slot(),
    {
    }

    /// Wraps `requestor`. Nothing is fetched yet; `error` is left as it is
    /// until a fetch fails.
    pub fn new(requestor: TR, error: &'a mut Option<TR::Error>) -> (it: Self)
        ensures
            it.requestor() == requestor,
            it.answers().len() == 0,
            it.buffered().len() == 0,
            !it.ended(),
            *it.error_slot() == *old(error),
            *final(it.error_slot()) == *final(error),
    {
        PaginatedIterator {
            requestor: requestor,
            current_page: None,
            ended: false,
            error: error,
            answers: Ghost(Seq::empty()),
        }
    }

    /// Takes in one answer of the requestor. A page replaces the buffer,
    /// records still buffered are dropped; the end of the listing and a
    /// failure leave the buffer empty and end the sequence, and a failure
    /// is stored in the error slot. Once the sequence has ended, an answer
    /// changes nothing.
    pub fn absorb(&mut self, answer: Result<Option<Vec<TR::Item>>, TR::Error>)
        ensures
            final(self).requestor() == old(self).requestor(),
            *final(final(self).error_slot()) == *final(old(self).error_slot()),
            old(self).ended() ==> {
                &&& final(self).ended()
                &&& final(self).answers() == old(self).answers()
                &&& final(self).buffered().len() == 0
                &&& *final(self).error_slot() == *old(self).error_slot()
            },
            !old(self).ended() ==> {
                &&& final(self).ended() == !is_page(answer)
                &&& final(self).answers() == old(self).answers().push(answer)
                &&& final(self).buffered() == page_items(answer)
                &&& *final(self).error_slot() == slot_after(*old(self).error_slot(), answer)
            },
    {
        if self.ended {
            return ;
        }
        self.answers = Ghost(self.answers@.push(answer));
        match answer {
            Ok(Some(page)) => {
                let stack = reversed(page);
                assert(stack@.reverse() =~= page@);
                self.current_page = Some(stack);
            },
            Ok(None) => {
                self.current_page = None;
                self.ended = true;
            },
            Err(e) => {
                *self.error = Some(e);
                self.current_page = None;
                self.ended = true;
            },
        }
    }

    /// Fetches once and takes the answer in, whatever it is. Once the
    /// sequence has ended, nothing is fetched and nothing changes.
    pub fn advance_page(&mut self)
        ensures
            *final(final(self).error_slot()) == *final(old(self).error_slot()),
            old(self).ended() ==> {
                &&& final(self).ended()
                &&& final(self).requestor() == old(self).requestor()
                &&& final(self).answers() == old(self).answers()
                &&& final(self).buffered().len() == 0
                &&& *final(self).error_slot() == *old(self).error_slot()
            },
            !old(self).ended() ==> {
                &&& final(self).answers().len() == old(self).answers().len() + 1
                &&& final(self).answers().drop_last() == old(self).answers()
                &&& final(self).ended() == !is_page(final(self).answers().last())
                &&& final(self).buffered() == page_items(final(self).answers().last())
                &&& *final(self).error_slot() == slot_after(
                    *old(self).error_slot(),
                    final(self).answers().last(),
                )
                &&& is_page(final(self).answers().last()) ==> final(self).requestor().pages_left()
                    < old(self).requestor().pages_left()
            },
    {
        if self.ended {
            return ;
        }
        let answer = self.requestor.next_page();
        self.absorb(answer);
        assert(self.answers().drop_last() =~= old(self).answers());
    }
}

impl<'a, TR: PaginatedRequestor> PaginatedIterator<'a, TR> {
    /// Hands out the next record, fetching pages as needed.
    ///
    /// While records are buffered nothing is fetched. On an empty buffer
    /// pages are fetched until one holds a record, the listing ends, or a
    /// fetch fails; the last two give `None` and end the sequence. Once
    /// the sequence has ended, `None` is all there is: nothing is fetched,
    /// and the error slot is left as it is.
    pub fn next(&mut self) -> (item: Option<TR::Item>)
        ensures
            extends(old(self).answers(), final(self).answers()),
            *final(final(self).error_slot()) == *final(old(self).error_slot()),
            ({
                let fetched = final(self).answers().skip(old(self).answers().len() as int);
                &&& is_step(
                    old(self).ended(),
                    old(self).buffered(),
                    fetched,
                    item,
                    final(self).buffered(),
                )
                &&& final(self).ended() == (old(self).ended() || (fetched.len() > 0 && !is_page(
                    fetched.last(),
                )))
                &&& *final(self).error_slot() == slot_after_all(*old(self).error_slot(), fetched)
                &&& fetched.len() == 0 ==> final(self).requestor() == old(self).requestor()
                &&& fetched.len() > 0 && is_page(fetched.last())
                    ==> final(self).requestor().pages_left() < old(self).requestor().pages_left()
            }),
    {
        let ghost before = self.answers@;
        let ghost slot = *self.error;
        assert(before.subrange(0, before.len() as int) =~= before);
        if self.ended {
            assert(before.skip(before.len() as int) =~= Seq::empty());
            return None;
        }
        loop
            invariant
                !self.ended,
                !old(self).ended,
                extends(before, self.answers@),
                before == old(self).answers@,
                slot == *old(self).error,
                *final(self.error) == *final(old(self).error),
                ({
                    let fetched = self.answers@.skip(before.len() as int);
                    if fetched.len() == 0 {
                        &&& self.buffered() == old(self).buffered()
                        &&& *self.error == slot
                        &&& self.requestor == old(self).requestor
                    } else {
                        &&& self.requestor.pages_left() < old(self).requestor.pages_left()
                        &&& old(self).buffered().len() == 0
                        &&& is_page(fetched.last())
                        &&& self.buffered() == page_items(fetched.last())
                        &&& *self.error == slot
                        &&& forall|i: int|
                            0 <= i < fetched.len() - 1 ==> is_page(#[trigger] fetched[i])
                                && page_items(fetched[i]).len() == 0
                    }
                }),
            decreases self.requestor.pages_left(),
        {
            let ghost fetched = self.answers@.skip(before.len() as int);
            let ghost buffer = self.buffered();
            let popped = match &mut self.current_page {
                Some(stack) => stack.pop(),
                None => None,
            };
            if popped.is_some() {
                proof {
                    assert(buffer.len() > 0);
                    assert(self.buffered() =~= buffer.drop_first());
                    assert(popped == Some(buffer[0]));
                }
                return popped;
            }
            assert(buffer.len() == 0);
            let ghost middle = self.answers@;
            self.advance_page();
            proof {
                let now = self.answers@;
                let grown = now.skip(before.len() as int);
                assert(now.drop_last() == middle);
                assert(grown.drop_last() =~= fetched);
                assert(grown.last() == now.last());
                assert(now.subrange(0, before.len() as int) =~= before);
                assert forall|i: int| 0 <= i < grown.len() - 1 implies is_page(
                    #[trigger] grown[i],
                ) && page_items(grown[i]).len() == 0 by {
                    assert(grown[i] == fetched[i]);
                }
            }
            if self.ended {
                return None;
            }
        }
    }
}

/// The records of two stretches of answers are those of the first, then
/// those of the second.
pub proof fn lemma_items_of_concat<I, E>(
    first: Seq<Result<Option<Vec<I>>, E>>,
    second: Seq<Result<Option<Vec<I>>, E>>,
)
    ensures
        items_of(first + second) == items_of(first) + items_of(second),
    decreases second.len(),
{
    if second.len() == 0 {
        assert(first + second =~= first);
        assert(items_of(first) + items_of(second) =~= items_of(first));
    } else {
        lemma_items_of_concat(first, second.drop_last());
        assert((first + second).drop_last() =~= first + second.drop_last());
        assert((first + second).last() == second.last());
        assert(items_of(first + second) =~= items_of(first) + items_of(second));
    }
}

/// A search hands on exactly the records of the answer that ended it.
pub proof fn lemma_items_of_search<I, E>(answers: Seq<Result<Option<Vec<I>>, E>>)
    requires
        answers.len() > 0,
        forall|i: int|
            0 <= i < answers.len() - 1 ==> is_page(#[trigger] answers[i]) && page_items(
                answers[i],
            ).len() == 0,
    ensures
        items_of(answers) == page_items(answers.last()),
    decreases answers.len(),
{
    let head = answers.drop_last();
    if head.len() == 0 {
        assert(items_of(head) =~= Seq::<I>::empty());
    } else {
        assert forall|i: int| 0 <= i < head.len() - 1 implies is_page(#[trigger] head[i])
            && page_items(head[i]).len() == 0 by {
            assert(head[i] == answers[i]);
        }
        lemma_items_of_search(head);
        assert(head.last() == answers[head.len() - 1]);
        assert(items_of(head) =~= Seq::<I>::empty());
    }
    assert(items_of(answers) =~= page_items(answers.last()));
}

/// The records of pages that were all served successfully are the records of
/// the pages, page after page, and as many as the pages hold.
pub proof fn lemma_items_of_served_pages<I, E>(pages: Seq<Vec<I>>)
    ensures
        items_of(served_pages::<I, E>(pages)) == concat_pages(pages),
        concat_pages(pages).len() == total_len(pages),
    decreases pages.len(),
{
    let answers = served_pages::<I, E>(pages);
    if pages.len() > 0 {
        lemma_items_of_served_pages::<I, E>(pages.drop_last());
        assert(answers.drop_last() =~= served_pages::<I, E>(pages.drop_last()));
        assert(answers.last() == Ok::<Option<Vec<I>>, E>(Some(pages.last())));
    }
}

/// Pagination termination: when the pages `pages` are served and then the
/// end of the listing, these answers are one complete run; the run hands out
/// the records of all the pages in the order of the pages, as many as the pages
/// hold together; and the error slot stays as it was, so an empty slot stays
/// empty.
pub proof fn lemma_pagination_termination<I, E>(pages: Seq<Vec<I>>, slot: Option<E>)
    ensures
        is_run(served_pages::<I, E>(pages).push(Ok(None))),
        items_of(served_pages::<I, E>(pages).push(Ok(None))) == concat_pages(pages),
        items_of(served_pages::<I, E>(pages).push(Ok(None))).len() == total_len(pages),
        slot_after(slot, served_pages::<I, E>(pages).push(Ok(None)).last()) == slot,
{
    let answers = served_pages::<I, E>(pages).push(Ok(None));
    lemma_items_of_served_pages::<I, E>(pages);
    assert(answers.drop_last() =~= served_pages::<I, E>(pages));
    assert(items_of(answers) =~= concat_pages(pages));
}

/// Pagination abort: when the pages `pages` are served and the next fetch
/// fails with `e`, these answers are one complete run; the run hands out the
/// records of the pages before the failure and no others; and the error slot
/// holds `e`, whatever it held before.
pub proof fn lemma_pagination_abort<I, E>(pages: Seq<Vec<I>>, e: E, slot: Option<E>)
    ensures
        is_run(served_pages::<I, E>(pages).push(Err(e))),
        items_of(served_pages::<I, E>(pages).push(Err(e))) == concat_pages(pages),
        items_of(served_pages::<I, E>(pages).push(Err(e))).len() == total_len(pages),
        slot_after(slot, served_pages::<I, E>(pages).push(Err(e)).last()) == Some(e),
{
    let answers = served_pages::<I, E>(pages).push(Err(e));
    lemma_items_of_served_pages::<I, E>(pages);
    assert(answers.drop_last() =~= served_pages::<I, E>(pages));
    assert(items_of(answers) =~= concat_pages(pages));
}

/// How the account of a consumer goes on over one call of `next`.
///
/// The consumer has gathered `gathered`; together with what is buffered
/// this is `base` and the records of the pages `fetched` so far. After a
/// step that hands out a record the same holds with the record gathered;
/// after a step that hands out nothing the fetches are all that was to be
/// fetched, and what was gathered is `base` and all their records.
pub proof fn lemma_step_keeps_account<I, E>(
    ended: bool,
    base: Seq<I>,
    gathered: Seq<I>,
    buffered: Seq<I>,
    fetched: Seq<Result<Option<Vec<I>>, E>>,
    step: Seq<Result<Option<Vec<I>>, E>>,
    item: Option<I>,
    left: Seq<I>,
)
    requires
        forall|i: int| 0 <= i < fetched.len() ==> is_page(#[trigger] fetched[i]),
        gathered + buffered == base + items_of(fetched),
        ended ==> fetched.len() == 0 && buffered.len() == 0,
        is_step(ended, buffered, step, item, left),
    ensures
        item matches Some(record) ==> gathered.push(record) + left == base + items_of(
            fetched + step,
        ) && forall|i: int| 0 <= i < (fetched + step).len() ==> is_page(#[trigger] (fetched + step)[i]),
        item is None ==> is_rest(ended, fetched + step) && gathered == base + items_of(
            fetched + step,
        ) && left.len() == 0,
        slot_after_all::<I, E>(None, step) is Some ==> item is None,
{
    let grown = fetched + step;
    lemma_items_of_concat(fetched, step);
    if ended {
        assert(grown =~= fetched);
        assert(gathered =~= gathered + buffered);
        assert(items_of(step) =~= Seq::<I>::empty());
        assert(gathered =~= base + items_of(grown));
        return ;
    }
    if buffered.len() == 0 {
        lemma_items_of_search(step);
        assert(gathered =~= gathered + buffered);
    } else {
        assert(items_of(step) =~= Seq::<I>::empty());
    }
    assert forall|i: int| 0 <= i < grown.len() - 1 implies is_page(#[trigger] grown[i]) by {
        if i < fetched.len() {
            assert(grown[i] == fetched[i]);
        } else {
            assert(grown[i] == step[i - fetched.len()]);
        }
    }
    match item {
        Some(record) => {
            if buffered.len() == 0 {
                assert(gathered.push(record) + left =~= gathered + page_items(step.last()));
                assert(grown.last() == step.last());
            } else {
                assert(gathered.push(record) + left =~= gathered + buffered);
                assert(grown =~= fetched);
            }
            assert forall|i: int| 0 <= i < grown.len() implies is_page(#[trigger] grown[i]) by {
                if i < fetched.len() {
                    assert(grown[i] == fetched[i]);
                } else {
                    assert(grown[i] == step[i - fetched.len()]);
                }
            }
        },
        None => {
            assert(grown.last() == step.last());
            assert(gathered =~= base + items_of(grown));
        },
    }
}

impl<'a, TR: PaginatedRequestor> PaginatedIterator<'a, TR> {
    /// Hands out everything that is left: the buffered records, then the
    /// records of every further page up to the end of the listing or the
    /// first failed fetch.
    pub fn drain(&mut self) -> (items: Vec<TR::Item>)
        ensures
            extends(old(self).answers(), final(self).answers()),
            *final(final(self).error_slot()) == *final(old(self).error_slot()),
            final(self).buffered().len() == 0,
            ({
                let fetched = final(self).answers().skip(old(self).answers().len() as int);
                &&& is_rest(old(self).ended(), fetched)
                &&& items@ == old(self).buffered() + items_of(fetched)
                &&& *final(self).error_slot() == slot_after_all(*old(self).error_slot(), fetched)
            }),
            final(self).ended(),
    {
        let mut items: Vec<TR::Item> = Vec::new();
        let ghost before = self.answers@;
        assert(before.subrange(0, before.len() as int) =~= before);
        assert(items_of(before.skip(before.len() as int)) =~= Seq::<TR::Item>::empty());
        loop
            invariant
                before == old(self).answers@,
                extends(before, self.answers@),
                *final(self.error) == *final(old(self).error),
                *self.error == *old(self).error,
                self.ended == old(self).ended,
                ({
                    let fetched = self.answers@.skip(before.len() as int);
                    &&& self.ended ==> fetched.len() == 0
                    &&& forall|i: int| 0 <= i < fetched.len() ==> is_page(#[trigger] fetched[i])
                    &&& items@ + self.buffered() == old(self).buffered() + items_of(fetched)
                }),
            decreases self.requestor.pages_left(), self.buffered().len(),
        {
            let ghost earlier = self.answers@;
            let ghost fetched = earlier.skip(before.len() as int);
            let ghost buffer = self.buffered();
            let ghost gathered = items@;
            let next = self.next();
            proof {
                let now = self.answers@;
                let step = now.skip(earlier.len() as int);
                assert(now.skip(before.len() as int) =~= fetched + step);
                assert(now.subrange(0, before.len() as int) =~= before);
                lemma_step_keeps_account(
                    old(self).ended,
                    old(self).buffered(),
                    gathered,
                    buffer,
                    fetched,
                    step,
                    next,
                    self.buffered(),
                );
            }
            match next {
                Some(item) => {
                    items.push(item);
                },
                None => {
                    return items;
                },
            }
        }
    }
}

} // verus!
