//! Going through all results of a search, page by page.

use http::Uri;
use std::collections::VecDeque;
use vstd::prelude::*;

verus! {

/// `http::Uri`, the link to a page. Nothing is claimed of it.
#[verifier::external_type_specification]
#[verifier::external_body]
pub struct ExUri(http::Uri);

/// A page of results.
#[derive(Debug)]
pub struct Page<T> {
    pub items: Vec<T>,
    /// The link to the next page, if there is one.
    pub next: Option<Uri>,
}

/// What is left of a page, and where to go on.
pub struct PageIterator<T> {
    current: VecDeque<T>,
    next: Option<Uri>,
}

/// A page, or what is left of it.
pub struct PageView<T> {
    pub items: Seq<T>,
    pub next: Option<Uri>,
}

impl<T> View for Page<T> {
    type V = PageView<T>;

    open spec fn view(&self) -> PageView<T> {
        PageView { items: self.items@, next: self.next }
    }
}

impl<T> View for PageIterator<T> {
    type V = PageView<T>;

    closed spec fn view(&self) -> PageView<T> {
        PageView { items: self.current@, next: self.next }
    }
}

/// How the stream goes on.
pub enum StreamStep<T> {
    /// It yields an item, and then goes on with what is left.
    Yield(T, PageIterator<T>),
    /// It waits until the rate limiter lets one request through, and then makes this one.
    AwaitPermit(PageRequest),
}

/// A request for a page that the rate limiter has still to let through.
pub struct PageRequest {
    next: Option<Uri>,
}

impl View for PageRequest {
    type V = Option<Uri>;

    closed spec fn view(&self) -> Option<Uri> {
        self.next
    }
}

impl PageRequest {
    /// What to fetch now that the rate limiter has let the request through: the page behind this
    /// link, or an answer that there is none.
    pub fn permitted(self) -> (r: Option<Uri>)
        ensures
            r == self@,
    {
        self.next
    }
}

impl<T> PageView<T> {
    /// The same page without its first item.
    pub open spec fn rest(self) -> PageView<T> {
        PageView { items: self.items.drop_first(), next: self.next }
    }

    /// The first item of the page and what is left then, unless the page is used up.
    pub open spec fn taken(self) -> Option<(T, PageView<T>)> {
        if self.items.len() > 0 {
            Some((self.items[0], self.rest()))
        } else {
            None
        }
    }
}

/// What has come of a request for a page.
#[derive(Debug)]
pub enum Answer<T> {
    /// The page.
    Page(Page<T>),
    /// There is no page.
    NoPage,
    /// It failed.
    Failed,
}

/// What has come of a request for a page, as a value.
pub enum AnswerView<T> {
    Page(PageView<T>),
    NoPage,
    Failed,
}

impl<T> View for Answer<T> {
    type V = AnswerView<T>;

    open spec fn view(&self) -> AnswerView<T> {
        match self {
            Answer::Page(page) => AnswerView::Page(page@),
            Answer::NoPage => AnswerView::NoPage,
            Answer::Failed => AnswerView::Failed,
        }
    }
}

/// How the stream goes on when it has an answer.
pub enum Received<T> {
    /// It yields an item, and then goes on with what is left.
    Yield(T, PageIterator<T>),
    /// It is over.
    End,
    /// It yields the error, and then it is over.
    Fail,
}

/// How the stream goes on when it has an answer, as a value.
pub enum ReceivedView<T> {
    Yield(T, PageView<T>),
    End,
    Fail,
}

impl<T> View for Received<T> {
    type V = ReceivedView<T>;

    open spec fn view(&self) -> ReceivedView<T> {
        match self {
            Received::Yield(item, left) => ReceivedView::Yield(*item, left@),
            Received::End => ReceivedView::End,
            Received::Fail => ReceivedView::Fail,
        }
    }
}

/// How the stream goes on when it has an answer: with the first item of the page. It is over where
/// there is no page, and also where the page is empty, whatever it links to. Where the request
/// failed, that is all that comes of it: it is not made again.
pub open spec fn received<T>(answer: AnswerView<T>) -> ReceivedView<T> {
    match answer {
        AnswerView::Page(page) => match page.taken() {
            Some((item, left)) => ReceivedView::Yield(item, left),
            None => ReceivedView::End,
        },
        AnswerView::NoPage => ReceivedView::End,
        AnswerView::Failed => ReceivedView::Fail,
    }
}

/// Queues the items of a page, so that they can be taken from the front.
fn queue<T>(items: Vec<T>) -> (r: VecDeque<T>)
    ensures
        r@ == items@,
{
    let ghost all = items@;
    let mut left = items;
    let mut queue: VecDeque<T> = VecDeque::new();
    assert(left@ + queue@ =~= all);
    while left.len() > 0
        invariant
            left@ + queue@ == all,
        decreases left.len(),
    {
        let ghost before = left@ + queue@;
        match left.pop() {
            Some(item) => {
                queue.push_front(item);
                assert(left@ + queue@ =~= before);
            },
            None => {},
        }
    }
    assert(left@ + queue@ =~= queue@);
    queue
}

/// Turns a page into a stream of its items and of those of the pages that follow it.
pub fn into_stream<T>(page: Page<T>) -> (r: PageIterator<T>)
    ensures
        r@ == page@,
        r@.items == page.items@,
        r@.next == page.next,
{
    PageIterator { current: queue(page.items), next: page.next }
}

impl<T> PageIterator<T> {
    /// Takes the next item. Where the page is used up, a request for the next one has to be let
    /// through first, even if there is no link to it.
    pub fn step(self) -> (r: StreamStep<T>)
        ensures
            match r {
                StreamStep::Yield(item, left) => self@.taken() == Some((item, left@)),
                StreamStep::AwaitPermit(request) => {
                    &&& self@.taken() is None
                    &&& request@ == self@.next
                },
            },
            match r {
                StreamStep::Yield(item, left) => {
                    &&& self@.items.len() > 0
                    &&& self@.items == seq![item] + left@.items
                    &&& left@.next == self@.next
                },
                StreamStep::AwaitPermit(request) => {
                    &&& self@.items.len() == 0
                    &&& request@ == self@.next
                },
            },
    {
        let mut current = self.current;
        match current.pop_front() {
            Some(item) => StreamStep::Yield(item, PageIterator { current, next: self.next }),
            None => StreamStep::AwaitPermit(PageRequest { next: self.next }),
        }
    }

    /// Goes on with what has come of the request.
    pub fn receive(answer: Answer<T>) -> (r: Received<T>)
        ensures
            r@ == received(answer@),
            match answer {
                Answer::Page(page) => match r {
                    Received::Yield(item, left) => {
                        &&& page.items@ == seq![item] + left@.items
                        &&& left@.next == page.next
                    },
                    Received::End => page.items@.len() == 0,
                    Received::Fail => false,
                },
                Answer::NoPage => r is End,
                Answer::Failed => r is Fail,
            },
    {
        match answer {
            Answer::Page(page) => match into_stream(page).step() {
                StreamStep::Yield(item, left) => Received::Yield(item, left),
                StreamStep::AwaitPermit(_) => Received::End,
            },
            Answer::NoPage => Received::End,
            Answer::Failed => Received::Fail,
        }
    }
}

/// Something that a stream does.
pub enum StreamEvent<T> {
    /// It yields an item.
    Yield(T),
    /// It waits until the rate limiter lets one request through.
    AwaitPermit,
    /// It asks for the page behind a link, if there is one.
    Fetch(Option<Uri>),
    /// It is over.
    End,
    /// It yields an error and is over.
    Fail,
}

/// What a stream does, in order, and of that which items it yields and which links it asks for, if
/// the requests are answered one after the other as given. It stops where the stream is over and
/// where an answer is not given.
pub struct Run<T> {
    pub events: Seq<StreamEvent<T>>,
    pub yielded: Seq<T>,
    pub asked: Seq<Option<Uri>>,
}

impl<T> Run<T> {
    /// An item, and then the run.
    pub open spec fn after_yield(self, item: T) -> Run<T> {
        Run {
            events: seq![StreamEvent::Yield(item)] + self.events,
            yielded: seq![item] + self.yielded,
            asked: self.asked,
        }
    }

    /// A request that has to be let through, and then the run.
    pub open spec fn after_request(self, link: Option<Uri>) -> Run<T> {
        Run {
            events: seq![StreamEvent::AwaitPermit, StreamEvent::Fetch(link)] + self.events,
            yielded: self.yielded,
            asked: seq![link] + self.asked,
        }
    }

    /// Only these events, without an item or a request among them.
    pub open spec fn only(events: Seq<StreamEvent<T>>) -> Run<T> {
        Run { events, yielded: Seq::empty(), asked: Seq::empty() }
    }
}

/// Runs a stream, step by step.
pub open spec fn run<T>(page: PageView<T>, answers: Seq<AnswerView<T>>) -> Run<T>
    decreases answers.len(), page.items.len(),
{
    match page.taken() {
        Some((item, left)) => run(left, answers).after_yield(item),
        None => {
            let later = if answers.len() == 0 {
                Run::only(Seq::empty())
            } else {
                match received(answers[0]) {
                    ReceivedView::Yield(item, left) => run(left, answers.drop_first()).after_yield(
                        item,
                    ),
                    ReceivedView::End => Run::only(seq![StreamEvent::End]),
                    ReceivedView::Fail => Run::only(seq![StreamEvent::Fail]),
                }
            };
            later.after_request(page.next)
        },
    }
}

/// What a stream does for one page: it yields each item, without waiting, and then waits once and
/// asks for the next page.
pub open spec fn page_events<T>(page: PageView<T>) -> Seq<StreamEvent<T>> {
    page.items.map_values(|item: T| StreamEvent::Yield(item)) + seq![
        StreamEvent::AwaitPermit,
        StreamEvent::Fetch(page.next),
    ]
}

/// How many requests the rate limiter has to let through.
pub open spec fn permits<T>(events: Seq<StreamEvent<T>>) -> nat
    decreases events.len(),
{
    if events.len() == 0 {
        0
    } else {
        (if events[0] is AwaitPermit {
            1nat
        } else {
            0
        }) + permits(events.drop_first())
    }
}

/// How many of the answers are pages with items, before the first one that is not.
pub open spec fn useful_answers<T>(answers: Seq<AnswerView<T>>) -> nat
    decreases answers.len(),
{
    if answers.len() > 0 && received(answers[0]) is Yield {
        1 + useful_answers(answers.drop_first())
    } else {
        0
    }
}

/// A page, followed by the first `n` answers, all of which are pages.
pub open spec fn pages<T>(page: PageView<T>, answers: Seq<AnswerView<T>>, n: nat) -> Seq<
    PageView<T>,
> {
    seq![page] + Seq::new(n, |i: int| answers[i]->Page_0)
}

/// What comes of the first answer that is not a page with items: an error if it is a failure, and
/// otherwise the end. Nothing comes of it if there is no such answer.
pub open spec fn ending<T>(answers: Seq<AnswerView<T>>) -> Seq<StreamEvent<T>> {
    let n = useful_answers(answers);
    if n >= answers.len() {
        Seq::empty()
    } else if answers[n as int] is Failed {
        seq![StreamEvent::Fail]
    } else {
        seq![StreamEvent::End]
    }
}

/// There are no more useful answers than answers.
proof fn lemma_useful_answers<T>(answers: Seq<AnswerView<T>>)
    ensures
        useful_answers(answers) <= answers.len(),
    decreases answers.len(),
{
    if answers.len() > 0 {
        lemma_useful_answers(answers.drop_first());
    }
}

/// The stream yields every item of every page, in order, up to the first answer that is no page or
/// an empty one or a failure. It asks for the link of each of these pages, once each and in order,
/// right after it has waited for the rate limiter, and waits at no other time. A failure is yielded
/// as an error, and the stream is over then as it is at any other such answer.
pub proof fn stream_yields_all_pages<T>(page: PageView<T>, answers: Seq<AnswerView<T>>)
    ensures
        ({
            let all = pages(page, answers, useful_answers(answers));
            &&& run(page, answers).events == all.map_values(
                |p: PageView<T>| page_events(p),
            ).flatten() + ending(answers)
            &&& run(page, answers).yielded == all.map_values(|p: PageView<T>| p.items).flatten()
            &&& run(page, answers).asked == all.map_values(|p: PageView<T>| p.next)
        }),
    decreases answers.len(), page.items.len(),
{
    let n = useful_answers(answers);
    let all = pages(page, answers, n);
    let items = all.map_values(|p: PageView<T>| p.items);
    let links = all.map_values(|p: PageView<T>| p.next);
    let events = all.map_values(|p: PageView<T>| page_events(p));
    let ask = seq![StreamEvent::<T>::AwaitPermit, StreamEvent::Fetch(page.next)];
    let end = ending(answers);
    if page.items.len() > 0 {
        stream_yields_all_pages(page.rest(), answers);
        let later = pages(page.rest(), answers, n);
        let later_items = later.map_values(|p: PageView<T>| p.items);
        let later_events = later.map_values(|p: PageView<T>| page_events(p));
        assert(later_items.drop_first() =~= items.drop_first());
        assert(later_events.drop_first() =~= events.drop_first());
        assert(later.map_values(|p: PageView<T>| p.next) =~= links);
        assert(items.first() == page.items);
        assert(later_items.first() == page.items.drop_first());
        assert(seq![page.items[0]] + (page.items.drop_first() + items.drop_first().flatten())
            =~= page.items + items.drop_first().flatten());
        let first = seq![StreamEvent::Yield(page.items[0])];
        let tail = events.drop_first().flatten();
        assert(page_events(page) =~= first + page_events(page.rest()));
        assert(first + ((page_events(page.rest()) + tail) + end) =~= (page_events(page) + tail)
            + end);
    } else if n > 0 {
        let answer = answers[0]->Page_0;
        let rest = answers.drop_first();
        stream_yields_all_pages(answer.rest(), rest);
        lemma_useful_answers(rest);
        let later = pages(answer.rest(), rest, useful_answers(rest));
        let later_items = later.map_values(|p: PageView<T>| p.items);
        let later_links = later.map_values(|p: PageView<T>| p.next);
        let later_events = later.map_values(|p: PageView<T>| page_events(p));
        assert(items.first() =~= Seq::<T>::empty());
        assert(items.drop_first().first() == answer.items);
        assert(later_items.first() == answer.items.drop_first());
        assert(later_items.drop_first() =~= items.drop_first().drop_first());
        assert(links =~= seq![page.next] + later_links);
        let tail = later_items.drop_first().flatten();
        assert(items.drop_first().flatten() == answer.items + tail);
        assert(items.flatten() == items.first() + items.drop_first().flatten());
        assert(seq![answer.items[0]] + (answer.items.drop_first() + tail) =~= answer.items + tail);
        assert(items.flatten() =~= answer.items + tail);
        let first = seq![StreamEvent::Yield(answer.items[0])];
        let others = later_events.drop_first().flatten();
        assert(events.first() =~= ask);
        assert(events.drop_first().first() == page_events(answer));
        assert(later_events.drop_first() =~= events.drop_first().drop_first());
        assert(page_events(answer) =~= first + page_events(answer.rest()));
        assert(events.drop_first().flatten() == page_events(answer) + others);
        assert(ending(rest) =~= end) by {
            if n < answers.len() {
                assert(rest[n - 1] == answers[n as int]);
            }
        }
        assert(ask + (first + ((page_events(answer.rest()) + others) + end)) =~= (ask + (
        page_events(answer) + others)) + end);
    } else {
        assert(links =~= seq![page.next]);
        assert(items.drop_first() =~= Seq::<Seq<T>>::empty());
        assert(items.drop_first().flatten() =~= Seq::<T>::empty());
        assert(items.flatten() =~= Seq::<T>::empty());
        assert(events.drop_first() =~= Seq::<Seq<StreamEvent<T>>>::empty());
        assert(events.drop_first().flatten() =~= Seq::<StreamEvent<T>>::empty());
        assert(events.first() =~= ask);
        assert(events.flatten() =~= ask);
    }
}

/// Nothing follows the end or a failure: once there is an answer that is not a page with items, the
/// stream yields nothing, waits for nothing and asks for nothing, whatever else could be answered.
/// What it has yielded before stands.
pub proof fn nothing_follows_the_end<T>(
    page: PageView<T>,
    answers: Seq<AnswerView<T>>,
    more: Seq<AnswerView<T>>,
)
    requires
        useful_answers(answers) < answers.len(),
    ensures
        run(page, answers + more) == run(page, answers),
        run(page, answers).events.last() == (if answers[useful_answers(answers) as int] is Failed {
            StreamEvent::<T>::Fail
        } else {
            StreamEvent::End
        }),
    decreases answers.len(), page.items.len(),
{
    stream_yields_all_pages(page, answers);
    if page.items.len() > 0 {
        nothing_follows_the_end(page.rest(), answers, more);
    } else {
        assert((answers + more)[0] == answers[0]);
        if useful_answers(answers) > 0 {
            assert((answers + more).drop_first() =~= answers.drop_first() + more);
            nothing_follows_the_end(answers[0]->Page_0.rest(), answers.drop_first(), more);
        }
    }
}

/// The rate limiter has to let through one request for each page and no more: one for each link
/// that is asked for, the last one included.
pub proof fn one_permit_for_each_request<T>(page: PageView<T>, answers: Seq<AnswerView<T>>)
    ensures
        permits(run(page, answers).events) == run(page, answers).asked.len(),
        run(page, answers).asked.len() == useful_answers(answers) + 1,
    decreases answers.len(), page.items.len(),
{
    stream_yields_all_pages(page, answers);
    if page.items.len() > 0 {
        one_permit_for_each_request(page.rest(), answers);
        lemma_permits_after_yield(run(page.rest(), answers), page.items[0]);
    } else if useful_answers(answers) > 0 {
        let answer = answers[0]->Page_0;
        let later = run(answer.rest(), answers.drop_first());
        one_permit_for_each_request(answer.rest(), answers.drop_first());
        lemma_permits_after_yield(later, answer.items[0]);
        lemma_permits_after_request(later.after_yield(answer.items[0]), page.next);
    } else {
        let end = ending(answers);
        lemma_permits_after_request(Run::only(end), page.next);
        assert(permits(end) == 0) by {
            if end.len() > 0 {
                assert(permits(end.drop_first()) == 0);
            }
        }
    }
}

/// An item takes no permit.
proof fn lemma_permits_after_yield<T>(run: Run<T>, item: T)
    ensures
        permits(run.after_yield(item).events) == permits(run.events),
{
    assert(run.after_yield(item).events.drop_first() =~= run.events);
}

/// A request takes one permit.
proof fn lemma_permits_after_request<T>(run: Run<T>, link: Option<Uri>)
    ensures
        permits(run.after_request(link).events) == permits(run.events) + 1,
{
    let events = run.after_request(link).events;
    assert(events.drop_first().drop_first() =~= run.events);
    assert(events.drop_first()[0] == StreamEvent::<T>::Fetch(link));
    assert(permits(events.drop_first()) == permits(run.events));
}

/// Each of the pages is the answer to a request, and then there is no page.
pub open spec fn answers_with<T>(following: Seq<PageView<T>>) -> Seq<AnswerView<T>> {
    following.map_values(|p: PageView<T>| AnswerView::Page(p)).push(AnswerView::NoPage)
}

/// No result is lost: if the pages that follow all have items and the last of them has no
/// successor, the stream yields the items of all pages, in order, and is over. It waits for the
/// rate limiter once for each page.
pub proof fn no_result_is_lost<T>(page: PageView<T>, following: Seq<PageView<T>>)
    requires
        forall|i: int| 0 <= i < following.len() ==> (#[trigger] following[i]).items.len() > 0,
    ensures
        run(page, answers_with(following)).yielded == (seq![page] + following).map_values(
            |p: PageView<T>| p.items,
        ).flatten(),
        run(page, answers_with(following)).events.last() == StreamEvent::<T>::End,
        permits(run(page, answers_with(following)).events) == following.len() + 1,
{
    let answers = answers_with(following);
    lemma_all_useful(following);
    one_permit_for_each_request(page, answers);
    stream_yields_all_pages(page, answers);
    nothing_follows_the_end(page, answers, Seq::empty());
    assert(pages(page, answers, following.len()) =~= seq![page] + following);
}

/// Pages with items are useful answers.
proof fn lemma_all_useful<T>(following: Seq<PageView<T>>)
    requires
        forall|i: int| 0 <= i < following.len() ==> (#[trigger] following[i]).items.len() > 0,
    ensures
        useful_answers(answers_with(following)) == following.len(),
    decreases following.len(),
{
    let answers = answers_with(following);
    if following.len() > 0 {
        let rest = following.drop_first();
        lemma_all_useful(rest);
        assert(answers.drop_first() =~= answers_with(rest));
        assert(answers[0] == AnswerView::Page(following[0]));
    }
}

/// What is taken from a page and what is left then is the page again, in order, with the same link.
/// Nothing is taken only from a page that is used up.
pub proof fn nothing_but_the_first_item_is_taken<T>(page: PageView<T>)
    ensures
        match page.taken() {
            Some((item, left)) => seq![item] + left.items == page.items && left.next == page.next,
            None => page.items.len() == 0,
        },
{
    if page.items.len() > 0 {
        assert(seq![page.items[0]] + page.items.drop_first() =~= page.items);
    }
}

/// An answer goes on with the first item of its page. It ends the stream if there is no page or
/// nothing on it, and fails if the request failed.
pub proof fn answers_decide_how_it_goes_on<T>(answer: AnswerView<T>)
    ensures
        match (answer, received(answer)) {
            (AnswerView::Page(page), ReceivedView::Yield(item, left)) => {
                &&& seq![item] + left.items == page.items
                &&& left.next == page.next
            },
            (AnswerView::Page(page), ReceivedView::End) => page.items.len() == 0,
            (AnswerView::NoPage, ReceivedView::End) => true,
            (AnswerView::Failed, ReceivedView::Fail) => true,
            _ => false,
        },
{
    if let AnswerView::Page(page) = answer {
        nothing_but_the_first_item_is_taken(page);
    }
}

/// The views of a page, of an answer and of what comes of it show all that they hold.
pub proof fn views_show_everything<T>(page: Page<T>, answer: Answer<T>, outcome: Received<T>)
    ensures
        page@.items == page.items@,
        page@.next == page.next,
        match answer {
            Answer::Page(given) => answer@ matches AnswerView::Page(seen) && seen.items
                == given.items@ && seen.next == given.next,
            Answer::NoPage => answer@ is NoPage,
            Answer::Failed => answer@ is Failed,
        },
        match outcome {
            Received::Yield(item, left) => outcome@ matches ReceivedView::Yield(same, rest) && same
                == item && rest.items == left@.items && rest.next == left@.next,
            Received::End => outcome@ is End,
            Received::Fail => outcome@ is Fail,
        },
{
}

} // verus!
