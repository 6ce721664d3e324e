//! The buffer behind every lazy sequence of records: one page at a time, handed out
//! record by record in the order in which the server sent them.
//!
//! A sequence is in one of four phases. `Fetching`: a page is wanted and none is
//! buffered. `HasRecords`: the buffered page is not used up. `Exhausted`: an empty page
//! came, the sequence has ended. `Failed`: an error came; it is handed out once, as the
//! last item. The last two are final.

use crate::error::Error;
use vstd::prelude::*;

verus! {

/// The phases of a lazy sequence.
#[derive(Debug, PartialEq, Eq, Clone, Copy, Structural)]
pub enum Phase {
    Fetching,
    HasRecords,
    Exhausted,
    Failed,
}

/// How a sequence has ended, if it has.
#[derive(Debug, PartialEq, Eq, Clone, Copy, Structural)]
pub enum Closing {
    Open,
    Exhausted,
    Failed,
}

/// What one pull on the buffer gives.
#[derive(Debug, PartialEq)]
pub enum Pull<T> {
    /// The next item of the sequence.
    Item(Result<T, Error>),
    /// Nothing is buffered: the next page has to be fetched and handed to `fill`.
    NeedPage,
    /// The sequence has ended.
    End,
}

/// What one pull on a lazy sequence gives.
#[derive(Debug, PartialEq)]
pub enum Step<T> {
    /// The next item of the sequence: a record, or the error that ends it.
    Item(Result<T, Error>),
    /// A page is wanted: the request to make, as the path and query under the server's
    /// URL. Its answer goes to `receive`.
    Fetch(String),
    /// The sequence has ended.
    End,
}

/// A step as the contracts see it.
pub enum StepView<T> {
    Item(Result<T, Error>),
    Fetch(Seq<char>),
    End,
}

impl<T> View for Step<T> {
    type V = StepView<T>;

    open spec fn view(&self) -> StepView<T> {
        match *self {
            Step::Item(item) => StepView::Item(item),
            Step::Fetch(request) => StepView::Fetch(request@),
            Step::End => StepView::End,
        }
    }
}

/// The state of a buffer, as the contracts see it.
pub struct ChunkView<T> {
    /// The records that are buffered, the next one first.
    pub pending: Seq<T>,
    /// The error that is still to be handed out.
    pub error: Option<Error>,
    /// Whether the sequence has ended, and how.
    pub closing: Closing,
}

/// An answer of the server as the contracts see it: the records of a page, or an error.
pub open spec fn answer_view<T>(answer: Result<Vec<T>, Error>) -> Result<Seq<T>, Error> {
    match answer {
        Ok(records) => Ok(records@),
        Err(error) => Err(error),
    }
}

/// The records `s`, each as an item that succeeded.
pub open spec fn oks<T>(s: Seq<T>) -> Seq<Result<T, Error>> {
    Seq::new(s.len(), |i: int| Ok(s[i]))
}

/// The records of the first `k` answers, in order. Meant for answers that are pages.
pub open spec fn records_of<T>(answers: Seq<Result<Seq<T>, Error>>, k: nat) -> Seq<T>
    decreases k,
{
    if k == 0 || answers.len() == 0 {
        Seq::empty()
    } else {
        match answers[0] {
            Ok(page) => page + records_of(answers.drop_first(), (k - 1) as nat),
            Err(_) => records_of(answers.drop_first(), (k - 1) as nat),
        }
    }
}

impl<T> ChunkView<T> {
    /// The buffer of a sequence that has just begun.
    pub open spec fn fresh() -> Self {
        ChunkView { pending: Seq::empty(), error: None, closing: Closing::Open }
    }

    /// The phase that the sequence is in.
    pub open spec fn phase(self) -> Phase {
        if self.pending.len() > 0 {
            Phase::HasRecords
        } else if self.error is Some {
            Phase::Failed
        } else {
            match self.closing {
                Closing::Open => Phase::Fetching,
                Closing::Exhausted => Phase::Exhausted,
                Closing::Failed => Phase::Failed,
            }
        }
    }

    /// One pull: the buffer after it, and what it gave.
    pub open spec fn pull(self) -> (Self, Pull<T>) {
        if self.pending.len() > 0 {
            (ChunkView { pending: self.pending.drop_first(), ..self }, Pull::Item(Ok(self.pending[0])))
        } else if let Some(error) = self.error {
            (ChunkView { error: None, ..self }, Pull::Item(Err(error)))
        } else if self.closing is Open {
            (self, Pull::NeedPage)
        } else {
            (self, Pull::End)
        }
    }

    /// The buffer after the answer to the outstanding request has come. An answer that
    /// comes while no page is wanted changes nothing.
    pub open spec fn fill(self, answer: Result<Seq<T>, Error>) -> Self {
        if !(self.phase() is Fetching) {
            self
        } else {
            match answer {
                Ok(page) => if page.len() > 0 {
                    ChunkView { pending: page, ..self }
                } else {
                    ChunkView { closing: Closing::Exhausted, ..self }
                },
                Err(error) => ChunkView { error: Some(error), closing: Closing::Failed, ..self },
            }
        }
    }

    /// The buffer after `error` has been put behind what is buffered: it is handed out
    /// after the records, and ends the sequence. Where the sequence has ended or holds
    /// an error already, nothing changes.
    pub open spec fn fail(self, error: Error) -> Self {
        if self.error is None && self.closing is Open {
            ChunkView { error: Some(error), closing: Closing::Failed, ..self }
        } else {
            self
        }
    }

    /// How many items the buffer can hand out without another page.
    pub open spec fn buffered(self) -> nat {
        self.pending.len() + if self.error is Some { 1nat } else { 0nat }
    }

    /// Everything that the sequence hands out when it is pulled until it ends, while the
    /// successive requests are answered by `answers` in turn. Where the answers run out
    /// first, what it hands out until then.
    pub open spec fn emitted(self, answers: Seq<Result<Seq<T>, Error>>) -> Seq<Result<T, Error>>
        decreases answers.len(), self.buffered(),
    {
        let (next, pulled) = self.pull();
        match pulled {
            Pull::Item(item) => seq![item] + next.emitted(answers),
            Pull::End => Seq::empty(),
            Pull::NeedPage => if answers.len() == 0 {
                Seq::empty()
            } else {
                self.fill(answers[0]).emitted(answers.drop_first())
            },
        }
    }

    /// How many of `answers` the sequence asks for when it is pulled until it ends.
    pub open spec fn asked(self, answers: Seq<Result<Seq<T>, Error>>) -> nat
        decreases answers.len(), self.buffered(),
    {
        let (next, pulled) = self.pull();
        match pulled {
            Pull::Item(_) => next.asked(answers),
            Pull::End => 0,
            Pull::NeedPage => if answers.len() == 0 {
                0
            } else {
                1 + self.fill(answers[0]).asked(answers.drop_first())
            },
        }
    }
}

/// The buffer of a lazy sequence.
///
/// The records of a page are kept in reverse, so that the next one is taken from the
/// end; they are handed out in the order in which the page held them.
#[derive(Debug)]
pub struct Chunk<T> {
    stack: Vec<T>,
    error: Option<Error>,
    closing: Closing,
}

impl<T> View for Chunk<T> {
    type V = ChunkView<T>;

    closed spec fn view(&self) -> ChunkView<T> {
        ChunkView { pending: self.stack@.reverse(), error: self.error, closing: self.closing }
    }
}

impl<T> Chunk<T> {
    /// The buffer of a sequence that has just begun: a page is wanted.
    pub fn new() -> (chunk: Self)
        ensures
            chunk@ == ChunkView::<T>::fresh(),
    {
        let chunk = Chunk { stack: Vec::new(), error: None, closing: Closing::Open };
        assert(chunk.stack@.reverse() =~= Seq::<T>::empty());
        chunk
    }

    /// The phase that the sequence is in.
    pub fn phase(&self) -> (phase: Phase)
        ensures
            phase == self@.phase(),
    {
        if self.stack.len() > 0 {
            Phase::HasRecords
        } else if self.error.is_some() {
            Phase::Failed
        } else {
            match self.closing {
                Closing::Open => Phase::Fetching,
                Closing::Exhausted => Phase::Exhausted,
                Closing::Failed => Phase::Failed,
            }
        }
    }

    /// How many records are buffered.
    pub fn len(&self) -> (n: usize)
        ensures
            n == self@.pending.len(),
    {
        self.stack.len()
    }

    /// Takes the next item, if one is buffered; else says whether a page is wanted or
    /// the sequence has ended. Never waits.
    pub fn pull(&mut self) -> (pulled: Pull<T>)
        ensures
            (final(self)@, pulled) == old(self)@.pull(),
    {
        let ghost before = self.stack@;
        match self.stack.pop() {
            Some(record) => {
                assert(self.stack@.reverse() =~= before.reverse().drop_first());
                Pull::Item(Ok(record))
            },
            None => match self.error.take() {
                Some(error) => Pull::Item(Err(error)),
                None => match self.closing {
                    Closing::Open => Pull::NeedPage,
                    _ => Pull::End,
                },
            },
        }
    }

    /// Takes the answer to the outstanding request: a page with records is buffered, an
    /// empty page ends the sequence, an error ends it after it has been handed out.
    pub fn fill(&mut self, answer: Result<Vec<T>, Error>)
        ensures
            final(self)@ == old(self)@.fill(answer_view(answer)),
    {
        match self.phase() {
            Phase::Fetching => {},
            _ => {
                return ;
            },
        }
        match answer {
            Ok(records) => {
                if records.len() == 0 {
                    self.closing = Closing::Exhausted;
                } else {
                    let ghost page = records@;
                    let mut records = records;
                    let mut stack: Vec<T> = Vec::new();
                    while records.len() > 0
                        invariant
                            records@.len() <= page.len(),
                            records@ == page.take(records@.len() as int),
                            stack@.len() == page.len() - records@.len(),
                            forall|i: int|
                                0 <= i < stack@.len() ==> stack@[i] == page[page.len() - 1 - i],
                        decreases records@.len(),
                    {
                        match records.pop() {
                            Some(record) => {
                                stack.push(record);
                            },
                            None => {},
                        }
                    }
                    assert(stack@.reverse() =~= page);
                    self.stack = stack;
                }
            },
            Err(error) => {
                self.error = Some(error);
                self.closing = Closing::Failed;
            },
        }
    }

    /// Puts `error` behind what is buffered, to end the sequence after it.
    pub fn fail(&mut self, error: Error)
        ensures
            final(self)@ == old(self)@.fail(error),
    {
        if self.error.is_none() {
            match self.closing {
                Closing::Open => {
                    self.error = Some(error);
                    self.closing = Closing::Failed;
                },
                _ => {},
            }
        }
    }
}

/// A sequence that has ended stays ended: it hands out nothing and wants no page.
pub proof fn lemma_ended_is_final<T>(chunk: ChunkView<T>, answers: Seq<Result<Seq<T>, Error>>)
    requires
        chunk.pending.len() == 0,
        chunk.error is None,
        !(chunk.closing is Open),
    ensures
        chunk.pull() == (chunk, Pull::<T>::End),
        forall|answer: Result<Seq<T>, Error>| #[trigger] chunk.fill(answer) == chunk,
        chunk.emitted(answers) == Seq::<Result<T, Error>>::empty(),
        chunk.asked(answers) == 0,
{
}

/// With records buffered, the sequence hands those out first and then goes on as one
/// that wants a page.
pub proof fn lemma_buffered_come_first<T>(page: Seq<T>, answers: Seq<Result<Seq<T>, Error>>)
    ensures
        (ChunkView { pending: page, ..ChunkView::<T>::fresh() }).emitted(answers) == oks(page)
            + ChunkView::<T>::fresh().emitted(answers),
        (ChunkView { pending: page, ..ChunkView::<T>::fresh() }).asked(answers)
            == ChunkView::<T>::fresh().asked(answers),
    decreases page.len(),
{
    let chunk = ChunkView { pending: page, ..ChunkView::<T>::fresh() };
    if page.len() == 0 {
        assert(page =~= Seq::<T>::empty());
        assert(chunk == ChunkView::<T>::fresh());
        assert(oks(page) + ChunkView::<T>::fresh().emitted(answers) =~= ChunkView::<T>::fresh().emitted(
            answers,
        ));
    } else {
        lemma_buffered_come_first(page.drop_first(), answers);
        let next = ChunkView { pending: page.drop_first(), ..ChunkView::<T>::fresh() };
        assert(chunk.pull() == (next, Pull::Item(Ok::<T, Error>(page[0]))));
        assert(oks(page) =~= seq![Ok::<T, Error>(page[0])] + oks(page.drop_first()));
        assert(seq![Ok::<T, Error>(page[0])] + (oks(page.drop_first()) + ChunkView::<T>::fresh().emitted(
            answers,
        )) =~= oks(page) + ChunkView::<T>::fresh().emitted(answers));
    }
}

/// Pagination runs until the first empty page: where the first `k` answers are pages
/// with records and the next one is an empty page, a sequence that has just begun hands
/// out exactly the records of those `k` pages, in order and without an error, then
/// ends. It has asked for `k + 1` pages, and asks for no more whatever would follow.
pub proof fn lemma_pagination_exhaustion<T>(answers: Seq<Result<Seq<T>, Error>>, k: nat)
    requires
        k < answers.len(),
        forall|i: int| 0 <= i < k ==> answers[i] is Ok && (#[trigger] answers[i])->Ok_0.len() > 0,
        answers[k as int] is Ok,
        answers[k as int]->Ok_0.len() == 0,
    ensures
        ChunkView::<T>::fresh().emitted(answers) == oks(records_of(answers, k)),
        ChunkView::<T>::fresh().asked(answers) == k + 1,
    decreases k,
{
    let fresh = ChunkView::<T>::fresh();
    let rest = answers.drop_first();
    if k == 0 {
        lemma_ended_is_final(fresh.fill(answers[0]), rest);
        assert(oks(records_of(answers, k)) =~= Seq::<Result<T, Error>>::empty());
    } else {
        let page = answers[0]->Ok_0;
        assert(answers[0] is Ok && answers[0]->Ok_0.len() > 0);
        assert(fresh.fill(answers[0]) == ChunkView { pending: page, ..fresh });
        lemma_buffered_come_first(page, rest);
        assert forall|i: int| 0 <= i < k - 1 implies rest[i] is Ok && (#[trigger] rest[i])->Ok_0.len()
            > 0 by {
            assert(rest[i] == answers[i + 1]);
        }
        lemma_pagination_exhaustion(rest, (k - 1) as nat);
        assert(oks(page + records_of(rest, (k - 1) as nat)) =~= oks(page) + oks(
            records_of(rest, (k - 1) as nat),
        ));
    }
}

/// An error ends the sequence: where the first `k` answers are pages with records and
/// the next one is an error, a sequence that has just begun hands out the records of
/// those `k` pages, then that error, once, and ends. It has asked for `k + 1` pages, and
/// asks for no more whatever would follow.
pub proof fn lemma_pagination_error<T>(answers: Seq<Result<Seq<T>, Error>>, k: nat)
    requires
        k < answers.len(),
        forall|i: int| 0 <= i < k ==> answers[i] is Ok && (#[trigger] answers[i])->Ok_0.len() > 0,
        answers[k as int] is Err,
    ensures
        ChunkView::<T>::fresh().emitted(answers) == oks(records_of(answers, k)).push(
            Err(answers[k as int]->Err_0),
        ),
        ChunkView::<T>::fresh().asked(answers) == k + 1,
    decreases k,
{
    let fresh = ChunkView::<T>::fresh();
    let rest = answers.drop_first();
    if k == 0 {
        let failing = fresh.fill(answers[0]);
        let failed = ChunkView { error: None, ..failing };
        assert(failing.pull() == (failed, Pull::Item(Err::<T, Error>(answers[0]->Err_0))));
        lemma_ended_is_final(failed, rest);
        assert(failing.emitted(rest) == seq![Err::<T, Error>(answers[0]->Err_0)] + failed.emitted(rest));
        assert(failing.asked(rest) == failed.asked(rest));
        assert(fresh.emitted(answers) =~= oks(records_of(answers, k)).push(
            Err(answers[k as int]->Err_0),
        ));
    } else {
        let page = answers[0]->Ok_0;
        assert(answers[0] is Ok && answers[0]->Ok_0.len() > 0);
        assert(fresh.fill(answers[0]) == ChunkView { pending: page, ..fresh });
        lemma_buffered_come_first(page, rest);
        assert forall|i: int| 0 <= i < k - 1 implies rest[i] is Ok && (#[trigger] rest[i])->Ok_0.len()
            > 0 by {
            assert(rest[i] == answers[i + 1]);
        }
        lemma_pagination_error(rest, (k - 1) as nat);
        assert(rest[k - 1] == answers[k as int]);
        assert(oks(page + records_of(rest, (k - 1) as nat)).push(Err(answers[k as int]->Err_0))
            =~= oks(page) + oks(records_of(rest, (k - 1) as nat)).push(
            Err(answers[k as int]->Err_0),
        ));
    }
}

} // verus!
