//! Pools, and the search for them.

use crate::error::Error;
use crate::stream::{answer_view, oks, records_of, Chunk, ChunkView, Phase, Pull, Step, StepView};
use crate::text::{
    decimal, decimals, join_strings, joined, u64_to_string, u64s_to_strings, url_encode, url_encoded,
};
use vstd::prelude::*;

verus! {

#[derive(Debug, PartialEq, Eq)]
pub enum PoolCategory {
    Series,
    Collection,
}

/// Structure representing a pool. Its times are in UTC.
#[derive(Debug, PartialEq, Eq)]
pub struct Pool {
    pub id: u64,
    pub name: String,
    pub created_at: chrono::NaiveDateTime,
    pub updated_at: chrono::NaiveDateTime,
    pub creator_id: u64,
    pub description: String,
    pub is_active: bool,
    pub category: PoolCategory,
    pub is_deleted: bool,
    pub post_ids: Vec<u64>,
    pub creator_name: String,
    pub post_count: u64,
}

#[derive(Debug, PartialEq, Eq)]
pub enum PoolSearchOrder {
    Name,
    CreatedAt,
    UpdatedAt,
    PostCount,
}

impl PoolCategory {
    /// The name of the category in a request.
    pub open spec fn text(self) -> Seq<char> {
        match self {
            PoolCategory::Series => "series"@,
            PoolCategory::Collection => "collection"@,
        }
    }

    /// The name of the category in a request.
    pub fn as_str(&self) -> (name: &'static str)
        ensures
            name@ == self.text(),
    {
        match self {
            PoolCategory::Series => "series",
            PoolCategory::Collection => "collection",
        }
    }
}

impl PoolSearchOrder {
    /// The name of the order in a request.
    pub open spec fn text(self) -> Seq<char> {
        match self {
            PoolSearchOrder::Name => "name"@,
            PoolSearchOrder::CreatedAt => "created_at"@,
            PoolSearchOrder::UpdatedAt => "updated_at"@,
            PoolSearchOrder::PostCount => "post_count"@,
        }
    }

    /// The name of the order in a request.
    pub fn as_str(&self) -> (name: &'static str)
        ensures
            name@ == self.text(),
    {
        match self {
            PoolSearchOrder::Name => "name",
            PoolSearchOrder::CreatedAt => "created_at",
            PoolSearchOrder::UpdatedAt => "updated_at",
            PoolSearchOrder::PostCount => "post_count",
        }
    }
}

/// What a search for pools looks for. A condition that is `None` is not made.
#[derive(Debug, PartialEq, Eq)]
pub struct PoolSearch {
    pub name_matches: Option<String>,
    pub id: Option<Vec<u64>>,
    pub description_matches: Option<String>,
    pub creator_name: Option<String>,
    pub creator_id: Option<u64>,
    pub is_active: Option<bool>,
    pub is_deleted: Option<bool>,
    pub category: Option<PoolCategory>,
    pub order: Option<PoolSearchOrder>,
}

/// One parameter as it is added to a query: `&`, the key, `=` and the value, key and
/// value percent-encoded.
pub open spec fn parameter(key: Seq<char>, value: Seq<char>) -> Seq<char> {
    "&"@ + url_encoded(key) + "="@ + url_encoded(value)
}

/// The parameter for a condition, or nothing where the condition is not made.
pub open spec fn optional_parameter(key: Seq<char>, value: Option<Seq<char>>) -> Seq<char> {
    match value {
        Some(value) => parameter(key, value),
        None => Seq::empty(),
    }
}

/// How a truth value is written in a request.
pub open spec fn bool_text(value: bool) -> Seq<char> {
    if value {
        "true"@
    } else {
        "false"@
    }
}

fn push_parameter(params: &mut String, key: &str, value: &str)
    ensures
        final(params)@ == old(params)@ + parameter(key@, value@),
{
    params.append("&");
    params.append(url_encode(key).as_str());
    params.append("=");
    params.append(url_encode(value).as_str());
    assert(params@ =~= old(params)@ + parameter(key@, value@));
}

fn bool_str(value: bool) -> (text: &'static str)
    ensures
        text@ == bool_text(value),
{
    if value {
        "true"
    } else {
        "false"
    }
}

impl PoolSearch {
    /// The conditions as the contracts see them: each as the text of its value.
    pub open spec fn name_matches_text(self) -> Option<Seq<char>> {
        match self.name_matches {
            Some(value) => Some(value@),
            None => None,
        }
    }

    pub open spec fn id_text(self) -> Option<Seq<char>> {
        match self.id {
            Some(ids) => Some(joined(decimals(ids@), ","@)),
            None => None,
        }
    }

    pub open spec fn description_matches_text(self) -> Option<Seq<char>> {
        match self.description_matches {
            Some(value) => Some(value@),
            None => None,
        }
    }

    pub open spec fn creator_name_text(self) -> Option<Seq<char>> {
        match self.creator_name {
            Some(value) => Some(value@),
            None => None,
        }
    }

    pub open spec fn creator_id_text(self) -> Option<Seq<char>> {
        match self.creator_id {
            Some(id) => Some(decimal(id as nat)),
            None => None,
        }
    }

    pub open spec fn is_active_text(self) -> Option<Seq<char>> {
        match self.is_active {
            Some(value) => Some(bool_text(value)),
            None => None,
        }
    }

    pub open spec fn is_deleted_text(self) -> Option<Seq<char>> {
        match self.is_deleted {
            Some(value) => Some(bool_text(value)),
            None => None,
        }
    }

    pub open spec fn category_text(self) -> Option<Seq<char>> {
        match self.category {
            Some(value) => Some(value.text()),
            None => None,
        }
    }

    pub open spec fn order_text(self) -> Option<Seq<char>> {
        match self.order {
            Some(value) => Some(value.text()),
            None => None,
        }
    }

    /// The parameters that a request for a page of the search carries behind its page
    /// number: one for each condition that is made, in a fixed order.
    pub open spec fn search_parameters(self) -> Seq<char> {
        optional_parameter("search[name_matches]"@, self.name_matches_text())
            + optional_parameter("search[id]"@, self.id_text())
            + optional_parameter("search[description_matches]"@, self.description_matches_text())
            + optional_parameter("search[creator_name]"@, self.creator_name_text())
            + optional_parameter("search[creator_id]"@, self.creator_id_text())
            + optional_parameter("search[is_active]"@, self.is_active_text())
            + optional_parameter("search[is_deleted]"@, self.is_deleted_text())
            + optional_parameter("search[category]"@, self.category_text())
            + optional_parameter("search[order]"@, self.order_text())
    }

    /// Writes the conditions as the parameters of a request.
    pub fn to_search_parameters(&self) -> (params: String)
        ensures
            params@ == self.search_parameters(),
    {
        let mut params = String::new();

        if let Some(ref value) = self.name_matches {
            push_parameter(&mut params, "search[name_matches]", value.as_str());
        }
        let ghost upto1 = optional_parameter("search[name_matches]"@, self.name_matches_text());
        assert(params@ =~= upto1);

        if let Some(ref value) = self.id {
            let ids = u64s_to_strings(value.as_slice());
            push_parameter(&mut params, "search[id]", join_strings(&ids, ",").as_str());
        }
        let ghost upto2 = upto1 + optional_parameter("search[id]"@, self.id_text());
        assert(params@ =~= upto2);

        if let Some(ref value) = self.description_matches {
            push_parameter(&mut params, "search[description_matches]", value.as_str());
        }
        let ghost upto3 = upto2 + optional_parameter(
            "search[description_matches]"@,
            self.description_matches_text(),
        );
        assert(params@ =~= upto3);

        if let Some(ref value) = self.creator_name {
            push_parameter(&mut params, "search[creator_name]", value.as_str());
        }
        let ghost upto4 = upto3 + optional_parameter("search[creator_name]"@, self.creator_name_text());
        assert(params@ =~= upto4);

        if let Some(value) = self.creator_id {
            push_parameter(&mut params, "search[creator_id]", u64_to_string(value).as_str());
        }
        let ghost upto5 = upto4 + optional_parameter("search[creator_id]"@, self.creator_id_text());
        assert(params@ =~= upto5);

        if let Some(value) = self.is_active {
            push_parameter(&mut params, "search[is_active]", bool_str(value));
        }
        let ghost upto6 = upto5 + optional_parameter("search[is_active]"@, self.is_active_text());
        assert(params@ =~= upto6);

        if let Some(value) = self.is_deleted {
            push_parameter(&mut params, "search[is_deleted]", bool_str(value));
        }
        let ghost upto7 = upto6 + optional_parameter("search[is_deleted]"@, self.is_deleted_text());
        assert(params@ =~= upto7);

        if let Some(ref value) = self.category {
            push_parameter(&mut params, "search[category]", value.as_str());
        }
        let ghost upto8 = upto7 + optional_parameter("search[category]"@, self.category_text());
        assert(params@ =~= upto8);

        if let Some(ref value) = self.order {
            push_parameter(&mut params, "search[order]", value.as_str());
        }
        let ghost upto9 = upto8 + optional_parameter("search[order]"@, self.order_text());
        assert(params@ =~= upto9);

        params
    }

    /// A search with no condition: it finds every pool.
    pub fn new() -> (search: Self)
        ensures
            search == (PoolSearch {
                name_matches: None,
                id: None,
                description_matches: None,
                creator_name: None,
                creator_id: None,
                is_active: None,
                is_deleted: None,
                category: None,
                order: None,
            }),
    {
        PoolSearch {
            name_matches: None,
            id: None,
            description_matches: None,
            creator_name: None,
            creator_id: None,
            is_active: None,
            is_deleted: None,
            category: None,
            order: None,
        }
    }

    pub fn name_matches(self, value: &str) -> (search: Self)
        ensures
            search == (PoolSearch { name_matches: search.name_matches, ..self }),
            search.name_matches_text() == Some(value@),
    {
        PoolSearch { name_matches: Some(String::from_str(value)), ..self }
    }

    pub fn id(self, value: Vec<u64>) -> (search: Self)
        ensures
            search == (PoolSearch { id: Some(value), ..self }),
    {
        PoolSearch { id: Some(value), ..self }
    }

    pub fn description_matches(self, value: &str) -> (search: Self)
        ensures
            search == (PoolSearch { description_matches: search.description_matches, ..self }),
            search.description_matches_text() == Some(value@),
    {
        PoolSearch { description_matches: Some(String::from_str(value)), ..self }
    }

    pub fn creator_name(self, value: &str) -> (search: Self)
        ensures
            search == (PoolSearch { creator_name: search.creator_name, ..self }),
            search.creator_name_text() == Some(value@),
    {
        PoolSearch { creator_name: Some(String::from_str(value)), ..self }
    }

    pub fn creator_id(self, value: u64) -> (search: Self)
        ensures
            search == (PoolSearch { creator_id: Some(value), ..self }),
    {
        PoolSearch { creator_id: Some(value), ..self }
    }

    pub fn is_active(self, value: bool) -> (search: Self)
        ensures
            search == (PoolSearch { is_active: Some(value), ..self }),
    {
        PoolSearch { is_active: Some(value), ..self }
    }

    pub fn is_deleted(self, value: bool) -> (search: Self)
        ensures
            search == (PoolSearch { is_deleted: Some(value), ..self }),
    {
        PoolSearch { is_deleted: Some(value), ..self }
    }

    pub fn category(self, value: PoolCategory) -> (search: Self)
        ensures
            search == (PoolSearch { category: Some(value), ..self }),
    {
        PoolSearch { category: Some(value), ..self }
    }

    pub fn order(self, value: PoolSearchOrder) -> (search: Self)
        ensures
            search == (PoolSearch { order: Some(value), ..self }),
    {
        PoolSearch { order: Some(value), ..self }
    }
}

impl Default for PoolSearch {
    fn default() -> (search: Self)
        ensures
            search == (PoolSearch {
                name_matches: None,
                id: None,
                description_matches: None,
                creator_name: None,
                creator_id: None,
                is_active: None,
                is_deleted: None,
                category: None,
                order: None,
            }),
    {
        PoolSearch::new()
    }
}

/// The request for one page of a search for pools.
pub open spec fn pool_request(page: u64, parameters: Seq<char>) -> Seq<char> {
    "/pools.json?page="@ + decimal(page as nat) + parameters
}

/// A search for pools, as the contracts see it.
pub struct PoolStreamView {
    /// The conditions of the search, as the parameters of a request.
    pub parameters: Seq<char>,
    /// The number of the page that the next request asks for.
    pub page: u64,
    /// The buffered page, and whether the search has ended.
    pub chunk: ChunkView<Pool>,
}

impl PoolStreamView {
    /// One pull: the search after it, and what it gave.
    pub open spec fn pull(self) -> (Self, StepView<Pool>) {
        let (chunk, pulled) = self.chunk.pull();
        match pulled {
            Pull::Item(item) => (PoolStreamView { chunk, ..self }, StepView::Item(item)),
            Pull::NeedPage => (self, StepView::Fetch(pool_request(self.page, self.parameters))),
            Pull::End => (self, StepView::End),
        }
    }

    /// The search after the answer to its request has come. A page with pools is
    /// buffered and moves the search to the next page number; after the last number
    /// the pools are handed out and then `LimitExceeded`. An empty page ends the
    /// search, and so does an error. An answer that comes while no page is wanted
    /// changes nothing.
    pub open spec fn receive(self, answer: Result<Seq<Pool>, Error>) -> Self {
        if !(self.chunk.phase() is Fetching) {
            self
        } else if answer is Ok && answer->Ok_0.len() > 0 {
            if self.page < u64::MAX {
                PoolStreamView {
                    page: (self.page + 1) as u64,
                    chunk: self.chunk.fill(answer),
                    ..self
                }
            } else {
                PoolStreamView {
                    chunk: self.chunk.fill(answer).fail(Error::LimitExceeded),
                    ..self
                }
            }
        } else {
            PoolStreamView { chunk: self.chunk.fill(answer), ..self }
        }
    }

    /// Everything that the search hands out when it is pulled until it ends, while its
    /// successive requests are answered by `answers` in turn. Where the answers run out
    /// first, what it hands out until then.
    pub open spec fn emitted(self, answers: Seq<Result<Seq<Pool>, Error>>) -> Seq<Result<Pool, Error>>
        decreases answers.len(), self.chunk.buffered(),
    {
        let (next, step) = self.pull();
        match step {
            StepView::Item(item) => seq![item] + next.emitted(answers),
            StepView::End => Seq::empty(),
            StepView::Fetch(_) => if answers.len() == 0 {
                Seq::empty()
            } else {
                self.receive(answers[0]).emitted(answers.drop_first())
            },
        }
    }

    /// The requests that `answers` answer, in turn, when the search is pulled until it
    /// ends.
    pub open spec fn requests(self, answers: Seq<Result<Seq<Pool>, Error>>) -> Seq<Seq<char>>
        decreases answers.len(), self.chunk.buffered(),
    {
        let (next, step) = self.pull();
        match step {
            StepView::Item(_) => next.requests(answers),
            StepView::End => Seq::empty(),
            StepView::Fetch(request) => if answers.len() == 0 {
                Seq::empty()
            } else {
                seq![request] + self.receive(answers[0]).requests(answers.drop_first())
            },
        }
    }

    /// With pools buffered, the search hands those out first and then goes on as one
    /// that wants a page.
    pub proof fn lemma_buffered_come_first(self, answers: Seq<Result<Seq<Pool>, Error>>)
        requires
            self.chunk.error is None,
            self.chunk.closing is Open,
        ensures
            self.emitted(answers) == oks(self.chunk.pending) + (PoolStreamView {
                chunk: ChunkView::fresh(),
                ..self
            }).emitted(answers),
            self.requests(answers) == (PoolStreamView {
                chunk: ChunkView::fresh(),
                ..self
            }).requests(answers),
        decreases self.chunk.pending.len(),
    {
        let page = self.chunk.pending;
        let drained = PoolStreamView { chunk: ChunkView::fresh(), ..self };
        if page.len() == 0 {
            assert(page =~= Seq::<Pool>::empty());
            assert(self.chunk == ChunkView::<Pool>::fresh());
            assert(oks(page) + drained.emitted(answers) =~= drained.emitted(answers));
        } else {
            let next = self.pull().0;
            next.lemma_buffered_come_first(answers);
            assert(oks(page) =~= seq![Ok::<Pool, Error>(page[0])] + oks(page.drop_first()));
            assert(seq![Ok::<Pool, Error>(page[0])] + (oks(page.drop_first()) + drained.emitted(answers))
                =~= oks(page) + drained.emitted(answers));
        }
    }

    /// A search runs until the first empty page or error: where the first `k` answers
    /// are pages with pools, a search that has just begun asks for `k + 1` consecutive
    /// pages, hands out the pools of those `k` pages in order, then the error if the
    /// next answer is one, and ends. It makes no more requests whatever would follow.
    pub proof fn lemma_runs_to_the_end(self, answers: Seq<Result<Seq<Pool>, Error>>, k: nat)
        requires
            self.chunk == ChunkView::<Pool>::fresh(),
            self.page + k <= u64::MAX,
            k < answers.len(),
            forall|i: int| 0 <= i < k ==> answers[i] is Ok && (#[trigger] answers[i])->Ok_0.len() > 0,
            answers[k as int] is Ok ==> answers[k as int]->Ok_0.len() == 0,
        ensures
            self.emitted(answers) == oks(records_of(answers, k)) + (match answers[k as int] {
                Ok(_) => Seq::empty(),
                Err(error) => seq![Err(error)],
            }),
            self.requests(answers).len() == k + 1,
            forall|i: int|
                0 <= i <= k ==> #[trigger] self.requests(answers)[i] == pool_request(
                    (self.page + i) as u64,
                    self.parameters,
                ),
        decreases k,
    {
        let rest = answers.drop_first();
        let next = self.receive(answers[0]);
        if k == 0 {
            let ended = next.pull().0;
            assert(ended.pull() == (ended, StepView::<Pool>::End));
            assert(ended.emitted(rest) == Seq::<Result<Pool, Error>>::empty());
            assert(ended.requests(rest) == Seq::<Seq<char>>::empty());
            assert(next.requests(rest) == Seq::<Seq<char>>::empty());
            assert(oks(records_of(answers, k)) =~= Seq::<Result<Pool, Error>>::empty());
            match answers[0] {
                Ok(_) => {
                    assert(next.emitted(rest) =~= Seq::<Result<Pool, Error>>::empty());
                },
                Err(error) => {
                    assert(next.emitted(rest) == seq![Err::<Pool, Error>(error)] + ended.emitted(rest));
                },
            }
            assert(self.emitted(answers) =~= oks(records_of(answers, k)) + (match answers[k as int] {
                Ok(_) => Seq::empty(),
                Err(error) => seq![Err(error)],
            }));
        } else {
            let page = answers[0]->Ok_0;
            assert(answers[0] is Ok && answers[0]->Ok_0.len() > 0);
            next.lemma_buffered_come_first(rest);
            let drained = PoolStreamView { chunk: ChunkView::fresh(), ..next };
            assert forall|i: int| 0 <= i < k - 1 implies rest[i] is Ok && (#[trigger] rest[i])->Ok_0.len()
                > 0 by {
                assert(rest[i] == answers[i + 1]);
            }
            assert(rest[k - 1] == answers[k as int]);
            drained.lemma_runs_to_the_end(rest, (k - 1) as nat);
            let tail = match answers[k as int] {
                Ok(_) => Seq::<Result<Pool, Error>>::empty(),
                Err(error) => seq![Err::<Pool, Error>(error)],
            };
            assert(oks(page + records_of(rest, (k - 1) as nat)) + tail =~= oks(page) + (oks(
                records_of(rest, (k - 1) as nat),
            ) + tail));
            assert forall|i: int| 0 <= i <= k implies #[trigger] self.requests(answers)[i]
                == pool_request((self.page + i) as u64, self.parameters) by {
                if i > 0 {
                    assert(self.requests(answers)[i] == drained.requests(rest)[i - 1]);
                }
            }
        }
    }
}

/// A stream of [`Pool`]s.
///
/// It is driven from outside: `pull` hands out the next pool or names the request to
/// make, and `receive` takes the answer to that request.
#[derive(Debug)]
pub struct PoolStream {
    parameters: String,
    page: u64,
    chunk: Chunk<Pool>,
}

impl View for PoolStream {
    type V = PoolStreamView;

    closed spec fn view(&self) -> PoolStreamView {
        PoolStreamView { parameters: self.parameters@, page: self.page, chunk: self.chunk@ }
    }
}

impl PoolStream {
    /// A search for the pools that meet the conditions of `search`, from page 1.
    pub fn new(search: PoolSearch) -> (stream: Self)
        ensures
            stream@ == (PoolStreamView {
                parameters: search.search_parameters(),
                page: 1,
                chunk: ChunkView::fresh(),
            }),
    {
        PoolStream { parameters: search.to_search_parameters(), page: 1, chunk: Chunk::new() }
    }

    /// The phase that the search is in.
    pub fn phase(&self) -> (phase: Phase)
        ensures
            phase == self@.chunk.phase(),
    {
        self.chunk.phase()
    }

    /// Hands out the next pool, or the error that ends the search; else names the
    /// request for the page that is wanted, or says that the search has ended. Never
    /// waits, and asks for the same page until `receive` has taken its answer.
    pub fn pull(&mut self) -> (step: Step<Pool>)
        ensures
            (final(self)@, step@) == old(self)@.pull(),
    {
        match self.chunk.pull() {
            Pull::Item(item) => Step::Item(item),
            Pull::End => Step::End,
            Pull::NeedPage => {
                let mut url = String::from_str("/pools.json?page=");
                url.append(u64_to_string(self.page).as_str());
                url.append(self.parameters.as_str());
                assert(url@ =~= pool_request(self@.page, self@.parameters));
                Step::Fetch(url)
            },
        }
    }

    /// Takes the answer to the request that `pull` named.
    pub fn receive(&mut self, answer: Result<Vec<Pool>, Error>)
        ensures
            final(self)@ == old(self)@.receive(answer_view(answer)),
    {
        match self.chunk.phase() {
            Phase::Fetching => {},
            _ => {
                return ;
            },
        }
        match answer {
            Ok(pools) => {
                if pools.len() > 0 {
                    match self.page.checked_add(1) {
                        Some(next) => {
                            self.page = next;
                            self.chunk.fill(Ok(pools));
                        },
                        None => {
                            self.chunk.fill(Ok(pools));
                            self.chunk.fail(Error::LimitExceeded);
                        },
                    }
                } else {
                    self.chunk.fill(Ok(pools));
                }
            },
            Err(error) => {
                self.chunk.fill(Err(error));
            },
        }
    }
}

} // verus!
