//! Posts, the search for them, and the lookup by id.

use crate::client::{following, next_cursor, Cursor};
use crate::error::Error;
use crate::stream::{answer_view, oks, records_of, Chunk, ChunkView, Phase, Pull, Step, StepView};
use crate::text::{
    decimal, decimals, join_strings, join_strs, joined, starts_with, texts, u64_to_string,
    u64s_to_strings, url_encode, url_encoded,
};
use vstd::prelude::*;

verus! {

/// Chunk size used for iterators performing requests
pub const ITER_CHUNK_SIZE: u64 = 320;

#[derive(Debug, PartialEq, Eq)]
pub enum PostFileExtension {
    Jpeg,
    Png,
    Gif,
    Swf,
    WebM,
}

#[derive(Debug, PartialEq, Eq)]
pub struct PostFile {
    pub width: u64,
    pub height: u64,
    pub ext: PostFileExtension,
    pub size: u64,
    pub md5: String,
    pub url: Option<String>,
}

#[derive(Debug, PartialEq, Eq)]
pub struct PostPreview {
    pub width: u64,
    pub height: u64,
    pub url: Option<String>,
}

#[derive(Debug, PartialEq, Eq)]
pub struct PostSample {
    pub width: u64,
    pub height: u64,
    pub url: Option<String>,
}

#[derive(Debug, PartialEq, Eq)]
pub struct PostScore {
    pub up: i64,
    pub down: i64,
    pub total: i64,
}

#[derive(Debug, PartialEq, Eq)]
pub struct PostTags {
    pub general: Vec<String>,
    pub species: Vec<String>,
    pub character: Vec<String>,
    pub artist: Vec<String>,
    pub invalid: Vec<String>,
    pub lore: Vec<String>,
    pub meta: Vec<String>,
}

#[derive(Debug, PartialEq, Eq)]
pub struct PostFlags {
    pub pending: bool,
    pub flagged: bool,
    pub note_locked: bool,
    pub status_locked: bool,
    pub rating_locked: bool,
    pub deleted: bool,
}

#[derive(Debug, PartialEq, Eq)]
pub enum PostRating {
    Safe,
    Questionable,
    Explicit,
}

#[derive(Debug, PartialEq, Eq)]
pub struct PostRelationships {
    pub parent_id: Option<u64>,
    pub has_children: bool,
    pub has_active_children: bool,
    pub children: Vec<u64>,
}

/// Structure representing a post. Its times are in UTC.
#[derive(Debug, PartialEq, Eq)]
pub struct Post {
    pub id: u64,
    pub created_at: chrono::NaiveDateTime,
    pub updated_at: Option<chrono::NaiveDateTime>,
    pub file: PostFile,
    pub preview: PostPreview,
    pub sample: Option<PostSample>,
    pub score: PostScore,
    pub tags: PostTags,
    pub locked_tags: Vec<String>,
    pub change_seq: u64,
    pub flags: PostFlags,
    pub rating: PostRating,
    pub fav_count: u64,
    pub sources: Vec<String>,
    pub pools: Vec<u64>,
    pub relationships: PostRelationships,
    pub approver_id: Option<u64>,
    pub uploader_id: u64,
    pub description: String,
    pub comment_count: u64,
    pub is_favorited: bool,
}

/// The ids of `posts`, one for one.
pub open spec fn ids_of(posts: Seq<Post>) -> Seq<u64> {
    Seq::new(posts.len(), |i: int| posts[i].id)
}

/// Collects the ids of `posts`.
pub fn post_ids(posts: &Vec<Post>) -> (ids: Vec<u64>)
    ensures
        ids@ == ids_of(posts@),
{
    let mut ids: Vec<u64> = Vec::new();
    let mut i: usize = 0;
    while i < posts.len()
        invariant
            i <= posts.len(),
            ids.len() == i,
            forall|j: int| 0 <= j < i ==> ids[j] == posts[j].id,
        decreases posts.len() - i,
    {
        ids.push(posts[i].id);
        i = i + 1;
    }
    assert(ids@ =~= ids_of(posts@));
    ids
}

/// Whether one of `tags` asks for an order of the results: it begins with `order:`.
pub open spec fn asks_for_order(tags: Seq<Seq<char>>) -> bool {
    exists|i: int| 0 <= i < tags.len() && "order:"@.is_prefix_of(#[trigger] tags[i])
}

/// A search query. Contains information about the tags used and an URL encoded version of the tags.
#[derive(Debug, PartialEq, Clone)]
pub struct Query {
    url_encoded_tags: String,
    ordered: bool,
}

impl Query {
    /// The tags as they stand in a request.
    pub closed spec fn tags(&self) -> Seq<char> {
        self.url_encoded_tags@
    }

    /// Whether the results come in an order that the query asks for, rather than by id.
    pub closed spec fn ordered(&self) -> bool {
        self.ordered
    }

    /// The query for the given search terms: they are joined by one space each and
    /// percent-encoded, and the query is ordered if one of them begins with `order:`.
    pub fn from(q: &[&str]) -> (query: Query)
        ensures
            query.tags() == url_encoded(joined(texts(q@), " "@)),
            query.ordered() == asks_for_order(texts(q@)),
    {
        let query_str = join_strs(q, " ");
        let url_encoded_tags = url_encode(query_str.as_str());
        let mut ordered = false;
        let mut i: usize = 0;
        while i < q.len()
            invariant
                i <= q.len(),
                ordered == asks_for_order(texts(q@).take(i as int)),
            decreases q.len() - i,
        {
            let ghost before = texts(q@).take(i as int);
            let ghost now = texts(q@).take(i + 1);
            let found = starts_with(q[i], "order:");
            proof {
                assert(now[i as int] == q[i as int]@);
                if asks_for_order(before) {
                    let k = choose|k: int| 0 <= k < before.len() && "order:"@.is_prefix_of(#[trigger] before[k]);
                    assert(now[k] == before[k]);
                }
                if asks_for_order(now) && !found {
                    let k = choose|k: int| 0 <= k < now.len() && "order:"@.is_prefix_of(#[trigger] now[k]);
                    assert(before[k] == now[k]);
                }
            }
            if found {
                ordered = true;
            }
            i = i + 1;
        }
        assert(texts(q@).take(i as int) =~= texts(q@));
        Query { url_encoded_tags, ordered }
    }

    /// The tags as they stand in a request.
    pub fn url_encoded_tags(&self) -> (tags: &str)
        ensures
            tags@ == self.tags(),
    {
        self.url_encoded_tags.as_str()
    }

    /// Whether the results come in an order that the query asks for, rather than by id.
    pub fn is_ordered(&self) -> (ordered: bool)
        ensures
            ordered == self.ordered(),
    {
        self.ordered
    }
}

/// Where a search for posts begins.
#[derive(Debug, PartialEq, Eq, Clone, Copy, Structural)]
pub enum SearchPage {
    Page(u64),
    BeforePost(u64),
    AfterPost(u64),
}

impl SearchPage {
    /// The same place as a cursor.
    pub open spec fn as_cursor(self) -> Cursor {
        match self {
            SearchPage::Page(n) => Cursor::Page(n),
            SearchPage::BeforePost(id) => Cursor::Before(id),
            SearchPage::AfterPost(id) => Cursor::After(id),
        }
    }

    /// The same place as a cursor.
    pub fn cursor(self) -> (cursor: Cursor)
        ensures
            cursor == self.as_cursor(),
    {
        match self {
            SearchPage::Page(n) => Cursor::Page(n),
            SearchPage::BeforePost(id) => Cursor::Before(id),
            SearchPage::AfterPost(id) => Cursor::After(id),
        }
    }
}

/// The request for one page of a search: the page size, the cursor unless none is set,
/// and the tags.
pub open spec fn page_request(tags: Seq<char>, cursor: Option<Cursor>) -> Seq<char> {
    "/posts.json?limit="@ + decimal(ITER_CHUNK_SIZE as nat) + match cursor {
        Some(cursor) => "&page="@ + cursor.text(),
        None => Seq::empty(),
    } + "&tags="@ + tags
}

/// Writes the request for one page of a search.
pub fn page_url(query: &Query, cursor: Option<Cursor>) -> (url: String)
    ensures
        url@ == page_request(query.tags(), cursor),
{
    let mut url = String::from_str("/posts.json?limit=");
    url.append(u64_to_string(ITER_CHUNK_SIZE).as_str());
    match cursor {
        Some(cursor) => {
            url.append("&page=");
            url.append(cursor.to_string().as_str());
        },
        None => {},
    }
    url.append("&tags=");
    url.append(query.url_encoded_tags());
    assert(url@ =~= page_request(query.tags(), cursor));
    url
}

/// Where a search begins that was given `page` to begin at: there, or at page 1 where it
/// is ordered and was given none. An unordered search that was given none names no page
/// in its first request.
pub open spec fn first_cursor(ordered: bool, page: Option<SearchPage>) -> Option<Cursor> {
    match page {
        Some(page) => Some(page.as_cursor()),
        None => if ordered {
            Some(Cursor::Page(1))
        } else {
            None
        },
    }
}

/// Whether a search can begin at `page`: an ordered one cannot begin at a record.
pub open spec fn can_begin_at(ordered: bool, page: Option<SearchPage>) -> bool {
    !ordered || page is None || page->Some_0 is Page
}

/// A search for posts, as the contracts see it.
pub struct PostSearchView {
    /// The tags as they stand in a request.
    pub tags: Seq<char>,
    /// Whether the results come in an order that the query asks for.
    pub ordered: bool,
    /// What the next request asks for; `None`: it names no page.
    pub cursor: Option<Cursor>,
    /// The buffered page, and whether the search has ended.
    pub chunk: ChunkView<Post>,
}

impl PostSearchView {
    /// The request for the page that is wanted.
    pub open spec fn request(self) -> Seq<char> {
        page_request(self.tags, self.cursor)
    }

    /// One pull: the search after it, and what it gave.
    pub open spec fn pull(self) -> (Self, StepView<Post>) {
        let (chunk, pulled) = self.chunk.pull();
        match pulled {
            Pull::Item(item) => (PostSearchView { chunk, ..self }, StepView::Item(item)),
            Pull::NeedPage => (self, StepView::Fetch(self.request())),
            Pull::End => (self, StepView::End),
        }
    }

    /// The search after the answer to its request has come. A page with records is
    /// buffered and moves the cursor; where no cursor can follow, the records are
    /// handed out and then the error. An empty page ends the search, and so does an
    /// error. An answer that comes while no page is wanted changes nothing.
    pub open spec fn receive(self, answer: Result<Seq<Post>, Error>) -> Self {
        if !(self.chunk.phase() is Fetching) {
            self
        } else if answer is Ok && answer->Ok_0.len() > 0 {
            match following(self.ordered, self.cursor, ids_of(answer->Ok_0)) {
                Ok(next) => PostSearchView {
                    cursor: Some(next),
                    chunk: self.chunk.fill(answer),
                    ..self
                },
                Err(error) => PostSearchView { chunk: self.chunk.fill(answer).fail(error), ..self },
            }
        } else {
            PostSearchView { chunk: self.chunk.fill(answer), ..self }
        }
    }
}

impl PostSearchView {
    /// Everything that the search hands out when it is pulled until it ends, while its
    /// successive requests are answered by `answers` in turn. Where the answers run out
    /// first, what it hands out until then.
    pub open spec fn emitted(self, answers: Seq<Result<Seq<Post>, Error>>) -> Seq<Result<Post, Error>>
        decreases answers.len(), self.chunk.buffered(),
    {
        let (next, step) = self.pull();
        match step {
            StepView::Item(item) => seq![item] + next.emitted(answers),
            StepView::End => Seq::empty(),
            StepView::Fetch(_) => if answers.len() == 0 {
                Seq::empty()
            } else {
                self.receive(answers[0]).emitted(answers.drop_first())
            },
        }
    }

    /// The requests that `answers` answer, in turn, when the search is pulled until it
    /// ends.
    pub open spec fn requests(self, answers: Seq<Result<Seq<Post>, Error>>) -> Seq<Seq<char>>
        decreases answers.len(), self.chunk.buffered(),
    {
        let (next, step) = self.pull();
        match step {
            StepView::Item(_) => next.requests(answers),
            StepView::End => Seq::empty(),
            StepView::Fetch(request) => if answers.len() == 0 {
                Seq::empty()
            } else {
                seq![request] + self.receive(answers[0]).requests(answers.drop_first())
            },
        }
    }

    /// Whether the cursor can be moved on `k` times: an ordered search counts pages, and
    /// the count has to fit.
    pub open spec fn can_turn(self, k: nat) -> bool {
        self.ordered ==> match self.cursor {
            Some(Cursor::Page(n)) => n + k <= u64::MAX,
            Some(_) => false,
            None => 1 + k <= u64::MAX,
        }
    }

    /// With posts buffered, the search hands those out first and then goes on as one
    /// that wants a page.
    pub proof fn lemma_buffered_come_first(self, answers: Seq<Result<Seq<Post>, Error>>)
        requires
            self.chunk.error is None,
            self.chunk.closing is Open,
        ensures
            self.emitted(answers) == oks(self.chunk.pending) + (PostSearchView {
                chunk: ChunkView::fresh(),
                ..self
            }).emitted(answers),
            self.requests(answers) == (PostSearchView {
                chunk: ChunkView::fresh(),
                ..self
            }).requests(answers),
        decreases self.chunk.pending.len(),
    {
        let page = self.chunk.pending;
        let drained = PostSearchView { chunk: ChunkView::fresh(), ..self };
        if page.len() == 0 {
            assert(page =~= Seq::<Post>::empty());
            assert(self.chunk == ChunkView::<Post>::fresh());
            assert(oks(page) + drained.emitted(answers) =~= drained.emitted(answers));
        } else {
            let next = self.pull().0;
            next.lemma_buffered_come_first(answers);
            assert(oks(page) =~= seq![Ok::<Post, Error>(page[0])] + oks(page.drop_first()));
            assert(seq![Ok::<Post, Error>(page[0])] + (oks(page.drop_first()) + drained.emitted(answers))
                =~= oks(page) + drained.emitted(answers));
        }
    }

    /// A search runs until the first empty page: where the first `k` answers are pages
    /// with posts and the next one is an empty page, a search that has just begun hands
    /// out exactly the posts of those `k` pages, in order and without an error, then
    /// ends. It has made `k + 1` requests, the first of them for the place where it
    /// began, and makes no more whatever would follow.
    pub proof fn lemma_exhaustion(self, answers: Seq<Result<Seq<Post>, Error>>, k: nat)
        requires
            self.chunk == ChunkView::<Post>::fresh(),
            self.can_turn(k),
            k < answers.len(),
            forall|i: int| 0 <= i < k ==> answers[i] is Ok && (#[trigger] answers[i])->Ok_0.len() > 0,
            answers[k as int] is Ok,
            answers[k as int]->Ok_0.len() == 0,
        ensures
            self.emitted(answers) == oks(records_of(answers, k)),
            self.requests(answers).len() == k + 1,
            self.requests(answers)[0] == self.request(),
        decreases k,
    {
        let rest = answers.drop_first();
        let next = self.receive(answers[0]);
        if k == 0 {
            assert(next.pull() == (next, StepView::<Post>::End));
            assert(next.emitted(rest) == Seq::<Result<Post, Error>>::empty());
            assert(next.requests(rest) == Seq::<Seq<char>>::empty());
            assert(oks(records_of(answers, k)) =~= Seq::<Result<Post, Error>>::empty());
        } else {
            let page = answers[0]->Ok_0;
            assert(answers[0] is Ok && answers[0]->Ok_0.len() > 0);
            assert(following(self.ordered, self.cursor, ids_of(page)) is Ok);
            next.lemma_buffered_come_first(rest);
            let drained = PostSearchView { chunk: ChunkView::fresh(), ..next };
            assert forall|i: int| 0 <= i < k - 1 implies rest[i] is Ok && (#[trigger] rest[i])->Ok_0.len()
                > 0 by {
                assert(rest[i] == answers[i + 1]);
            }
            drained.lemma_exhaustion(rest, (k - 1) as nat);
            assert(oks(page + records_of(rest, (k - 1) as nat)) =~= oks(page) + oks(
                records_of(rest, (k - 1) as nat),
            ));
        }
    }

    /// An error ends a search: where the first `k` answers are pages with posts and the
    /// next one is an error, a search that has just begun hands out the posts of those
    /// `k` pages, then that error, once, and ends. It has made `k + 1` requests, and
    /// makes no more whatever would follow.
    pub proof fn lemma_error_ends(self, answers: Seq<Result<Seq<Post>, Error>>, k: nat)
        requires
            self.chunk == ChunkView::<Post>::fresh(),
            self.can_turn(k),
            k < answers.len(),
            forall|i: int| 0 <= i < k ==> answers[i] is Ok && (#[trigger] answers[i])->Ok_0.len() > 0,
            answers[k as int] is Err,
        ensures
            self.emitted(answers) == oks(records_of(answers, k)).push(Err(answers[k as int]->Err_0)),
            self.requests(answers).len() == k + 1,
            self.requests(answers)[0] == self.request(),
        decreases k,
    {
        let rest = answers.drop_first();
        let next = self.receive(answers[0]);
        if k == 0 {
            let error = answers[0]->Err_0;
            let failed = next.pull().0;
            assert(next.pull().1 == StepView::Item(Err::<Post, Error>(error)));
            assert(failed.pull() == (failed, StepView::<Post>::End));
            assert(failed.emitted(rest) == Seq::<Result<Post, Error>>::empty());
            assert(failed.requests(rest) == Seq::<Seq<char>>::empty());
            assert(next.emitted(rest) == seq![Err::<Post, Error>(error)] + failed.emitted(rest));
            assert(next.requests(rest) == failed.requests(rest));
            assert(self.emitted(answers) =~= oks(records_of(answers, k)).push(Err(error)));
        } else {
            let page = answers[0]->Ok_0;
            assert(answers[0] is Ok && answers[0]->Ok_0.len() > 0);
            assert(following(self.ordered, self.cursor, ids_of(page)) is Ok);
            next.lemma_buffered_come_first(rest);
            let drained = PostSearchView { chunk: ChunkView::fresh(), ..next };
            assert forall|i: int| 0 <= i < k - 1 implies rest[i] is Ok && (#[trigger] rest[i])->Ok_0.len()
                > 0 by {
                assert(rest[i] == answers[i + 1]);
            }
            drained.lemma_error_ends(rest, (k - 1) as nat);
            assert(rest[k - 1] == answers[k as int]);
            assert(oks(page + records_of(rest, (k - 1) as nat)).push(Err(answers[k as int]->Err_0))
                =~= oks(page) + oks(records_of(rest, (k - 1) as nat)).push(
                Err(answers[k as int]->Err_0),
            ));
        }
    }

    /// After a page with posts, an unordered search that did not begin above a post
    /// asks for the page below the least id that came.
    pub proof fn lemma_resumes_below(self, answers: Seq<Result<Seq<Post>, Error>>)
        requires
            self.chunk == ChunkView::<Post>::fresh(),
            !self.ordered,
            !(self.cursor is Some && self.cursor->Some_0 is After),
            answers.len() >= 2,
            answers[0] is Ok,
            answers[0]->Ok_0.len() > 0,
        ensures
            self.requests(answers).len() >= 2,
            self.requests(answers)[0] == page_request(self.tags, self.cursor),
            self.requests(answers)[1] == page_request(
                self.tags,
                Some(Cursor::Before(crate::client::least(ids_of(answers[0]->Ok_0)))),
            ),
    {
        let rest = answers.drop_first();
        let next = self.receive(answers[0]);
        next.lemma_buffered_come_first(rest);
        let drained = PostSearchView { chunk: ChunkView::fresh(), ..next };
        assert(drained.pull() == (drained, StepView::<Post>::Fetch(drained.request())));
        assert(drained.requests(rest) == seq![drained.request()] + drained.receive(rest[0]).requests(
            rest.drop_first(),
        ));
    }
}

/// Iterator returning posts from a search query.
///
/// It is driven from outside: `pull` hands out the next post or names the request to
/// make, and `receive` takes the answer to that request.
#[derive(Debug)]
pub struct PostSearchStream {
    query: Query,
    next_page: Option<Cursor>,
    chunk: Chunk<Post>,
}

impl View for PostSearchStream {
    type V = PostSearchView;

    closed spec fn view(&self) -> PostSearchView {
        PostSearchView {
            tags: self.query.tags(),
            ordered: self.query.ordered(),
            cursor: self.next_page,
            chunk: self.chunk@,
        }
    }
}

impl PostSearchStream {
    /// A search that begins at `page`, or at the first results where `page` is `None`.
    /// An ordered query with a page that names a record is refused.
    pub fn new(query: Query, page: Option<SearchPage>) -> (stream: Result<Self, Error>)
        ensures
            match stream {
                Ok(stream) => can_begin_at(query.ordered(), page) && stream@ == (PostSearchView {
                    tags: query.tags(),
                    ordered: query.ordered(),
                    cursor: first_cursor(query.ordered(), page),
                    chunk: ChunkView::fresh(),
                }),
                Err(error) => !can_begin_at(query.ordered(), page) && error == Error::Usage,
            },
    {
        let next_page = match page {
            Some(SearchPage::Page(n)) => Some(Cursor::Page(n)),
            Some(page) => {
                if query.ordered {
                    return Err(Error::Usage);
                }
                Some(page.cursor())
            },
            None => if query.ordered {
                Some(Cursor::Page(1))
            } else {
                None
            },
        };
        Ok(PostSearchStream { query, next_page, chunk: Chunk::new() })
    }

    /// The phase that the search is in.
    pub fn phase(&self) -> (phase: Phase)
        ensures
            phase == self@.chunk.phase(),
    {
        self.chunk.phase()
    }

    /// What the next request asks for; `None`: it names no page. A search that is begun
    /// anew from here goes on where this one stands.
    pub fn next_page(&self) -> (cursor: Option<Cursor>)
        ensures
            cursor == self@.cursor,
    {
        self.next_page
    }

    /// Hands out the next post, or the error that ends the search; else names the
    /// request for the page that is wanted, or says that the search has ended. Never
    /// waits, and asks for the same page until `receive` has taken its answer.
    pub fn pull(&mut self) -> (step: Step<Post>)
        ensures
            (final(self)@, step@) == old(self)@.pull(),
    {
        match self.chunk.pull() {
            Pull::Item(item) => Step::Item(item),
            Pull::End => Step::End,
            Pull::NeedPage => Step::Fetch(page_url(&self.query, self.next_page)),
        }
    }

    /// Takes the answer to the request that `pull` named.
    pub fn receive(&mut self, answer: Result<Vec<Post>, Error>)
        ensures
            final(self)@ == old(self)@.receive(answer_view(answer)),
    {
        match self.chunk.phase() {
            Phase::Fetching => {},
            _ => {
                return ;
            },
        }
        match answer {
            Ok(posts) => {
                if posts.len() > 0 {
                    let ids = post_ids(&posts);
                    match next_cursor(self.query.ordered, self.next_page, &ids) {
                        Ok(next) => {
                            self.next_page = Some(next);
                            self.chunk.fill(Ok(posts));
                        },
                        Err(error) => {
                            self.chunk.fill(Ok(posts));
                            self.chunk.fail(error);
                        },
                    }
                } else {
                    self.chunk.fill(Ok(posts));
                }
            },
            Err(error) => {
                self.chunk.fill(Err(error));
            },
        }
    }
}

/// The most ids that one request looks up.
pub const BATCH_SIZE: usize = 100;

/// The ids that the next request looks up: the first hundred of those that are left,
/// or all of them where they are fewer.
pub open spec fn batch_of(ids: Seq<u64>) -> Seq<u64> {
    if ids.len() <= BATCH_SIZE {
        ids
    } else {
        ids.take(BATCH_SIZE as int)
    }
}

/// The ids that are left after the next request.
pub open spec fn after_batch(ids: Seq<u64>) -> Seq<u64> {
    if ids.len() <= BATCH_SIZE {
        Seq::empty()
    } else {
        ids.skip(BATCH_SIZE as int)
    }
}

/// `ids` in batches, in order: each holds a hundred ids but the last, which holds the
/// rest.
pub open spec fn batches(ids: Seq<u64>) -> Seq<Seq<u64>>
    decreases ids.len(),
{
    if ids.len() == 0 {
        Seq::empty()
    } else {
        seq![batch_of(ids)] + batches(after_batch(ids))
    }
}

/// The request that looks up the posts with the given ids.
pub open spec fn batch_request(batch: Seq<u64>) -> Seq<char> {
    "/posts.json?tags=id%3A"@ + joined(decimals(batch), ","@)
}

/// The requests for `batches`, one for one.
pub open spec fn batch_requests(batches: Seq<Seq<u64>>) -> Seq<Seq<char>> {
    Seq::new(batches.len(), |i: int| batch_request(batches[i]))
}

/// A lookup of posts by id, as the contracts see it.
pub struct PostStreamView {
    /// The ids that no request has looked up yet.
    pub ids: Seq<u64>,
    /// The buffered posts, and whether the lookup has ended.
    pub chunk: ChunkView<Post>,
}

impl PostStreamView {
    /// One pull: the lookup after it, and what it gave. Where nothing is buffered, the
    /// next batch is asked for; where no id is left either, the lookup ends.
    pub open spec fn pull(self) -> (Self, StepView<Post>) {
        let (chunk, pulled) = self.chunk.pull();
        match pulled {
            Pull::Item(item) => (PostStreamView { chunk, ..self }, StepView::Item(item)),
            Pull::End => (self, StepView::End),
            Pull::NeedPage => if self.ids.len() == 0 {
                (PostStreamView { chunk: self.chunk.fill(Ok(Seq::empty())), ..self }, StepView::End)
            } else {
                (self, StepView::Fetch(batch_request(batch_of(self.ids))))
            },
        }
    }

    /// The lookup after the answer to its request has come: the batch is done with. The
    /// posts that came are buffered, in the order in which the server sent them; where
    /// none came, the next batch is wanted. An error ends the lookup. An answer that
    /// comes while no batch is asked for changes nothing.
    pub open spec fn receive(self, answer: Result<Seq<Post>, Error>) -> Self {
        if !(self.chunk.phase() is Fetching) || self.ids.len() == 0 {
            self
        } else if answer is Ok && answer->Ok_0.len() == 0 {
            PostStreamView { ids: after_batch(self.ids), ..self }
        } else {
            PostStreamView { ids: after_batch(self.ids), chunk: self.chunk.fill(answer) }
        }
    }

    /// Everything that the lookup hands out when it is pulled until it ends, while its
    /// successive requests are answered by `answers` in turn. Where the answers run out
    /// first, what it hands out until then.
    pub open spec fn emitted(self, answers: Seq<Result<Seq<Post>, Error>>) -> Seq<Result<Post, Error>>
        decreases answers.len(), self.chunk.buffered(),
    {
        let (next, step) = self.pull();
        match step {
            StepView::Item(item) => seq![item] + next.emitted(answers),
            StepView::End => Seq::empty(),
            StepView::Fetch(_) => if answers.len() == 0 {
                Seq::empty()
            } else {
                self.receive(answers[0]).emitted(answers.drop_first())
            },
        }
    }

    /// The requests that `answers` answer, in turn, when the lookup is pulled until it
    /// ends.
    pub open spec fn requests(self, answers: Seq<Result<Seq<Post>, Error>>) -> Seq<Seq<char>>
        decreases answers.len(), self.chunk.buffered(),
    {
        let (next, step) = self.pull();
        match step {
            StepView::Item(_) => next.requests(answers),
            StepView::End => Seq::empty(),
            StepView::Fetch(request) => if answers.len() == 0 {
                Seq::empty()
            } else {
                seq![request] + self.receive(answers[0]).requests(answers.drop_first())
            },
        }
    }

    /// With posts buffered, the lookup hands those out first and then goes on as one
    /// that wants a batch.
    pub proof fn lemma_buffered_come_first(self, answers: Seq<Result<Seq<Post>, Error>>)
        requires
            self.chunk.error is None,
            self.chunk.closing is Open,
        ensures
            self.emitted(answers) == oks(self.chunk.pending) + (PostStreamView {
                chunk: ChunkView::fresh(),
                ..self
            }).emitted(answers),
            self.requests(answers) == (PostStreamView {
                chunk: ChunkView::fresh(),
                ..self
            }).requests(answers),
        decreases self.chunk.pending.len(),
    {
        let page = self.chunk.pending;
        let drained = PostStreamView { chunk: ChunkView::fresh(), ..self };
        if page.len() == 0 {
            assert(page =~= Seq::<Post>::empty());
            assert(self.chunk == ChunkView::<Post>::fresh());
            assert(oks(page) + drained.emitted(answers) =~= drained.emitted(answers));
        } else {
            let next = self.pull().0;
            next.lemma_buffered_come_first(answers);
            assert(oks(page) =~= seq![Ok::<Post, Error>(page[0])] + oks(page.drop_first()));
            assert(seq![Ok::<Post, Error>(page[0])] + (oks(page.drop_first()) + drained.emitted(answers))
                =~= oks(page) + drained.emitted(answers));
        }
    }

    /// A lookup makes one request per batch: where each batch of the ids is answered by
    /// a page, a lookup that has just begun asks for the batches in turn, one request
    /// each, and hands out the posts of those pages in the order in which they came,
    /// then ends. It makes no request beyond the last batch, and none at all where
    /// there is no id.
    pub proof fn lemma_one_request_per_batch(self, answers: Seq<Result<Seq<Post>, Error>>)
        requires
            self.chunk == ChunkView::<Post>::fresh(),
            batches(self.ids).len() <= answers.len(),
            forall|i: int| 0 <= i < batches(self.ids).len() ==> (#[trigger] answers[i]) is Ok,
        ensures
            self.requests(answers) == batch_requests(batches(self.ids)),
            self.emitted(answers) == oks(records_of(answers, batches(self.ids).len())),
        decreases self.ids.len(),
    {
        if self.ids.len() == 0 {
            let ended = self.pull().0;
            assert(self.requests(answers) =~= batch_requests(batches(self.ids)));
            assert(self.emitted(answers) =~= oks(records_of(answers, batches(self.ids).len())));
        } else {
            let rest = answers.drop_first();
            let tail = batches(after_batch(self.ids));
            assert(batches(self.ids) == seq![batch_of(self.ids)] + tail);
            assert(batches(self.ids).len() == 1 + tail.len());
            assert(answers[0] is Ok);
            let page = answers[0]->Ok_0;
            let next = self.receive(answers[0]);
            let drained = PostStreamView { chunk: ChunkView::fresh(), ..next };
            if page.len() == 0 {
                assert(page =~= Seq::<Post>::empty());
                assert(next == drained);
            } else {
                next.lemma_buffered_come_first(rest);
            }
            assert forall|i: int| 0 <= i < tail.len() implies (#[trigger] rest[i]) is Ok by {
                assert(rest[i] == answers[i + 1]);
            }
            drained.lemma_one_request_per_batch(rest);
            assert(self.requests(answers) =~= batch_requests(batches(self.ids)));
            assert(oks(page + records_of(rest, tail.len())) =~= oks(page) + oks(
                records_of(rest, tail.len()),
            ));
        }
    }
}

/// The batches of `ids` are its consecutive stretches of a hundred, the last one as
/// long as what is left: there are as many as a hundred goes into the number of ids,
/// rounded up.
pub proof fn lemma_batches(ids: Seq<u64>)
    ensures
        batches(ids).len() == (ids.len() + BATCH_SIZE - 1) / (BATCH_SIZE as int),
        forall|i: int|
            0 <= i < batches(ids).len() ==> #[trigger] batches(ids)[i] == ids.subrange(
                i * BATCH_SIZE,
                if (i + 1) * BATCH_SIZE <= ids.len() {
                    (i + 1) * BATCH_SIZE
                } else {
                    ids.len() as int
                },
            ),
    decreases ids.len(),
{
    if ids.len() > 0 {
        let rest = after_batch(ids);
        lemma_batches(rest);
        assert(batches(ids) == seq![batch_of(ids)] + batches(rest));
        assert forall|i: int| 0 <= i < batches(ids).len() implies #[trigger] batches(ids)[i]
            == ids.subrange(
            i * BATCH_SIZE,
            if (i + 1) * BATCH_SIZE <= ids.len() {
                (i + 1) * BATCH_SIZE
            } else {
                ids.len() as int
            },
        ) by {
            if i == 0 {
                assert(batch_of(ids) =~= ids.subrange(
                    0,
                    if BATCH_SIZE <= ids.len() {
                        BATCH_SIZE as int
                    } else {
                        ids.len() as int
                    },
                ));
            } else {
                assert(batches(ids)[i] == batches(rest)[i - 1]);
                assert(ids.len() > BATCH_SIZE);
                assert(rest.subrange(
                    (i - 1) * BATCH_SIZE,
                    if i * BATCH_SIZE <= rest.len() {
                        i * BATCH_SIZE
                    } else {
                        rest.len() as int
                    },
                ) =~= ids.subrange(
                    i * BATCH_SIZE,
                    if (i + 1) * BATCH_SIZE <= ids.len() {
                        (i + 1) * BATCH_SIZE
                    } else {
                        ids.len() as int
                    },
                ));
            }
        }
    }
}

/// Iterator returning the posts with given ids. The order in which they come is the
/// server's, batch by batch, and need not be that of the ids.
///
/// It is driven from outside: `pull` hands out the next post or names the request to
/// make, and `receive` takes the answer to that request.
#[derive(Debug)]
pub struct PostStream {
    ids: Vec<u64>,
    done: usize,
    chunk: Chunk<Post>,
}

impl View for PostStream {
    type V = PostStreamView;

    closed spec fn view(&self) -> PostStreamView {
        PostStreamView {
            ids: if self.done <= self.ids.len() {
                self.ids@.skip(self.done as int)
            } else {
                Seq::empty()
            },
            chunk: self.chunk@,
        }
    }
}

impl PostStream {
    /// A lookup of the posts with the given ids.
    pub fn new(ids: Vec<u64>) -> (stream: Self)
        ensures
            stream@ == (PostStreamView { ids: ids@, chunk: ChunkView::fresh() }),
    {
        assert(ids@.skip(0) =~= ids@);
        PostStream { ids, done: 0, chunk: Chunk::new() }
    }

    /// The phase that the lookup is in.
    pub fn phase(&self) -> (phase: Phase)
        ensures
            phase == self@.chunk.phase(),
    {
        self.chunk.phase()
    }

    fn batch_end(&self) -> (end: usize)
        requires
            self.done < self.ids.len(),
        ensures
            self.done < end <= self.ids.len(),
            self.ids@.subrange(self.done as int, end as int) == batch_of(self@.ids),
            self.ids@.skip(end as int) == after_batch(self@.ids),
    {
        let left = self.ids.len() - self.done;
        let end = if left <= BATCH_SIZE {
            self.ids.len()
        } else {
            self.done + BATCH_SIZE
        };
        assert(self.ids@.subrange(self.done as int, end as int) =~= batch_of(self@.ids));
        assert(self.ids@.skip(end as int) =~= after_batch(self@.ids));
        end
    }

    /// Hands out the next post, or the error that ends the lookup; else names the
    /// request for the next batch of ids, or says that the lookup has ended. Never
    /// waits, and asks for the same batch until `receive` has taken its answer.
    pub fn pull(&mut self) -> (step: Step<Post>)
        ensures
            (final(self)@, step@) == old(self)@.pull(),
    {
        match self.chunk.pull() {
            Pull::Item(item) => Step::Item(item),
            Pull::End => Step::End,
            Pull::NeedPage => {
                if self.done >= self.ids.len() {
                    assert(self@.ids.len() == 0);
                    self.chunk.fill(Ok(Vec::new()));
                    Step::End
                } else {
                    let end = self.batch_end();
                    let batch = u64s_to_strings(slice_subrange(self.ids.as_slice(), self.done, end));
                    let mut url = String::from_str("/posts.json?tags=id%3A");
                    url.append(join_strings(&batch, ",").as_str());
                    assert(url@ =~= batch_request(batch_of(self@.ids)));
                    Step::Fetch(url)
                }
            },
        }
    }

    /// Takes the answer to the request that `pull` named.
    pub fn receive(&mut self, answer: Result<Vec<Post>, Error>)
        ensures
            final(self)@ == old(self)@.receive(answer_view(answer)),
    {
        match self.chunk.phase() {
            Phase::Fetching => {},
            _ => {
                return ;
            },
        }
        if self.done >= self.ids.len() {
            assert(self@.ids.len() == 0);
            return ;
        }
        let end = self.batch_end();
        self.done = end;
        match answer {
            Ok(posts) => {
                if posts.len() > 0 {
                    self.chunk.fill(Ok(posts));
                }
            },
            Err(error) => {
                self.chunk.fill(Err(error));
            },
        }
    }
}

fn slice_subrange(slice: &[u64], from: usize, to: usize) -> (part: &[u64])
    requires
        from <= to <= slice.len(),
    ensures
        part@ == slice@.subrange(from as int, to as int),
{
    &slice[from..to]
}

} // verus!
