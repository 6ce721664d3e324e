//! What a client needs before and after it talks to the server: where a listing resumes,
//! the headers of a request, and the reading of an answer's status.

pub mod rate_limit;

use crate::error::Error;
use crate::text::pair_texts;
use crate::text::{decimal, is_digit, lemma_parse_decimal, parse_u64, parsed_u64, u64_to_string, ParseIntError};
use vstd::prelude::*;
use vstd::utf8::encode_utf8;

verus! {

/// Where to begin returning results from in paginated requests.
#[derive(Debug, PartialEq, Eq, Clone, Copy, Structural)]
pub enum Cursor {
    /// Begin at the given page. Actual offset depends on page size.
    Page(u64),
    /// Return page size items ordered before the given id.
    Before(u64),
    /// Return page size items ordered after the given id.
    After(u64),
}

impl Cursor {
    /// The text of a cursor: the digits of a page, `b` and the digits of an id for
    /// `Before`, `a` and the digits of an id for `After`.
    pub open spec fn text(self) -> Seq<char> {
        match self {
            Cursor::Page(n) => decimal(n as nat),
            Cursor::Before(id) => seq!['b'] + decimal(id as nat),
            Cursor::After(id) => seq!['a'] + decimal(id as nat),
        }
    }

    /// The cursor that a text writes: a leading `a` makes it `After`, a leading `b`
    /// `Before`, and anything else is read as a page.
    pub open spec fn parsed(s: Seq<char>) -> Result<Cursor, ParseIntError> {
        if s.len() > 0 && s[0] == 'a' {
            match parsed_u64(s.drop_first()) {
                Ok(id) => Ok(Cursor::After(id)),
                Err(e) => Err(e),
            }
        } else if s.len() > 0 && s[0] == 'b' {
            match parsed_u64(s.drop_first()) {
                Ok(id) => Ok(Cursor::Before(id)),
                Err(e) => Err(e),
            }
        } else {
            match parsed_u64(s) {
                Ok(n) => Ok(Cursor::Page(n)),
                Err(e) => Err(e),
            }
        }
    }

    /// Whether the cursor names a place in a listing: pages are counted from 1, and any
    /// id can be resumed at.
    pub open spec fn valid(self) -> bool {
        self matches Cursor::Page(n) ==> n >= 1
    }

    /// Writes the cursor as the `page` parameter of a request takes it.
    pub fn to_string(&self) -> (s: String)
        ensures
            s@ == self.text(),
    {
        match self {
            Cursor::Page(n) => u64_to_string(*n),
            Cursor::Before(id) => {
                proof {
                    reveal_strlit("b");
                }
                let mut s = String::from_str("b");
                s.append(u64_to_string(*id).as_str());
                assert(s@ =~= self.text());
                s
            },
            Cursor::After(id) => {
                proof {
                    reveal_strlit("a");
                }
                let mut s = String::from_str("a");
                s.append(u64_to_string(*id).as_str());
                assert(s@ =~= self.text());
                s
            },
        }
    }

    /// Reads a cursor from its text.
    pub fn from_str(s: &str) -> (r: Result<Cursor, ParseIntError>)
        ensures
            r == Cursor::parsed(s@),
    {
        if s.is_empty() {
            return match parse_u64(s) {
                Ok(n) => Ok(Cursor::Page(n)),
                Err(e) => Err(e),
            };
        }
        let first = s.get_char(0);
        if first == 'a' || first == 'b' {
            let rest = s.substring_char(1, s.unicode_len());
            assert(rest@ =~= s@.drop_first());
            match parse_u64(rest) {
                Ok(id) => Ok(if first == 'a' { Cursor::After(id) } else { Cursor::Before(id) }),
                Err(e) => Err(e),
            }
        } else {
            match parse_u64(s) {
                Ok(n) => Ok(Cursor::Page(n)),
                Err(e) => Err(e),
            }
        }
    }

    /// Reading the text of a cursor gives the cursor back.
    pub proof fn lemma_round_trip(self)
        ensures
            Cursor::parsed(self.text()) == Ok::<Cursor, ParseIntError>(self),
    {
        match self {
            Cursor::Page(n) => {
                lemma_parse_decimal(n, u64::MAX);
            },
            Cursor::Before(id) => {
                lemma_parse_decimal(id, u64::MAX);
                assert(self.text().drop_first() =~= decimal(id as nat));
            },
            Cursor::After(id) => {
                lemma_parse_decimal(id, u64::MAX);
                assert(self.text().drop_first() =~= decimal(id as nat));
            },
        }
    }
}

/// The least of `ids`. Meant for a page that holds a record.
pub open spec fn least(ids: Seq<u64>) -> u64
    decreases ids.len(),
{
    if ids.len() == 0 {
        0
    } else if ids.len() == 1 {
        ids[0]
    } else if ids.last() < least(ids.drop_last()) {
        ids.last()
    } else {
        least(ids.drop_last())
    }
}

/// The greatest of `ids`. Meant for a page that holds a record.
pub open spec fn greatest(ids: Seq<u64>) -> u64
    decreases ids.len(),
{
    if ids.len() == 0 {
        0
    } else if ids.len() == 1 {
        ids[0]
    } else if ids.last() > greatest(ids.drop_last()) {
        ids.last()
    } else {
        greatest(ids.drop_last())
    }
}

/// The least id of a page is one of its ids, and none is below it.
pub proof fn lemma_least(ids: Seq<u64>)
    requires
        ids.len() > 0,
    ensures
        ids.contains(least(ids)),
        forall|i: int| 0 <= i < ids.len() ==> least(ids) <= ids[i],
    decreases ids.len(),
{
    if ids.len() > 1 {
        let front = ids.drop_last();
        lemma_least(front);
        let k = choose|k: int| 0 <= k < front.len() && front[k] == least(front);
        assert(ids[k] == front[k]);
        assert(ids[ids.len() - 1] == ids.last());
        assert forall|i: int| 0 <= i < ids.len() implies least(ids) <= ids[i] by {
            if i < front.len() {
                assert(front[i] == ids[i]);
            }
        }
    } else {
        assert(ids[0] == least(ids));
    }
}

/// The greatest id of a page is one of its ids, and none is above it.
pub proof fn lemma_greatest(ids: Seq<u64>)
    requires
        ids.len() > 0,
    ensures
        ids.contains(greatest(ids)),
        forall|i: int| 0 <= i < ids.len() ==> greatest(ids) >= ids[i],
    decreases ids.len(),
{
    if ids.len() > 1 {
        let front = ids.drop_last();
        lemma_greatest(front);
        let k = choose|k: int| 0 <= k < front.len() && front[k] == greatest(front);
        assert(ids[k] == front[k]);
        assert(ids[ids.len() - 1] == ids.last());
        assert forall|i: int| 0 <= i < ids.len() implies greatest(ids) >= ids[i] by {
            if i < front.len() {
                assert(front[i] == ids[i]);
            }
        }
    } else {
        assert(ids[0] == greatest(ids));
    }
}

/// The least and the greatest of `ids`.
pub fn id_bounds(ids: &Vec<u64>) -> (bounds: (u64, u64))
    requires
        ids.len() > 0,
    ensures
        bounds.0 == least(ids@),
        bounds.1 == greatest(ids@),
{
    let mut low: u64 = ids[0];
    let mut high: u64 = ids[0];
    let mut i: usize = 1;
    assert(ids@.take(1).len() == 1 && ids@.take(1)[0] == ids[0]);
    while i < ids.len()
        invariant
            1 <= i <= ids.len(),
            low == least(ids@.take(i as int)),
            high == greatest(ids@.take(i as int)),
        decreases ids.len() - i,
    {
        let ghost now = ids@.take(i + 1);
        assert(now.drop_last() =~= ids@.take(i as int));
        assert(now.last() == ids[i as int]);
        if ids[i] < low {
            low = ids[i];
        }
        if ids[i] > high {
            high = ids[i];
        }
        i = i + 1;
    }
    assert(ids@.take(i as int) =~= ids@);
    (low, high)
}

/// Where a listing goes on after a page.
///
/// `cursor` is what the page was asked for with, `None` where the request named no
/// page, and `ids` are the ids of the records that came. A listing in the server's own
/// order (`ordered`) goes on with the next page number, from page 1 where none was
/// named; it cannot resume at a record, and there is no page after the last number. Any
/// other listing is keyed by id: after `After` it goes on above the greatest id that
/// came, else below the least.
pub open spec fn following(ordered: bool, cursor: Option<Cursor>, ids: Seq<u64>) -> Result<
    Cursor,
    Error,
> {
    if ordered {
        match cursor {
            Some(Cursor::Before(_)) | Some(Cursor::After(_)) => Err(Error::Usage),
            Some(Cursor::Page(n)) => if n < u64::MAX {
                Ok(Cursor::Page((n + 1) as u64))
            } else {
                Err(Error::LimitExceeded)
            },
            None => Ok(Cursor::Page(2)),
        }
    } else {
        match cursor {
            Some(Cursor::After(_)) => Ok(Cursor::After(greatest(ids))),
            _ => Ok(Cursor::Before(least(ids))),
        }
    }
}

/// Where a listing goes on is a place in it.
pub proof fn lemma_following_is_valid(ordered: bool, cursor: Option<Cursor>, ids: Seq<u64>)
    ensures
        following(ordered, cursor, ids) matches Ok(next) ==> next.valid(),
{
}

/// Computes where a listing goes on after a page that held a record.
pub fn next_cursor(ordered: bool, cursor: Option<Cursor>, ids: &Vec<u64>) -> (next: Result<
    Cursor,
    Error,
>)
    requires
        ids.len() > 0,
    ensures
        next == following(ordered, cursor, ids@),
{
    if ordered {
        match cursor {
            Some(Cursor::Before(_)) | Some(Cursor::After(_)) => Err(Error::Usage),
            Some(Cursor::Page(n)) => match n.checked_add(1) {
                Some(m) => Ok(Cursor::Page(m)),
                None => Err(Error::LimitExceeded),
            },
            None => Ok(Cursor::Page(2)),
        }
    } else {
        let (low, high) = id_bounds(ids);
        match cursor {
            Some(Cursor::After(_)) => Ok(Cursor::After(high)),
            _ => Ok(Cursor::Before(low)),
        }
    }
}

/// A listing that resumes below an id moves strictly down: where the server answers
/// `Before(id)` with records below `id` only, the cursor after that page is `Before` an
/// id that is below `id`, and not above any record of the page.
pub proof fn lemma_before_moves_down(cursor: Option<Cursor>, first: Seq<u64>, second: Seq<u64>)
    requires
        !(cursor is Some && cursor->Some_0 is After),
        first.len() > 0,
        second.len() > 0,
        forall|i: int| 0 <= i < second.len() ==> second[i] < least(first),
    ensures
        following(false, cursor, first) == Ok::<Cursor, Error>(Cursor::Before(least(first))),
        following(false, Some(Cursor::Before(least(first))), second) == Ok::<Cursor, Error>(
            Cursor::Before(least(second)),
        ),
        least(second) < least(first),
        forall|i: int| 0 <= i < first.len() ==> least(second) < first[i],
        forall|i: int| 0 <= i < second.len() ==> least(second) <= second[i],
{
    lemma_least(first);
    lemma_least(second);
    let k = choose|k: int| 0 <= k < second.len() && second[k] == least(second);
    assert(second[k] < least(first));
}

/// A listing that resumes above an id moves strictly up: where the server answers
/// `After(id)` with records above `id` only, the cursor after that page is `After` an id
/// that is above `id`, and not below any record of the page.
pub proof fn lemma_after_moves_up(id: u64, first: Seq<u64>, second: Seq<u64>)
    requires
        first.len() > 0,
        second.len() > 0,
        forall|i: int| 0 <= i < second.len() ==> second[i] > greatest(first),
    ensures
        following(false, Some(Cursor::After(id)), first) == Ok::<Cursor, Error>(
            Cursor::After(greatest(first)),
        ),
        following(false, Some(Cursor::After(greatest(first))), second) == Ok::<Cursor, Error>(
            Cursor::After(greatest(second)),
        ),
        greatest(second) > greatest(first),
        forall|i: int| 0 <= i < first.len() ==> greatest(second) > first[i],
        forall|i: int| 0 <= i < second.len() ==> greatest(second) >= second[i],
{
    lemma_greatest(first);
    lemma_greatest(second);
    let k = choose|k: int| 0 <= k < second.len() && second[k] == greatest(second);
    assert(second[k] > greatest(first));
}

/// Whether a byte may stand in the value of a header: none of the control characters
/// but the tabulator.
pub open spec fn is_header_value_byte(b: u8) -> bool {
    b >= 32 && b != 127 || b == 9
}

/// Whether every byte of `bytes` may stand in the value of a header.
pub open spec fn is_header_value(bytes: Seq<u8>) -> bool {
    forall|i: int| 0 <= i < bytes.len() ==> is_header_value_byte(#[trigger] bytes[i])
}

/// `reqwest::header::HeaderValue::from_bytes`, for what it refuses. It accepts the bytes
/// if each of them is 32 or above and not 127, or is the tabulator; else it fails, and
/// the text of its error is always the same.
#[verifier::external_body]
fn header_value_error(bytes: &[u8]) -> (error: Option<String>)
    ensures
        error is None <==> is_header_value(bytes@),
        error matches Some(text) ==> text@ == "failed to parse header value"@,
{
    reqwest::header::HeaderValue::from_bytes(bytes).err().map(|e| format!("{}", e))
}

/// The headers that go with every request: the user agent, which the server demands.
/// An empty user agent is refused, and so is one that no header can hold.
pub fn create_header_map(user_agent: &[u8]) -> (headers: Result<Vec<(String, Vec<u8>)>, Error>)
    ensures
        match headers {
            Ok(headers) => {
                &&& user_agent@.len() > 0
                &&& is_header_value(user_agent@)
                &&& headers@.len() == 1
                &&& headers@[0].0@ == "user-agent"@
                &&& headers@[0].1@ == user_agent@
            },
            Err(Error::CannotCreateClient(text)) => {
                &&& user_agent@.len() == 0
                &&& text@ == "User Agent mustn't be empty"@
            },
            Err(Error::InvalidHeaderValue(text)) => {
                &&& user_agent@.len() > 0
                &&& !is_header_value(user_agent@)
                &&& text@ == "failed to parse header value"@
            },
            Err(_) => false,
        },
{
    if user_agent.len() == 0 {
        Err(Error::CannotCreateClient(String::from_str("User Agent mustn't be empty")))
    } else {
        match header_value_error(user_agent) {
            Some(text) => Err(Error::InvalidHeaderValue(text)),
            None => {
                let mut headers: Vec<(String, Vec<u8>)> = Vec::new();
                headers.push((String::from_str("user-agent"), vstd::slice::slice_to_vec(user_agent)));
                Ok(headers)
            },
        }
    }
}

/// The query parameters that go with every request besides the login: none, as the
/// user agent travels in a header.
pub fn create_extra_query(_user_agent: &[u8]) -> (query: Result<Vec<(String, String)>, Error>)
    ensures
        query matches Ok(pairs) && pairs@.len() == 0,
{
    Ok(Vec::new())
}

/// Whether a status says that the request succeeded: 200 to 299.
pub open spec fn is_success(status: u16) -> bool {
    200 <= status < 300
}

/// What is known of a status that says that the request failed, for the statuses that
/// the server documents.
pub open spec fn known_reason(status: u16) -> Option<Seq<char>> {
    if status == 403 {
        Some("Forbidden; access denied"@)
    } else if status == 404 {
        Some("Not found"@)
    } else if status == 412 {
        Some("Precondition failed"@)
    } else if status == 420 {
        Some("Invalid record; record could not be saved"@)
    } else if status == 421 {
        Some("User throttled; try again later"@)
    } else if status == 422 {
        Some("Locked; the resource is locked and cannot be modified"@)
    } else if status == 423 {
        Some("Already exists; resource already exists"@)
    } else if status == 424 {
        Some("Invalid parameters; the given parameters were invalid"@)
    } else if status == 500 {
        Some("Internal server error; some unknown error occurred on the server"@)
    } else if status == 502 {
        Some("Bad gateway; a gateway server received an invalid response from the server"@)
    } else if status == 503 {
        Some(
            "Service unavailable; the server cannot handle the request now, or the rate limit was exceeded"@,
        )
    } else if status == 520 {
        Some("Unknown error; unexpected server response which violates protocol"@)
    } else if status == 522 {
        Some("Origin connection time-out; the attempt to connect to the server timed out"@)
    } else if status == 524 {
        Some("Origin connection time-out; the server did not answer in time"@)
    } else if status == 525 {
        Some("SSL handshake failed"@)
    } else {
        None
    }
}

/// What is known of a status that says that the request failed.
pub fn status_reason(status: u16) -> (reason: Option<&'static str>)
    ensures
        match reason {
            Some(text) => known_reason(status) == Some(text@),
            None => known_reason(status) is None,
        },
{
    match status {
        403 => Some("Forbidden; access denied"),
        404 => Some("Not found"),
        412 => Some("Precondition failed"),
        420 => Some("Invalid record; record could not be saved"),
        421 => Some("User throttled; try again later"),
        422 => Some("Locked; the resource is locked and cannot be modified"),
        423 => Some("Already exists; resource already exists"),
        424 => Some("Invalid parameters; the given parameters were invalid"),
        500 => Some("Internal server error; some unknown error occurred on the server"),
        502 => Some("Bad gateway; a gateway server received an invalid response from the server"),
        503 => Some(
            "Service unavailable; the server cannot handle the request now, or the rate limit was exceeded",
        ),
        520 => Some("Unknown error; unexpected server response which violates protocol"),
        522 => Some("Origin connection time-out; the attempt to connect to the server timed out"),
        524 => Some("Origin connection time-out; the server did not answer in time"),
        525 => Some("SSL handshake failed"),
        _ => None,
    }
}

/// The string that a JSON text holds under `key`: `Some` where the bytes are a JSON
/// object whose member `key` is a string, `None` for every other body.
pub uninterp spec fn json_string_member(body: Seq<u8>, key: Seq<char>) -> Option<Seq<char>>;

/// `serde_json::from_slice` into a `serde_json::Value`, then the value's index by a key
/// and `as_str`. A body that is no JSON gives `None`, and so does a value that is no
/// object, has no such member, or holds something else than a string there.
#[verifier::external_body]
fn json_string_field(body: &[u8], key: &str) -> (member: Option<String>)
    ensures
        match member {
            Some(text) => json_string_member(body@, key@) == Some(text@),
            None => json_string_member(body@, key@) is None,
        },
{
    match serde_json::from_slice::<serde_json::Value>(body) {
        Ok(value) => value[key].as_str().map(ToString::to_string),
        Err(_) => None,
    }
}

/// Whether `error` is what an answer with the given status means, given the reason that
/// its body names, if it names one: the reason is the body's, else the one known of the
/// status, else none.
pub open spec fn is_http_error(
    error: Error,
    url: Seq<char>,
    status: u16,
    named: Option<Seq<char>>,
) -> bool {
    &&& error matches Error::Http { url: asked, code, reason }
    &&& asked@ == url
    &&& code == status
    &&& match reason {
        Some(text) => Some(text@) == (if named is Some {
            named
        } else {
            known_reason(status)
        }),
        None => named is None && known_reason(status) is None,
    }
}

/// The error that an answer with a failing status means. `named` is the reason that the
/// answer's body names.
pub fn http_error(url: &str, status: u16, named: Option<String>) -> (error: Error)
    ensures
        is_http_error(
            error,
            url@,
            status,
            match named {
                Some(text) => Some(text@),
                None => None,
            },
        ),
{
    let reason = match named {
        Some(text) => Some(text),
        None => match status_reason(status) {
            Some(text) => Some(String::from_str(text)),
            None => None,
        },
    };
    Error::Http { url: String::from_str(url), code: status, reason }
}

/// Reads the status of an answer: 200 to 299 is success, and anything else the error
/// that names the URL, the status, and the reason, which is the string under `reason`
/// in the body where the body is a JSON object that has one.
pub fn check_status(url: &str, status: u16, body: &[u8]) -> (r: Result<(), Error>)
    ensures
        match r {
            Ok(_) => is_success(status),
            Err(error) => !is_success(status) && is_http_error(
                error,
                url@,
                status,
                json_string_member(body@, "reason"@),
            ),
        },
{
    if status >= 200 && status < 300 {
        Ok(())
    } else {
        Err(http_error(url, status, json_string_field(body, "reason")))
    }
}

/// The most bytes that a URL, and that the keys and values of its query together, may
/// have for the library to put them together.
pub const MAX_URL_BYTES: usize = 0x0100_0000;

/// The URL that a text writes, as `url` writes it out again; `None` where the text is
/// no absolute URL.
pub uninterp spec fn parsed_url(text: Seq<char>) -> Option<Seq<char>>;

/// The URL that a reference means under a base URL, written out; `None` where the base
/// is no absolute URL or the reference cannot be read under it.
pub uninterp spec fn joined_url(base: Seq<char>, reference: Seq<char>) -> Option<Seq<char>>;

/// A URL with parameters added at the end of its query, written out; `None` where the
/// text is no absolute URL.
pub uninterp spec fn url_with_pairs(url: Seq<char>, pairs: Seq<(Seq<char>, Seq<char>)>) -> Option<
    Seq<char>,
>;

/// `url::Url::parse`, and the URL as a `String`. That is the URL's serialization, which
/// depends on the text alone.
#[verifier::external_body]
fn parse_url(text: &str) -> (url: Result<String, url::ParseError>)
    ensures
        match url {
            Ok(url) => parsed_url(text@) == Some(url@),
            Err(_) => parsed_url(text@) is None,
        },
{
    url::Url::parse(text).map(String::from)
}

/// `url::Url::parse` of the base, `Url::join` of the reference under it, and the URL as
/// a `String`. The result depends on the two texts alone.
#[verifier::external_body]
fn join_url(base: &str, reference: &str) -> (url: Result<String, url::ParseError>)
    ensures
        match url {
            Ok(url) => joined_url(base@, reference@) == Some(url@),
            Err(_) => joined_url(base@, reference@) is None,
        },
{
    match url::Url::parse(base) {
        Ok(base) => base.join(reference).map(String::from),
        Err(e) => Err(e),
    }
}

/// `url::Url::parse`, then `Url::query_pairs_mut` and `Serializer::extend_pairs`, and
/// the URL as a `String`. The result depends on the text and the pairs alone. `url`
/// counts the bytes of a URL in 32 bits and panics where a count does not fit, which
/// the bounds keep far away.
#[verifier::external_body]
fn extend_url(url: &str, pairs: &Vec<(String, String)>) -> (extended: Result<String, url::ParseError>)
    requires
        encode_utf8(url@).len() <= MAX_URL_BYTES,
        query_bytes(pair_texts(pairs@)) <= MAX_URL_BYTES,
    ensures
        match extended {
            Ok(extended) => url_with_pairs(url@, pair_texts(pairs@)) == Some(extended@),
            Err(_) => url_with_pairs(url@, pair_texts(pairs@)) is None,
        },
{
    let mut url = url::Url::parse(url)?;
    url.query_pairs_mut().extend_pairs(pairs);
    Ok(url.into())
}

/// How many bytes the keys and values of `pairs` have together, and two more for each
/// pair.
pub open spec fn query_bytes(pairs: Seq<(Seq<char>, Seq<char>)>) -> nat
    decreases pairs.len(),
{
    if pairs.len() == 0 {
        0
    } else {
        query_bytes(pairs.drop_last()) + encode_utf8(pairs.last().0).len() + encode_utf8(
            pairs.last().1,
        ).len() + 2
    }
}

proof fn lemma_query_bytes_grow(pairs: Seq<(Seq<char>, Seq<char>)>, i: int)
    requires
        0 <= i <= pairs.len(),
    ensures
        query_bytes(pairs.take(i)) <= query_bytes(pairs),
    decreases pairs.len(),
{
    if i < pairs.len() {
        lemma_query_bytes_grow(pairs.drop_last(), i);
        assert(pairs.drop_last().take(i) =~= pairs.take(i));
    } else {
        assert(pairs.take(i) =~= pairs);
    }
}

fn query_fits(pairs: &Vec<(String, String)>) -> (fits: bool)
    ensures
        fits == (query_bytes(pair_texts(pairs@)) <= MAX_URL_BYTES),
{
    let ghost all = pair_texts(pairs@);
    let mut total: usize = 0;
    let mut i: usize = 0;
    assert(all.take(0) =~= Seq::empty());
    while i < pairs.len()
        invariant
            i <= pairs.len(),
            all == pair_texts(pairs@),
            total == query_bytes(all.take(i as int)),
            total <= MAX_URL_BYTES,
        decreases pairs.len() - i,
    {
        let key = pairs[i].0.as_str().as_bytes().len();
        let value = pairs[i].1.as_str().as_bytes().len();
        proof {
            assert(all.take(i + 1).drop_last() =~= all.take(i as int));
            assert(all.take(i + 1).last() == (pairs[i as int].0@, pairs[i as int].1@));
            lemma_query_bytes_grow(all, i + 1);
        }
        if key > MAX_URL_BYTES || value > MAX_URL_BYTES || key + value + 2 > MAX_URL_BYTES - total {
            return false;
        }
        total = total + key + value + 2;
        i = i + 1;
    }
    assert(all.take(i as int) =~= all);
    true
}

fn push_pair(pairs: &mut Vec<(String, String)>, key: &str, value: &str)
    ensures
        pair_texts(final(pairs)@) == pair_texts(old(pairs)@).push((key@, value@)),
{
    pairs.push((String::from_str(key), String::from_str(value)));
    assert(pair_texts(pairs@) =~= pair_texts(old(pairs)@).push((key@, value@)));
}

/// What a client knows of its server and of itself, as the contracts see it.
pub struct ClientView {
    /// The URL of the server.
    pub url: Seq<char>,
    /// The user agent that every request carries.
    pub user_agent: Seq<u8>,
    /// The parameters that every request carries besides the login.
    pub extra_query: Seq<(Seq<char>, Seq<char>)>,
    /// The name and the API key of the user, while one is logged in.
    pub login: Option<(Seq<char>, Seq<char>)>,
}

impl ClientView {
    /// The parameters that every request carries: the login and the API key while a
    /// user is logged in, then the extra ones.
    pub open spec fn query_pairs(self) -> Seq<(Seq<char>, Seq<char>)> {
        (match self.login {
            Some((login, api_key)) => seq![("login"@, login), ("api_key"@, api_key)],
            None => Seq::empty(),
        }) + self.extra_query
    }

    /// What the URL of an endpoint is: the endpoint read under the URL of the server,
    /// with the parameters that every request carries added to its query. `None` where
    /// the endpoint cannot be read, or where the parameters are too long to be added.
    pub open spec fn endpoint_url(self, endpoint: Seq<char>) -> Option<Seq<char>> {
        match joined_url(self.url, endpoint) {
            None => None,
            Some(url) => if self.query_pairs().len() == 0 {
                Some(url)
            } else if encode_utf8(url).len() > MAX_URL_BYTES || query_bytes(self.query_pairs())
                > MAX_URL_BYTES {
                None
            } else {
                url_with_pairs(url, self.query_pairs())
            },
        }
    }
}

/// What a client knows of its server and of itself: where the server is, what to send
/// with every request, and who is logged in. It sends nothing itself.
#[derive(Debug)]
pub struct Client {
    url: String,
    headers: Vec<(String, Vec<u8>)>,
    user_agent: Vec<u8>,
    extra_query: Vec<(String, String)>,
    login: Option<(String, String)>,
}

impl View for Client {
    type V = ClientView;

    closed spec fn view(&self) -> ClientView {
        ClientView {
            url: self.url@,
            user_agent: self.user_agent@,
            extra_query: pair_texts(self.extra_query@),
            login: match self.login {
                Some((login, api_key)) => Some((login@, api_key@)),
                None => None,
            },
        }
    }
}

impl Client {
    /// Whether the headers are the one that names the user agent.
    pub closed spec fn wf(&self) -> bool {
        &&& self.headers@.len() == 1
        &&& self.headers@[0].0@ == "user-agent"@
        &&& self.headers@[0].1@ == self.user_agent@
        &&& self.user_agent@.len() > 0
        &&& is_header_value(self.user_agent@)
    }

    /// Create a new client with the specified value for the User-Agent header. The API requires a
    /// non-empty User-Agent header for all requests, preferably including your E621 username and
    /// the name of your project.
    ///
    /// The URL of the server is looked at first, then the user agent. Nobody is logged
    /// in.
    pub fn new(url: &str, user_agent: &[u8]) -> (client: Result<Self, Error>)
        ensures
            match client {
                Ok(client) => {
                    &&& client.wf()
                    &&& parsed_url(url@) == Some(client@.url)
                    &&& client@.user_agent == user_agent@
                    &&& client@.extra_query.len() == 0
                    &&& client@.login is None
                    &&& user_agent@.len() > 0
                    &&& is_header_value(user_agent@)
                },
                Err(Error::UrlParse(_)) => parsed_url(url@) is None,
                Err(Error::CannotCreateClient(text)) => {
                    &&& parsed_url(url@) is Some
                    &&& user_agent@.len() == 0
                    &&& text@ == "User Agent mustn't be empty"@
                },
                Err(Error::InvalidHeaderValue(text)) => {
                    &&& parsed_url(url@) is Some
                    &&& user_agent@.len() > 0
                    &&& !is_header_value(user_agent@)
                    &&& text@ == "failed to parse header value"@
                },
                Err(_) => false,
            },
    {
        let url = match parse_url(url) {
            Ok(url) => url,
            Err(e) => {
                return Err(Error::UrlParse(e));
            },
        };
        let headers = match create_header_map(user_agent) {
            Ok(headers) => headers,
            Err(e) => {
                return Err(e);
            },
        };
        let extra_query = match create_extra_query(user_agent) {
            Ok(extra_query) => extra_query,
            Err(e) => {
                return Err(e);
            },
        };
        assert(pair_texts(extra_query@) =~= Seq::empty());
        Ok(
            Client {
                url,
                headers,
                user_agent: vstd::slice::slice_to_vec(user_agent),
                extra_query,
                login: None,
            },
        )
    }

    /// Login to the server with the provided username and API key. All subsequent requests will be
    /// sent with the given credentials.
    pub fn login(&mut self, username: String, api_key: String)
        ensures
            final(self)@ == (ClientView { login: Some((username@, api_key@)), ..old(self)@ }),
            final(self).wf() == old(self).wf(),
    {
        self.login = Some((username, api_key));
    }

    /// Remove any login information previously set with [Client::login].
    pub fn logout(&mut self)
        ensures
            final(self)@ == (ClientView { login: None, ..old(self)@ }),
            final(self).wf() == old(self).wf(),
    {
        self.login = None;
    }

    /// The URL of the server.
    pub fn base_url(&self) -> (url: &str)
        ensures
            url@ == self@.url,
    {
        self.url.as_str()
    }

    /// The headers that go with every request, as names and values.
    pub fn headers(&self) -> (headers: &Vec<(String, Vec<u8>)>)
        ensures
            self.wf() ==> {
                &&& headers@.len() == 1
                &&& headers@[0].0@ == "user-agent"@
                &&& headers@[0].1@ == self@.user_agent
            },
    {
        &self.headers
    }

    /// The name and the API key of the user, while one is logged in.
    pub fn credentials(&self) -> (login: Option<(&str, &str)>)
        ensures
            match login {
                Some((name, api_key)) => self@.login == Some((name@, api_key@)),
                None => self@.login is None,
            },
    {
        match &self.login {
            Some((name, api_key)) => Some((name.as_str(), api_key.as_str())),
            None => None,
        }
    }

    /// The parameters that every request carries: the login and the API key while a
    /// user is logged in, then the extra ones.
    pub fn query_pairs(&self) -> (pairs: Vec<(String, String)>)
        ensures
            pair_texts(pairs@) == self@.query_pairs(),
    {
        let mut pairs: Vec<(String, String)> = Vec::new();
        assert(pair_texts(pairs@) =~= Seq::empty());
        match &self.login {
            Some((login, api_key)) => {
                push_pair(&mut pairs, "login", login.as_str());
                push_pair(&mut pairs, "api_key", api_key.as_str());
            },
            None => {},
        }
        let ghost front = pair_texts(pairs@);
        assert(front =~= match self@.login {
            Some((login, api_key)) => seq![("login"@, login), ("api_key"@, api_key)],
            None => Seq::empty(),
        });
        let mut i: usize = 0;
        assert(pair_texts(pairs@) =~= front + pair_texts(self.extra_query@).take(0));
        while i < self.extra_query.len()
            invariant
                i <= self.extra_query.len(),
                pair_texts(pairs@) == front + pair_texts(self.extra_query@).take(i as int),
            decreases self.extra_query.len() - i,
        {
            push_pair(&mut pairs, self.extra_query[i].0.as_str(), self.extra_query[i].1.as_str());
            assert(pair_texts(pairs@) =~= front + pair_texts(self.extra_query@).take(i + 1));
            i = i + 1;
        }
        assert(pair_texts(self.extra_query@).take(i as int) =~= pair_texts(self.extra_query@));
        pairs
    }

    /// The URL of an endpoint: the endpoint under the URL of the server, with the
    /// parameters that every request carries. Parameters that are too long to be added
    /// are refused.
    pub fn url(&self, endpoint: &str) -> (url: Result<String, Error>)
        ensures
            match url {
                Ok(url) => self@.endpoint_url(endpoint@) == Some(url@),
                Err(Error::UrlParse(_)) => {
                    &&& self@.endpoint_url(endpoint@) is None
                    &&& joined_url(self@.url, endpoint@) matches Some(joined) ==> {
                        &&& self@.query_pairs().len() > 0
                        &&& encode_utf8(joined).len() <= MAX_URL_BYTES
                        &&& query_bytes(self@.query_pairs()) <= MAX_URL_BYTES
                    }
                },
                Err(Error::LimitExceeded) => {
                    &&& self@.endpoint_url(endpoint@) is None
                    &&& self@.query_pairs().len() > 0
                    &&& joined_url(self@.url, endpoint@) matches Some(joined) && (encode_utf8(
                        joined,
                    ).len() > MAX_URL_BYTES || query_bytes(self@.query_pairs()) > MAX_URL_BYTES)
                },
                Err(_) => false,
            },
    {
        let url = match join_url(self.url.as_str(), endpoint) {
            Ok(url) => url,
            Err(e) => {
                return Err(Error::UrlParse(e));
            },
        };
        let pairs = self.query_pairs();
        assert(pairs@.len() == pair_texts(pairs@).len());
        if pairs.len() == 0 {
            Ok(url)
        } else if url.as_str().as_bytes().len() > MAX_URL_BYTES || !query_fits(&pairs) {
            Err(Error::LimitExceeded)
        } else {
            match extend_url(url.as_str(), &pairs) {
                Ok(url) => Ok(url),
                Err(e) => Err(Error::UrlParse(e)),
            }
        }
    }
}

impl std::str::FromStr for Cursor {
    type Err = ParseIntError;

    fn from_str(s: &str) -> (r: Result<Self, Self::Err>)
        ensures
            r == Cursor::parsed(s@),
    {
        Cursor::from_str(s)
    }
}

} // verus!
