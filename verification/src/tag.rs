//! Tags, and the search for them.

use crate::client::{greatest, id_bounds, least, Cursor};
use crate::error::Error;
use crate::stream::{answer_view, oks, records_of, Chunk, ChunkView, Phase, Pull, Step, StepView};
use crate::text::{
    decimal, form_query, form_query_string, join_strings, joined, lemma_parse_decimal, pair_texts,
    parse_u8, parsed_u8, u64_to_string, ParseIntError,
};
use vstd::prelude::*;

verus! {

/// Kind of property a [`Tag`] describes.
#[derive(Debug, PartialEq, Eq, Clone, Copy, Structural)]
pub enum Category {
    General,
    Artist,
    Copyright,
    Character,
    Species,
    Invalid,
    Meta,
    Lore,
}

/// Why a text does not name a category.
#[derive(Debug, PartialEq, Eq, Clone, Copy, Structural)]
pub enum ParseCategoryError {
    /// The text is not a number below 256.
    ParseInt(ParseIntError),
    /// No category has this number.
    Unknown(u8),
}

impl Category {
    /// The number that the server knows the category by.
    pub open spec fn number(self) -> u8 {
        match self {
            Category::General => 0,
            Category::Artist => 1,
            Category::Copyright => 3,
            Category::Character => 4,
            Category::Species => 5,
            Category::Invalid => 6,
            Category::Meta => 7,
            Category::Lore => 8,
        }
    }

    /// The category with the given number, if there is one.
    pub open spec fn numbered(number: u8) -> Option<Category> {
        if number == 0 {
            Some(Category::General)
        } else if number == 1 {
            Some(Category::Artist)
        } else if number == 3 {
            Some(Category::Copyright)
        } else if number == 4 {
            Some(Category::Character)
        } else if number == 5 {
            Some(Category::Species)
        } else if number == 6 {
            Some(Category::Invalid)
        } else if number == 7 {
            Some(Category::Meta)
        } else if number == 8 {
            Some(Category::Lore)
        } else {
            None
        }
    }

    /// The category that a text names: the text is read as a number below 256, and the
    /// number has to be that of a category.
    pub open spec fn parsed(s: Seq<char>) -> Result<Category, ParseCategoryError> {
        match parsed_u8(s) {
            Err(e) => Err(ParseCategoryError::ParseInt(e)),
            Ok(number) => match Category::numbered(number) {
                Some(category) => Ok(category),
                None => Err(ParseCategoryError::Unknown(number)),
            },
        }
    }

    /// The number that the server knows the category by.
    pub fn as_u8(self) -> (number: u8)
        ensures
            number == self.number(),
    {
        match self {
            Category::General => 0,
            Category::Artist => 1,
            Category::Copyright => 3,
            Category::Character => 4,
            Category::Species => 5,
            Category::Invalid => 6,
            Category::Meta => 7,
            Category::Lore => 8,
        }
    }

    /// Reads a category from its number.
    pub fn from_str(s: &str) -> (r: Result<Category, ParseCategoryError>)
        ensures
            r == Category::parsed(s@),
    {
        let num: u8 = match parse_u8(s) {
            Ok(num) => num,
            Err(e) => {
                return Err(ParseCategoryError::ParseInt(e));
            },
        };
        let result = match num {
            0 => Category::General,
            1 => Category::Artist,
            3 => Category::Copyright,
            4 => Category::Character,
            5 => Category::Species,
            6 => Category::Invalid,
            7 => Category::Meta,
            8 => Category::Lore,
            _ => {
                return Err(ParseCategoryError::Unknown(num));
            },
        };
        Ok(result)
    }

    /// Writes the category as its number.
    pub fn to_string(&self) -> (s: String)
        ensures
            s@ == decimal(self.number() as nat),
    {
        u64_to_string(self.as_u8() as u64)
    }

    /// A category is read back from what it is written as.
    pub proof fn lemma_round_trip(self)
        ensures
            Category::parsed(decimal(self.number() as nat)) == Ok::<Category, ParseCategoryError>(
                self,
            ),
            Category::numbered(self.number()) == Some(self),
    {
        lemma_parse_decimal(self.number() as u64, 255);
    }
}

impl std::str::FromStr for Category {
    type Err = ParseCategoryError;

    fn from_str(s: &str) -> (r: Result<Self, Self::Err>)
        ensures
            r == Category::parsed(s@),
    {
        Category::from_str(s)
    }
}

/// How to sort results of a [`Query`].
#[derive(Debug, PartialEq, Eq, Clone, Copy, Structural)]
pub enum Order {
    /// By id, smallest first.
    IdAsc,
    /// By id, largest first.
    IdDsc,
    /// By name, in alphabetical order.
    Name,
    /// By id, largest first.
    Date,
    /// By post count, largest first.
    Count,
    /// By similarity to query, when doing a fuzzy search, with most similar first.
    Similarity,
}

impl Order {
    /// The name of the order in a request.
    pub open spec fn text(self) -> Seq<char> {
        match self {
            Order::IdAsc => "id_asc"@,
            Order::IdDsc => "id_dsc"@,
            Order::Name => "name"@,
            Order::Date => "date"@,
            Order::Count => "count"@,
            Order::Similarity => "similarity"@,
        }
    }

    /// The name of the order in a request.
    pub fn as_str(self) -> (name: &'static str)
        ensures
            name@ == self.text(),
    {
        match self {
            Order::IdAsc => "id_asc",
            Order::IdDsc => "id_dsc",
            Order::Name => "name",
            Order::Date => "date",
            Order::Count => "count",
            Order::Similarity => "similarity",
        }
    }
}

/// Tags are keywords used to describe a post. Its times are in UTC.
#[derive(Debug, PartialEq, Eq, Clone)]
pub struct Tag {
    pub id: u64,
    pub name: String,
    pub post_count: u64,
    pub related_tags: String,
    pub related_tags_updated_at: Option<chrono::NaiveDateTime>,
    pub category: Category,
    pub is_locked: bool,
    pub created_at: chrono::NaiveDateTime,
    pub updated_at: chrono::NaiveDateTime,
}

/// The ids of `tags`, one for one.
pub open spec fn ids_of(tags: Seq<Tag>) -> Seq<u64> {
    Seq::new(tags.len(), |i: int| tags[i].id)
}

/// Collects the ids of `tags`.
pub fn tag_ids(tags: &Vec<Tag>) -> (ids: Vec<u64>)
    ensures
        ids@ == ids_of(tags@),
{
    let mut ids: Vec<u64> = Vec::new();
    let mut i: usize = 0;
    while i < tags.len()
        invariant
            i <= tags.len(),
            ids.len() == i,
            forall|j: int| 0 <= j < i ==> ids[j] == tags[j].id,
        decreases tags.len() - i,
    {
        ids.push(tags[i].id);
        i = i + 1;
    }
    assert(ids@ =~= ids_of(tags@));
    ids
}

/// The most tags that one page can hold.
pub const MAX_PER_PAGE: u16 = 320;

/// A search query returning [`Tag`] instances, as the contracts see it.
pub struct QueryView {
    pub per_page: Option<u16>,
    pub page: Option<Cursor>,
    pub id: Option<u64>,
    pub order: Option<Order>,
    pub fuzzy_name_matches: Option<Seq<char>>,
    pub name_matches: Option<Seq<char>>,
    pub name: Seq<Seq<char>>,
    pub category: Seq<Category>,
    pub hide_empty: bool,
    pub has_wiki: bool,
    pub has_artist: bool,
}

/// One parameter of a query, or none where no value is set.
pub open spec fn pair(key: Seq<char>, value: Option<Seq<char>>) -> Seq<(Seq<char>, Seq<char>)> {
    match value {
        Some(value) => seq![(key, value)],
        None => Seq::empty(),
    }
}

/// The parameter for a list of values, separated by commas, or none where the list is
/// empty.
pub open spec fn list(key: Seq<char>, items: Seq<Seq<char>>) -> Seq<(Seq<char>, Seq<char>)> {
    if items.len() == 0 {
        Seq::empty()
    } else {
        seq![(key, joined(items, ","@))]
    }
}

/// The parameter for a condition that is made or not: `true` where it is made, else
/// none.
pub open spec fn flag(key: Seq<char>, set: bool) -> Seq<(Seq<char>, Seq<char>)> {
    if set {
        seq![(key, "true"@)]
    } else {
        Seq::empty()
    }
}

/// The numbers of `categories`, written in decimal, one for one.
pub open spec fn category_numbers(categories: Seq<Category>) -> Seq<Seq<char>> {
    Seq::new(categories.len(), |i: int| decimal(categories[i].number() as nat))
}

/// A text, if there is one.
pub open spec fn text_of(value: Option<String>) -> Option<Seq<char>> {
    match value {
        Some(value) => Some(value@),
        None => None,
    }
}

impl QueryView {
    /// The query that asks for everything, in the server's default order.
    pub open spec fn empty() -> Self {
        QueryView {
            per_page: None,
            page: None,
            id: None,
            order: None,
            fuzzy_name_matches: None,
            name_matches: None,
            name: Seq::empty(),
            category: Seq::empty(),
            hide_empty: false,
            has_wiki: false,
            has_artist: false,
        }
    }

    /// The parameters of the request for the page that the query stands at: one for
    /// each value that is set, in a fixed order.
    pub open spec fn pairs(self) -> Seq<(Seq<char>, Seq<char>)> {
        pair(
            "limit"@,
            match self.per_page {
                Some(n) => Some(decimal(n as nat)),
                None => None,
            },
        ) + pair(
            "page"@,
            match self.page {
                Some(cursor) => Some(cursor.text()),
                None => None,
            },
        ) + pair(
            "search[id]"@,
            match self.id {
                Some(id) => Some(decimal(id as nat)),
                None => None,
            },
        ) + pair(
            "search[order]"@,
            match self.order {
                Some(order) => Some(order.text()),
                None => None,
            },
        ) + pair("search[fuzzy_name_matches]"@, self.fuzzy_name_matches) + pair(
            "search[name_matches]"@,
            self.name_matches,
        ) + list("search[name]"@, self.name) + list(
            "search[category]"@,
            category_numbers(self.category),
        ) + flag("search[hide_empty]"@, self.hide_empty) + flag("search[has_wiki]"@, self.has_wiki)
            + flag("search[has_artist]"@, self.has_artist)
    }

    /// The request for the page that the query stands at.
    pub open spec fn request(self) -> Seq<char> {
        if self.pairs().len() == 0 {
            "/tags.json"@
        } else {
            "/tags.json?"@ + form_query(self.pairs())
        }
    }

    /// Where the listing goes on after a page that held the tags with the given ids.
    /// A listing that stands at a page number goes on with the next number, and there
    /// is none after the last. One that stands below or above a tag goes on below the
    /// least or above the greatest id that came. One that names no page goes on as its
    /// order tells: by page number from 2, but below the least id where the order is
    /// the default or by falling id, and above the greatest where it is by rising id.
    pub open spec fn following(self, ids: Seq<u64>) -> Result<Cursor, Error> {
        match self.page {
            Some(Cursor::Before(_)) => Ok(Cursor::Before(least(ids))),
            Some(Cursor::After(_)) => Ok(Cursor::After(greatest(ids))),
            Some(Cursor::Page(p)) => if p < u64::MAX {
                Ok(Cursor::Page((p + 1) as u64))
            } else {
                Err(Error::LimitExceeded)
            },
            None => match self.order {
                None | Some(Order::IdDsc) | Some(Order::Date) => Ok(Cursor::Before(least(ids))),
                Some(Order::IdAsc) => Ok(Cursor::After(greatest(ids))),
                _ => Ok(Cursor::Page(2)),
            },
        }
    }
}

/// A search query returning [`Tag`] instances.
#[derive(Debug, PartialEq, Eq, Clone)]
pub struct Query {
    per_page: Option<u16>,
    page: Option<Cursor>,
    id: Option<u64>,
    order: Option<Order>,
    fuzzy_name_matches: Option<String>,
    name_matches: Option<String>,
    name: Vec<String>,
    category: Vec<Category>,
    hide_empty: bool,
    has_wiki: bool,
    has_artist: bool,
}

impl View for Query {
    type V = QueryView;

    closed spec fn view(&self) -> QueryView {
        QueryView {
            per_page: self.per_page,
            page: self.page,
            id: self.id,
            order: self.order,
            fuzzy_name_matches: text_of(self.fuzzy_name_matches),
            name_matches: text_of(self.name_matches),
            name: self.name.deep_view(),
            category: self.category@,
            hide_empty: self.hide_empty,
            has_wiki: self.has_wiki,
            has_artist: self.has_artist,
        }
    }
}

fn owned(value: Option<&str>) -> (text: Option<String>)
    ensures
        text_of(text) == (match value {
            Some(value) => Some(value@),
            None => None,
        }),
{
    match value {
        Some(value) => Some(String::from_str(value)),
        None => None,
    }
}

fn copy_of(value: &Option<String>) -> (copy: Option<String>)
    ensures
        text_of(copy) == text_of(*value),
{
    match value {
        Some(value) => Some(value.clone()),
        None => None,
    }
}

fn push_pair(pairs: &mut Vec<(String, String)>, key: &str, value: String)
    ensures
        pair_texts(final(pairs)@) == pair_texts(old(pairs)@) + seq![(key@, value@)],
{
    pairs.push((String::from_str(key), value));
    assert(pair_texts(pairs@) =~= pair_texts(old(pairs)@) + seq![(key@, value@)]);
}

fn push_optional(pairs: &mut Vec<(String, String)>, key: &str, value: Option<String>)
    ensures
        pair_texts(final(pairs)@) == pair_texts(old(pairs)@) + pair(key@, text_of(value)),
{
    match value {
        Some(value) => {
            push_pair(pairs, key, value);
        },
        None => {
            assert(pair_texts(pairs@) =~= pair_texts(pairs@) + pair(key@, text_of(value)));
        },
    }
}

fn push_list(pairs: &mut Vec<(String, String)>, key: &str, items: &Vec<String>)
    ensures
        pair_texts(final(pairs)@) == pair_texts(old(pairs)@) + list(key@, items.deep_view()),
{
    assert(items.deep_view().len() == items.len());
    if items.len() > 0 {
        push_pair(pairs, key, join_strings(items, ","));
    } else {
        assert(pair_texts(pairs@) =~= pair_texts(pairs@) + list(key@, items.deep_view()));
    }
}

fn push_flag(pairs: &mut Vec<(String, String)>, key: &str, set: bool)
    ensures
        pair_texts(final(pairs)@) == pair_texts(old(pairs)@) + flag(key@, set),
{
    if set {
        push_pair(pairs, key, String::from_str("true"));
    } else {
        assert(pair_texts(pairs@) =~= pair_texts(pairs@) + flag(key@, set));
    }
}

impl Query {
    /// Create a new instance of `Query` with the default values.
    pub fn new() -> (query: Self)
        ensures
            query@ == QueryView::empty(),
    {
        let query = Query {
            per_page: None,
            page: None,
            id: None,
            order: None,
            fuzzy_name_matches: None,
            name_matches: None,
            name: Vec::new(),
            category: Vec::new(),
            hide_empty: false,
            has_wiki: false,
            has_artist: false,
        };
        assert(query.name.deep_view() =~= Seq::<Seq<char>>::empty());
        query
    }

    /// Set the number of items to retrieve at a time. Equivalent to the `limit` query parameter.
    pub fn per_page(self, per_page: Option<u16>) -> (query: Self)
        ensures
            query@ == (QueryView { per_page, ..self@ }),
    {
        Query { per_page, ..self }
    }

    /// Set the page/offset to start retrieving tags from.
    ///
    /// **Note:** Setting either [`Cursor::Before`] or [`Cursor::After`] will clear any previously
    /// set ordering ([`Self::order`].)
    pub fn page(self, page: Option<Cursor>) -> (query: Self)
        ensures
            query@ == (QueryView {
                page,
                order: match page {
                    Some(Cursor::Before(_)) | Some(Cursor::After(_)) => None,
                    _ => self@.order,
                },
                ..self@
            }),
    {
        let order = match page {
            Some(Cursor::Before(_)) | Some(Cursor::After(_)) => None,
            _ => self.order,
        };
        Query { page, order, ..self }
    }

    /// Search by [`Tag::id`].
    pub fn id(self, id: Option<u64>) -> (query: Self)
        ensures
            query@ == (QueryView { id, ..self@ }),
    {
        Query { id, ..self }
    }

    /// Set the sort order for returned tags.
    ///
    /// **Note:** Setting this to a non-`None` value will clear [`Self::page`], unless
    /// [`Self::page`] is set to [`Cursor::Page`].
    pub fn order(self, order: Option<Order>) -> (query: Self)
        ensures
            query@ == (QueryView {
                order,
                page: if order is Some && !(self@.page matches Some(Cursor::Page(_))) {
                    None
                } else {
                    self@.page
                },
                ..self@
            }),
    {
        let page = match self.page {
            Some(Cursor::Before(_)) | Some(Cursor::After(_)) => if order.is_some() {
                None
            } else {
                self.page
            },
            _ => self.page,
        };
        Query { order, page, ..self }
    }

    /// Search by [`Tag::name`], finding results that are similar but not necessarily an exact
    /// match. Useful in combination with [`Order::Similarity`].
    pub fn fuzzy_name_matches(self, name: Option<&str>) -> (query: Self)
        ensures
            query@ == (QueryView {
                fuzzy_name_matches: match name {
                    Some(name) => Some(name@),
                    None => None,
                },
                ..self@
            }),
    {
        Query { fuzzy_name_matches: owned(name), ..self }
    }

    /// Search by [`Tag::name`], exactly. Supports wildcards using `*`.
    pub fn name_matches(self, name: Option<&str>) -> (query: Self)
        ensures
            query@ == (QueryView {
                name_matches: match name {
                    Some(name) => Some(name@),
                    None => None,
                },
                ..self@
            }),
    {
        Query { name_matches: owned(name), ..self }
    }

    /// Search by [`Tag::name`], exactly.
    ///
    /// This is a convenience function for setting a single value. For multiple values, see
    /// [`Self::names`].
    pub fn name(self, name: Option<&str>) -> (query: Self)
        ensures
            query@ == (QueryView {
                name: match name {
                    Some(name) => seq![name@],
                    None => Seq::empty(),
                },
                ..self@
            }),
    {
        let mut names: Vec<String> = Vec::new();
        match name {
            Some(name) => {
                names.push(String::from_str(name));
                assert(names.deep_view() =~= seq![name@]);
            },
            None => {
                assert(names.deep_view() =~= Seq::<Seq<char>>::empty());
            },
        }
        Query { name: names, ..self }
    }

    /// Search by [`Tag::name`], exactly.
    ///
    /// For a convenience function to set a single value, see [`Self::name`].
    pub fn names(self, names: Vec<String>) -> (query: Self)
        ensures
            query@ == (QueryView { name: names.deep_view(), ..self@ }),
    {
        Query { name: names, ..self }
    }

    /// Search by [`Tag::category`].
    ///
    /// This is a convenience function for setting a single value. For multiple values, see
    /// [`Self::categories`].
    pub fn category(self, category: Option<Category>) -> (query: Self)
        ensures
            query@ == (QueryView {
                category: match category {
                    Some(category) => seq![category],
                    None => Seq::empty(),
                },
                ..self@
            }),
    {
        let mut categories: Vec<Category> = Vec::new();
        match category {
            Some(category) => {
                categories.push(category);
                assert(categories@ =~= seq![category]);
            },
            None => {},
        }
        Query { category: categories, ..self }
    }

    /// Search by [`Tag::category`], exactly.
    ///
    /// For a convenience function to set a single value, see [`Self::category`].
    pub fn categories(self, categories: Vec<Category>) -> (query: Self)
        ensures
            query@ == (QueryView { category: categories@, ..self@ }),
    {
        Query { category: categories, ..self }
    }

    /// Whether to hide results that have no posts.
    pub fn hide_empty(self, hide_empty: bool) -> (query: Self)
        ensures
            query@ == (QueryView { hide_empty, ..self@ }),
    {
        Query { hide_empty, ..self }
    }

    /// Whether to only show results that have an associated wiki page.
    pub fn has_wiki(self, has_wiki: bool) -> (query: Self)
        ensures
            query@ == (QueryView { has_wiki, ..self@ }),
    {
        Query { has_wiki, ..self }
    }

    /// Whether to only show results that either are artists or have a matching artist tag (eg.
    /// `lips` and `lips_(artist)`).
    pub fn has_artist(self, has_artist: bool) -> (query: Self)
        ensures
            query@ == (QueryView { has_artist, ..self@ }),
    {
        Query { has_artist, ..self }
    }

    /// The number of items to retrieve at a time, if it is set.
    pub fn get_per_page(&self) -> (per_page: Option<u16>)
        ensures
            per_page == self@.per_page,
    {
        self.per_page
    }

    /// The page that the query stands at, if it names one.
    pub fn get_page(&self) -> (page: Option<Cursor>)
        ensures
            page == self@.page,
    {
        self.page
    }

    /// The sort order, if it is set.
    pub fn get_order(&self) -> (order: Option<Order>)
        ensures
            order == self@.order,
    {
        self.order
    }

    /// The parameters of the request for the page that the query stands at.
    pub fn to_pairs(&self) -> (pairs: Vec<(String, String)>)
        ensures
            pair_texts(pairs@) == self@.pairs(),
    {
        let mut pairs: Vec<(String, String)> = Vec::new();
        assert(pair_texts(pairs@) =~= Seq::empty());
        let limit = self.limit_string();
        push_optional(&mut pairs, "limit", limit);
        assert(pair_texts(pairs@) =~= pair("limit"@, text_of(limit)));
        push_optional(&mut pairs, "page", self.page_string());
        push_optional(&mut pairs, "search[id]", self.id_string());
        push_optional(&mut pairs, "search[order]", self.order_string());
        push_optional(&mut pairs, "search[fuzzy_name_matches]", copy_of(&self.fuzzy_name_matches));
        push_optional(&mut pairs, "search[name_matches]", copy_of(&self.name_matches));
        push_list(&mut pairs, "search[name]", &self.name);
        let numbers = self.category_strings();
        push_list(&mut pairs, "search[category]", &numbers);
        push_flag(&mut pairs, "search[hide_empty]", self.hide_empty);
        push_flag(&mut pairs, "search[has_wiki]", self.has_wiki);
        push_flag(&mut pairs, "search[has_artist]", self.has_artist);
        pairs
    }

    fn limit_string(&self) -> (text: Option<String>)
        ensures
            text_of(text) == (match self@.per_page {
                Some(n) => Some(decimal(n as nat)),
                None => None,
            }),
    {
        match self.per_page {
            Some(n) => Some(u64_to_string(n as u64)),
            None => None,
        }
    }

    fn page_string(&self) -> (text: Option<String>)
        ensures
            text_of(text) == (match self@.page {
                Some(cursor) => Some(cursor.text()),
                None => None,
            }),
    {
        match self.page {
            Some(cursor) => Some(cursor.to_string()),
            None => None,
        }
    }

    fn id_string(&self) -> (text: Option<String>)
        ensures
            text_of(text) == (match self@.id {
                Some(id) => Some(decimal(id as nat)),
                None => None,
            }),
    {
        match self.id {
            Some(id) => Some(u64_to_string(id)),
            None => None,
        }
    }

    fn order_string(&self) -> (text: Option<String>)
        ensures
            text_of(text) == (match self@.order {
                Some(order) => Some(order.text()),
                None => None,
            }),
    {
        match self.order {
            Some(order) => Some(String::from_str(order.as_str())),
            None => None,
        }
    }

    fn category_strings(&self) -> (numbers: Vec<String>)
        ensures
            numbers.deep_view() == category_numbers(self@.category),
    {
        let mut numbers: Vec<String> = Vec::new();
        let mut i: usize = 0;
        while i < self.category.len()
            invariant
                i <= self.category.len(),
                numbers.len() == i,
                forall|j: int| 0 <= j < i ==> numbers[j]@ == decimal(self.category[j].number() as nat),
            decreases self.category.len() - i,
        {
            numbers.push(self.category[i].to_string());
            i = i + 1;
        }
        assert(numbers.deep_view() =~= category_numbers(self@.category));
        numbers
    }

    /// Computes where the listing goes on after a page that held a tag.
    pub fn next_page(&self, ids: &Vec<u64>) -> (next: Result<Cursor, Error>)
        requires
            ids.len() > 0,
        ensures
            next == self@.following(ids@),
    {
        let (min, max) = id_bounds(ids);
        match self.page {
            Some(Cursor::Before(_)) => Ok(Cursor::Before(min)),
            Some(Cursor::After(_)) => Ok(Cursor::After(max)),
            Some(Cursor::Page(p)) => match p.checked_add(1) {
                Some(next) => Ok(Cursor::Page(next)),
                None => Err(Error::LimitExceeded),
            },
            None => match self.order {
                None | Some(Order::IdDsc) | Some(Order::Date) => Ok(Cursor::Before(min)),
                Some(Order::IdAsc) => Ok(Cursor::After(max)),
                _ => Ok(Cursor::Page(2)),
            },
        }
    }
}

impl Default for Query {
    fn default() -> (query: Self)
        ensures
            query@ == QueryView::empty(),
    {
        Query::new()
    }
}

/// A search for tags, as the contracts see it.
pub struct TagStreamView {
    /// The query, which stands at the page that the next request asks for.
    pub query: QueryView,
    /// The buffered page, and whether the search has ended.
    pub chunk: ChunkView<Tag>,
}

impl TagStreamView {
    /// One pull: the search after it, and what it gave.
    pub open spec fn pull(self) -> (Self, StepView<Tag>) {
        let (chunk, pulled) = self.chunk.pull();
        match pulled {
            Pull::Item(item) => (TagStreamView { chunk, ..self }, StepView::Item(item)),
            Pull::NeedPage => (self, StepView::Fetch(self.query.request())),
            Pull::End => (self, StepView::End),
        }
    }

    /// The search after the answer to its request has come. A page with tags is
    /// buffered and moves the query on; where no page can follow, the tags are handed
    /// out and then the error. An empty page ends the search, and so does an error. An
    /// answer that comes while no page is wanted changes nothing.
    pub open spec fn receive(self, answer: Result<Seq<Tag>, Error>) -> Self {
        if !(self.chunk.phase() is Fetching) {
            self
        } else if answer is Ok && answer->Ok_0.len() > 0 {
            match self.query.following(ids_of(answer->Ok_0)) {
                Ok(next) => TagStreamView {
                    query: QueryView { page: Some(next), ..self.query },
                    chunk: self.chunk.fill(answer),
                },
                Err(error) => TagStreamView { chunk: self.chunk.fill(answer).fail(error), ..self },
            }
        } else {
            TagStreamView { chunk: self.chunk.fill(answer), ..self }
        }
    }

    /// Everything that the search hands out when it is pulled until it ends, while its
    /// successive requests are answered by `answers` in turn. Where the answers run out
    /// first, what it hands out until then.
    pub open spec fn emitted(self, answers: Seq<Result<Seq<Tag>, Error>>) -> Seq<Result<Tag, Error>>
        decreases answers.len(), self.chunk.buffered(),
    {
        let (next, step) = self.pull();
        match step {
            StepView::Item(item) => seq![item] + next.emitted(answers),
            StepView::End => Seq::empty(),
            StepView::Fetch(_) => if answers.len() == 0 {
                Seq::empty()
            } else {
                self.receive(answers[0]).emitted(answers.drop_first())
            },
        }
    }

    /// The requests that `answers` answer, in turn, when the search is pulled until it
    /// ends.
    pub open spec fn requests(self, answers: Seq<Result<Seq<Tag>, Error>>) -> Seq<Seq<char>>
        decreases answers.len(), self.chunk.buffered(),
    {
        let (next, step) = self.pull();
        match step {
            StepView::Item(_) => next.requests(answers),
            StepView::End => Seq::empty(),
            StepView::Fetch(request) => if answers.len() == 0 {
                Seq::empty()
            } else {
                seq![request] + self.receive(answers[0]).requests(answers.drop_first())
            },
        }
    }

    /// Whether the query can be moved on `k` times: where it counts pages, the count
    /// has to fit.
    pub open spec fn can_turn(self, k: nat) -> bool {
        match self.query.page {
            Some(Cursor::Page(p)) => p + k <= u64::MAX,
            Some(_) => true,
            None => 1 + k <= u64::MAX,
        }
    }

    /// With tags buffered, the search hands those out first and then goes on as one
    /// that wants a page.
    pub proof fn lemma_buffered_come_first(self, answers: Seq<Result<Seq<Tag>, Error>>)
        requires
            self.chunk.error is None,
            self.chunk.closing is Open,
        ensures
            self.emitted(answers) == oks(self.chunk.pending) + (TagStreamView {
                chunk: ChunkView::fresh(),
                ..self
            }).emitted(answers),
            self.requests(answers) == (TagStreamView {
                chunk: ChunkView::fresh(),
                ..self
            }).requests(answers),
        decreases self.chunk.pending.len(),
    {
        let page = self.chunk.pending;
        let drained = TagStreamView { chunk: ChunkView::fresh(), ..self };
        if page.len() == 0 {
            assert(page =~= Seq::<Tag>::empty());
            assert(self.chunk == ChunkView::<Tag>::fresh());
            assert(oks(page) + drained.emitted(answers) =~= drained.emitted(answers));
        } else {
            let next = self.pull().0;
            next.lemma_buffered_come_first(answers);
            assert(oks(page) =~= seq![Ok::<Tag, Error>(page[0])] + oks(page.drop_first()));
            assert(seq![Ok::<Tag, Error>(page[0])] + (oks(page.drop_first()) + drained.emitted(answers))
                =~= oks(page) + drained.emitted(answers));
        }
    }

    /// A search runs until the first empty page or error: where the first `k` answers
    /// are pages with tags, a search that has just begun makes `k + 1` requests, the
    /// first of them for the page that its query stands at, hands out the tags of
    /// those `k` pages in order, then the error if the next answer is one, and ends. It
    /// makes no more requests whatever would follow.
    pub proof fn lemma_runs_to_the_end(self, answers: Seq<Result<Seq<Tag>, Error>>, k: nat)
        requires
            self.chunk == ChunkView::<Tag>::fresh(),
            self.can_turn(k),
            k < answers.len(),
            forall|i: int| 0 <= i < k ==> answers[i] is Ok && (#[trigger] answers[i])->Ok_0.len() > 0,
            answers[k as int] is Ok ==> answers[k as int]->Ok_0.len() == 0,
        ensures
            self.emitted(answers) == oks(records_of(answers, k)) + (match answers[k as int] {
                Ok(_) => Seq::empty(),
                Err(error) => seq![Err(error)],
            }),
            self.requests(answers).len() == k + 1,
            self.requests(answers)[0] == self.query.request(),
        decreases k,
    {
        let rest = answers.drop_first();
        let next = self.receive(answers[0]);
        if k == 0 {
            let ended = next.pull().0;
            assert(ended.pull() == (ended, StepView::<Tag>::End));
            assert(ended.emitted(rest) == Seq::<Result<Tag, Error>>::empty());
            assert(ended.requests(rest) == Seq::<Seq<char>>::empty());
            assert(next.requests(rest) == Seq::<Seq<char>>::empty());
            assert(oks(records_of(answers, k)) =~= Seq::<Result<Tag, Error>>::empty());
            match answers[0] {
                Ok(_) => {
                    assert(next.emitted(rest) =~= Seq::<Result<Tag, Error>>::empty());
                },
                Err(error) => {
                    assert(next.emitted(rest) == seq![Err::<Tag, Error>(error)] + ended.emitted(rest));
                },
            }
            assert(self.emitted(answers) =~= oks(records_of(answers, k)) + (match answers[k as int] {
                Ok(_) => Seq::empty(),
                Err(error) => seq![Err(error)],
            }));
        } else {
            let page = answers[0]->Ok_0;
            assert(answers[0] is Ok && answers[0]->Ok_0.len() > 0);
            assert(self.query.following(ids_of(page)) is Ok);
            next.lemma_buffered_come_first(rest);
            let drained = TagStreamView { chunk: ChunkView::fresh(), ..next };
            assert forall|i: int| 0 <= i < k - 1 implies rest[i] is Ok && (#[trigger] rest[i])->Ok_0.len()
                > 0 by {
                assert(rest[i] == answers[i + 1]);
            }
            assert(rest[k - 1] == answers[k as int]);
            drained.lemma_runs_to_the_end(rest, (k - 1) as nat);
            let tail = match answers[k as int] {
                Ok(_) => Seq::<Result<Tag, Error>>::empty(),
                Err(error) => seq![Err::<Tag, Error>(error)],
            };
            assert(oks(page + records_of(rest, (k - 1) as nat)) + tail =~= oks(page) + (oks(
                records_of(rest, (k - 1) as nat),
            ) + tail));
        }
    }
}

/// A stream of the [`Tag`]s that a query finds.
///
/// It is driven from outside: `pull` hands out the next tag or names the request to
/// make, and `receive` takes the answer to that request.
#[derive(Debug)]
pub struct TagStream {
    query: Query,
    chunk: Chunk<Tag>,
}

impl View for TagStream {
    type V = TagStreamView;

    closed spec fn view(&self) -> TagStreamView {
        TagStreamView { query: self.query@, chunk: self.chunk@ }
    }
}

impl TagStream {
    /// A search for the tags that `query` finds, from the page that it stands at. A
    /// query that asks for more tags at a time than a page can hold is refused.
    pub fn new(query: Query) -> (stream: Result<Self, Error>)
        ensures
            match stream {
                Ok(stream) => {
                    &&& !(query@.per_page matches Some(n) && n > MAX_PER_PAGE)
                    &&& stream@ == (TagStreamView { query: query@, chunk: ChunkView::fresh() })
                },
                Err(error) => {
                    &&& query@.per_page matches Some(n) && n > MAX_PER_PAGE
                    &&& error == Error::LimitExceeded
                },
            },
    {
        match query.per_page {
            Some(n) => {
                if n > MAX_PER_PAGE {
                    return Err(Error::LimitExceeded);
                }
            },
            None => {},
        }
        Ok(TagStream { query, chunk: Chunk::new() })
    }

    /// The phase that the search is in.
    pub fn phase(&self) -> (phase: Phase)
        ensures
            phase == self@.chunk.phase(),
    {
        self.chunk.phase()
    }

    /// The query, which stands at the page that the next request asks for.
    pub fn query(&self) -> (query: &Query)
        ensures
            query@ == self@.query,
    {
        &self.query
    }

    /// Hands out the next tag, or the error that ends the search; else names the
    /// request for the page that is wanted, or says that the search has ended. Never
    /// waits, and asks for the same page until `receive` has taken its answer.
    pub fn pull(&mut self) -> (step: Step<Tag>)
        ensures
            (final(self)@, step@) == old(self)@.pull(),
    {
        match self.chunk.pull() {
            Pull::Item(item) => Step::Item(item),
            Pull::End => Step::End,
            Pull::NeedPage => {
                let pairs = self.query.to_pairs();
                assert(pairs@.len() == pair_texts(pairs@).len());
                if pairs.len() == 0 {
                    Step::Fetch(String::from_str("/tags.json"))
                } else {
                    let mut url = String::from_str("/tags.json?");
                    url.append(form_query_string(&pairs).as_str());
                    Step::Fetch(url)
                }
            },
        }
    }

    /// Takes the answer to the request that `pull` named.
    pub fn receive(&mut self, answer: Result<Vec<Tag>, Error>)
        ensures
            final(self)@ == old(self)@.receive(answer_view(answer)),
    {
        match self.chunk.phase() {
            Phase::Fetching => {},
            _ => {
                return ;
            },
        }
        match answer {
            Ok(tags) => {
                if tags.len() > 0 {
                    let ids = tag_ids(&tags);
                    match self.query.next_page(&ids) {
                        Ok(next) => {
                            self.query.page = Some(next);
                            self.chunk.fill(Ok(tags));
                        },
                        Err(error) => {
                            self.chunk.fill(Ok(tags));
                            self.chunk.fail(error);
                        },
                    }
                } else {
                    self.chunk.fill(Ok(tags));
                }
            },
            Err(error) => {
                self.chunk.fill(Err(error));
            },
        }
    }
}

} // verus!
