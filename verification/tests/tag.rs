use rs621::client::Cursor;
use rs621::error::Error;
use rs621::tag::{tag_ids, Category, Order, ParseCategoryError, Query, Tag, TagStream, MAX_PER_PAGE};
use rs621::text::ParseIntError;
use rs621::stream::{Phase, Step};

fn tag(id: u64, name: &str, post_count: u64, category: Category) -> Tag {
    let created = "2020-03-05T05:49:37.994-05:00".parse::<chrono::DateTime<chrono::Utc>>().unwrap();
    let updated = "2022-04-06T06:21:26.713-04:00".parse::<chrono::DateTime<chrono::Utc>>().unwrap();
    Tag {
        id,
        name: String::from(name),
        post_count,
        related_tags: format!("{} 300 anthro 224", name),
        related_tags_updated_at: "2022-04-06T06:21:26.712-04:00"
            .parse::<chrono::DateTime<chrono::Utc>>()
            .ok()
            .map(|time| time.naive_utc()),
        category,
        is_locked: false,
        created_at: created.naive_utc(),
        updated_at: updated.naive_utc(),
    }
}

fn pairs(list: &[(&str, &str)]) -> Vec<(String, String)> {
    list.iter().map(|(k, v)| (String::from(*k), String::from(*v))).collect()
}

fn run(
    stream: &mut TagStream,
    server: &dyn Fn(&str) -> Result<Vec<Tag>, Error>,
) -> (Vec<Result<Tag, Error>>, Vec<String>) {
    let mut items = Vec::new();
    let mut requests = Vec::new();
    loop {
        match stream.pull() {
            Step::Item(item) => items.push(item),
            Step::Fetch(request) => {
                let answer = server(&request);
                requests.push(request);
                stream.receive(answer);
            }
            Step::End => break,
        }
    }
    (items, requests)
}

#[test]
fn build_query() {
    let query = Query::new()
        .per_page(Some(1))
        .page(Some(Cursor::Page(2)))
        .id(Some(3))
        .order(Some(Order::Similarity))
        .fuzzy_name_matches(Some("fuzzy"))
        .name_matches(Some(String::from("name_matches").as_str()))
        .name(Some("name"))
        .names(vec![String::from("hello")])
        .category(Some(Category::Species))
        .categories(vec![Category::Lore, Category::Meta])
        .hide_empty(true)
        .has_wiki(true)
        .has_artist(true);

    assert_eq!(query.get_per_page(), Some(1));
    assert_eq!(query.get_page(), Some(Cursor::Page(2)));
    assert_eq!(query.get_order(), Some(Order::Similarity));
    assert_eq!(
        query.to_pairs(),
        pairs(&[
            ("limit", "1"),
            ("page", "2"),
            ("search[id]", "3"),
            ("search[order]", "similarity"),
            ("search[fuzzy_name_matches]", "fuzzy"),
            ("search[name_matches]", "name_matches"),
            ("search[name]", "hello"),
            ("search[category]", "8,7"),
            ("search[hide_empty]", "true"),
            ("search[has_wiki]", "true"),
            ("search[has_artist]", "true"),
        ])
    );
}

#[test]
fn empty_query_has_no_parameter() {
    assert_eq!(Query::new().to_pairs(), vec![]);
    assert_eq!(Query::default(), Query::new());
    let query = Query::new().hide_empty(false).has_wiki(false).has_artist(false).names(vec![]).category(None);
    assert_eq!(query.to_pairs(), vec![]);
    let mut stream = TagStream::new(Query::new()).unwrap();
    assert_eq!(stream.pull(), Step::Fetch(String::from("/tags.json")));
}

#[test]
fn page_and_order_clear_each_other() {
    let query = Query::new().order(Some(Order::Count)).page(Some(Cursor::Before(5)));
    assert_eq!(query.get_order(), None);
    assert_eq!(query.get_page(), Some(Cursor::Before(5)));

    let query = Query::new().order(Some(Order::Count)).page(Some(Cursor::After(5)));
    assert_eq!(query.get_order(), None);

    let query = Query::new().order(Some(Order::Count)).page(Some(Cursor::Page(5)));
    assert_eq!(query.get_order(), Some(Order::Count));
    assert_eq!(query.get_page(), Some(Cursor::Page(5)));

    let query = Query::new().order(Some(Order::Count)).page(None);
    assert_eq!(query.get_order(), Some(Order::Count));

    let query = Query::new().page(Some(Cursor::Before(5))).order(Some(Order::Name));
    assert_eq!(query.get_page(), None);
    assert_eq!(query.get_order(), Some(Order::Name));

    let query = Query::new().page(Some(Cursor::After(5))).order(None);
    assert_eq!(query.get_page(), Some(Cursor::After(5)));
    assert_eq!(query.get_order(), None);

    let query = Query::new().page(Some(Cursor::Page(5))).order(Some(Order::Name));
    assert_eq!(query.get_page(), Some(Cursor::Page(5)));
}

#[test]
fn single_name_and_category_replace_the_lists() {
    let query = Query::new().names(vec![String::from("a"), String::from("b")]).name(Some("c"));
    assert_eq!(query.to_pairs(), pairs(&[("search[name]", "c")]));
    let query = Query::new().names(vec![String::from("a"), String::from("b")]).name(None);
    assert_eq!(query.to_pairs(), vec![]);
    let query = Query::new().names(vec![String::from("a"), String::from("b c")]);
    assert_eq!(query.to_pairs(), pairs(&[("search[name]", "a,b c")]));
    let query = Query::new().categories(vec![Category::Artist, Category::Copyright]).category(Some(Category::General));
    assert_eq!(query.to_pairs(), pairs(&[("search[category]", "0")]));
}

#[test]
fn category_numbers_and_names() {
    let all = [
        (Category::General, 0u8, "0"),
        (Category::Artist, 1, "1"),
        (Category::Copyright, 3, "3"),
        (Category::Character, 4, "4"),
        (Category::Species, 5, "5"),
        (Category::Invalid, 6, "6"),
        (Category::Meta, 7, "7"),
        (Category::Lore, 8, "8"),
    ];
    for (category, number, text) in all {
        assert_eq!(category.as_u8(), number);
        assert_eq!(category.to_string(), text);
        assert_eq!(Category::from_str(text), Ok(category));
        assert_eq!(text.parse::<Category>(), Ok(category));
        assert_eq!(Category::from_str(&category.to_string()), Ok(category));
    }
}

#[test]
fn category_parse_errors() {
    assert_eq!(Category::from_str("2"), Err(ParseCategoryError::Unknown(2)));
    assert_eq!(Category::from_str("9"), Err(ParseCategoryError::Unknown(9)));
    assert_eq!(Category::from_str("255"), Err(ParseCategoryError::Unknown(255)));
    assert_eq!(Category::from_str("256"), Err(ParseCategoryError::ParseInt(ParseIntError::PosOverflow)));
    assert_eq!(Category::from_str(""), Err(ParseCategoryError::ParseInt(ParseIntError::Empty)));
    assert_eq!(Category::from_str("artist"), Err(ParseCategoryError::ParseInt(ParseIntError::InvalidDigit)));
    assert_eq!(Category::from_str("-1"), Err(ParseCategoryError::ParseInt(ParseIntError::InvalidDigit)));
    assert_eq!(Category::from_str("+5"), Ok(Category::Species));
    assert_eq!(Category::from_str("005"), Ok(Category::Species));
}

#[test]
fn order_names() {
    assert_eq!(Order::IdAsc.as_str(), "id_asc");
    assert_eq!(Order::IdDsc.as_str(), "id_dsc");
    assert_eq!(Order::Name.as_str(), "name");
    assert_eq!(Order::Date.as_str(), "date");
    assert_eq!(Order::Count.as_str(), "count");
    assert_eq!(Order::Similarity.as_str(), "similarity");
}

#[test]
fn ids_of_tags() {
    let tags = vec![tag(5, "a", 1, Category::General), tag(3, "b", 1, Category::General)];
    assert_eq!(tag_ids(&tags), vec![5, 3]);
    assert_eq!(tags.clone(), tags);
}

#[test]
fn next_page_follows_cursor_and_order() {
    let ids = vec![12053, 12052, 12060];
    let next = |query: Query| query.next_page(&ids);
    assert_eq!(next(Query::new().page(Some(Cursor::Before(12054)))), Ok(Cursor::Before(12052)));
    assert_eq!(next(Query::new().page(Some(Cursor::After(12047)))), Ok(Cursor::After(12060)));
    assert_eq!(next(Query::new().page(Some(Cursor::Page(7)))), Ok(Cursor::Page(8)));
    assert_eq!(next(Query::new().page(Some(Cursor::Page(u64::MAX)))), Err(Error::LimitExceeded));
    assert_eq!(next(Query::new()), Ok(Cursor::Before(12052)));
    assert_eq!(next(Query::new().order(Some(Order::IdDsc))), Ok(Cursor::Before(12052)));
    assert_eq!(next(Query::new().order(Some(Order::Date))), Ok(Cursor::Before(12052)));
    assert_eq!(next(Query::new().order(Some(Order::IdAsc))), Ok(Cursor::After(12060)));
    assert_eq!(next(Query::new().order(Some(Order::Name))), Ok(Cursor::Page(2)));
    assert_eq!(next(Query::new().order(Some(Order::Count))), Ok(Cursor::Page(2)));
    assert_eq!(next(Query::new().order(Some(Order::Similarity))), Ok(Cursor::Page(2)));
    assert_eq!(next(Query::new().order(Some(Order::IdAsc)).page(Some(Cursor::Page(3)))), Ok(Cursor::Page(4)));
}

#[test]
fn tags_paginated_ordered_by_count() {
    let mammal = || tag(12054, "mammal", 3350829, Category::Species);
    let anthro = || tag(7115, "anthro", 3288365, Category::General);
    let server = move |request: &str| {
        if request == "/tags.json?limit=1&search%5Border%5D=count" {
            Ok(vec![mammal()])
        } else if request == "/tags.json?limit=1&page=2&search%5Border%5D=count" {
            Ok(vec![anthro()])
        } else if request == "/tags.json?limit=1&page=3&search%5Border%5D=count" {
            Ok(vec![])
        } else {
            panic!("unexpected request {}", request)
        }
    };
    let query = Query::new().order(Some(Order::Count)).per_page(Some(1));
    let mut stream = TagStream::new(query).unwrap();
    let (actual, requests) = run(&mut stream, &server);
    assert_eq!(actual, vec![Ok(mammal()), Ok(anthro())]);
    assert_eq!(requests.len(), 3);
}

#[test]
fn tags_paginated_before() {
    let sefeiren = || tag(12053, "sefeiren", 1581, Category::Artist);
    let skee = || tag(12052, "skee", 2, Category::Artist);
    let kash = || tag(12051, "kash", 5, Category::Character);
    let fish_bowl = || tag(12048, "fish_bowl", 147, Category::General);
    let server = move |request: &str| {
        if request == "/tags.json?limit=2&page=b12054" {
            Ok(vec![sefeiren(), skee()])
        } else if request == "/tags.json?limit=2&page=b12052" {
            Ok(vec![kash(), fish_bowl()])
        } else if request == "/tags.json?limit=2&page=b12048" {
            Ok(vec![])
        } else {
            panic!("unexpected request {}", request)
        }
    };
    let query = Query::new().per_page(Some(2)).page(Some(Cursor::Before(12054)));
    let mut stream = TagStream::new(query).unwrap();
    let (actual, _) = run(&mut stream, &server);
    assert_eq!(actual, vec![Ok(sefeiren()), Ok(skee()), Ok(kash()), Ok(fish_bowl())]);
}

#[test]
fn tags_paginated_after() {
    let sefeiren = || tag(12053, "sefeiren", 1581, Category::Artist);
    let skee = || tag(12052, "skee", 2, Category::Artist);
    let kash = || tag(12051, "kash", 5, Category::Character);
    let fish_bowl = || tag(12048, "fish_bowl", 147, Category::General);
    let server = move |request: &str| {
        if request == "/tags.json?limit=2&page=a12047" {
            Ok(vec![kash(), fish_bowl()])
        } else if request == "/tags.json?limit=2&page=a12051" {
            Ok(vec![sefeiren(), skee()])
        } else if request == "/tags.json?limit=2&page=a12053" {
            Ok(vec![])
        } else {
            panic!("unexpected request {}", request)
        }
    };
    let query = Query::new().per_page(Some(2)).page(Some(Cursor::After(12047)));
    let mut stream = TagStream::new(query).unwrap();
    // Even with `page=a...`, each page is returned in descending order.
    let (actual, _) = run(&mut stream, &server);
    assert_eq!(actual, vec![Ok(kash()), Ok(fish_bowl()), Ok(sefeiren()), Ok(skee())]);
    assert_eq!(stream.query().get_page(), Some(Cursor::After(12053)));
}

#[test]
fn page_size_above_the_ceiling_is_refused() {
    assert_eq!(MAX_PER_PAGE, 320);
    assert!(TagStream::new(Query::new().per_page(Some(320))).is_ok());
    assert!(TagStream::new(Query::new().per_page(Some(0))).is_ok());
    assert!(TagStream::new(Query::new().per_page(None)).is_ok());
    assert!(matches!(TagStream::new(Query::new().per_page(Some(321))), Err(Error::LimitExceeded)));
    assert!(matches!(TagStream::new(Query::new().per_page(Some(u16::MAX))), Err(Error::LimitExceeded)));
}

#[test]
fn request_is_form_encoded() {
    let query = Query::new()
        .name_matches(Some("a b*c&d=e+f~g"))
        .names(vec![String::from("x,y"), String::from("\u{e9}")])
        .has_wiki(true);
    let mut stream = TagStream::new(query).unwrap();
    assert_eq!(
        stream.pull(),
        Step::Fetch(String::from(
            "/tags.json?search%5Bname_matches%5D=a+b*c%26d%3De%2Bf%7Eg&search%5Bname%5D=x%2Cy%2C%C3%A9&search%5Bhas_wiki%5D=true"
        ))
    );
}

#[test]
fn error_ends_the_tag_search() {
    let failure = || Error::Serial(String::from("invalid type: map, expected a sequence"));
    let mut stream = TagStream::new(Query::new()).unwrap();
    assert_eq!(stream.pull(), Step::Fetch(String::from("/tags.json")));
    stream.receive(Ok(vec![tag(9, "a", 1, Category::General)]));
    assert_eq!(stream.pull(), Step::Item(Ok(tag(9, "a", 1, Category::General))));
    assert_eq!(stream.pull(), Step::Fetch(String::from("/tags.json?page=b9")));
    stream.receive(Err(failure()));
    assert_eq!(stream.phase(), Phase::Failed);
    assert_eq!(stream.pull(), Step::Item(Err(failure())));
    assert_eq!(stream.pull(), Step::End);
    assert_eq!(stream.pull(), Step::End);
}
