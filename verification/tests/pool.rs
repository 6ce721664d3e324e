use rs621::error::Error;
use rs621::pool::{Pool, PoolCategory, PoolSearch, PoolSearchOrder, PoolStream};
use rs621::stream::{Phase, Step};

fn pool(id: u64, name: &str) -> Pool {
    let time = chrono::DateTime::from_timestamp(1_600_000_000 + id as i64, 0).unwrap().naive_utc();
    Pool {
        id,
        name: String::from(name),
        created_at: time,
        updated_at: time,
        creator_id: 7,
        description: String::new(),
        is_active: true,
        category: PoolCategory::Series,
        is_deleted: false,
        post_ids: vec![id * 10, id * 10 + 1],
        creator_name: String::from("someone"),
        post_count: 2,
    }
}

fn run(
    stream: &mut PoolStream,
    server: &dyn Fn(&str) -> Result<Vec<Pool>, Error>,
) -> (Vec<Result<Pool, Error>>, Vec<String>) {
    let mut items = Vec::new();
    let mut requests = Vec::new();
    loop {
        match stream.pull() {
            Step::Item(item) => items.push(item),
            Step::Fetch(request) => {
                let answer = server(&request);
                requests.push(request);
                stream.receive(answer);
            }
            Step::End => break,
        }
    }
    (items, requests)
}

#[test]
fn pool_search() {
    let server = |request: &str| {
        if request == "/pools.json?page=1&search%5Bname_matches%5D=foo" {
            Ok(vec![pool(3, "foo"), pool(1, "a foo"), pool(2, "foobar")])
        } else if request == "/pools.json?page=2&search%5Bname_matches%5D=foo" {
            Ok(vec![])
        } else {
            panic!("unexpected request {}", request)
        }
    };
    let mut stream = PoolStream::new(PoolSearch::new().name_matches("foo"));
    let (pools, requests) = run(&mut stream, &server);
    assert_eq!(pools, vec![Ok(pool(3, "foo")), Ok(pool(1, "a foo")), Ok(pool(2, "foobar"))]);
    assert_eq!(requests.len(), 2);
    assert_eq!(stream.phase(), Phase::Exhausted);
}

#[test]
fn search_parameters_of_no_condition() {
    assert_eq!(PoolSearch::new().to_search_parameters(), "");
    assert_eq!(PoolSearch::default(), PoolSearch::new());
}

#[test]
fn search_parameters_of_each_condition() {
    assert_eq!(
        PoolSearch::new().name_matches("foo").to_search_parameters(),
        "&search%5Bname_matches%5D=foo"
    );
    assert_eq!(PoolSearch::new().id(vec![3, 1, 20]).to_search_parameters(), "&search%5Bid%5D=3%2C1%2C20");
    assert_eq!(PoolSearch::new().id(vec![]).to_search_parameters(), "&search%5Bid%5D=");
    assert_eq!(
        PoolSearch::new().description_matches("a b").to_search_parameters(),
        "&search%5Bdescription_matches%5D=a%20b"
    );
    assert_eq!(
        PoolSearch::new().creator_name("some_one").to_search_parameters(),
        "&search%5Bcreator_name%5D=some_one"
    );
    assert_eq!(PoolSearch::new().creator_id(42).to_search_parameters(), "&search%5Bcreator_id%5D=42");
    assert_eq!(PoolSearch::new().is_active(true).to_search_parameters(), "&search%5Bis_active%5D=true");
    assert_eq!(PoolSearch::new().is_active(false).to_search_parameters(), "&search%5Bis_active%5D=false");
    assert_eq!(PoolSearch::new().is_deleted(false).to_search_parameters(), "&search%5Bis_deleted%5D=false");
    assert_eq!(
        PoolSearch::new().category(PoolCategory::Series).to_search_parameters(),
        "&search%5Bcategory%5D=series"
    );
    assert_eq!(
        PoolSearch::new().category(PoolCategory::Collection).to_search_parameters(),
        "&search%5Bcategory%5D=collection"
    );
    assert_eq!(
        PoolSearch::new().order(PoolSearchOrder::Name).to_search_parameters(),
        "&search%5Border%5D=name"
    );
    assert_eq!(
        PoolSearch::new().order(PoolSearchOrder::CreatedAt).to_search_parameters(),
        "&search%5Border%5D=created_at"
    );
    assert_eq!(
        PoolSearch::new().order(PoolSearchOrder::UpdatedAt).to_search_parameters(),
        "&search%5Border%5D=updated_at"
    );
    assert_eq!(
        PoolSearch::new().order(PoolSearchOrder::PostCount).to_search_parameters(),
        "&search%5Border%5D=post_count"
    );
}

#[test]
fn search_parameters_come_in_a_fixed_order() {
    let search = PoolSearch::new()
        .order(PoolSearchOrder::PostCount)
        .category(PoolCategory::Collection)
        .is_deleted(true)
        .is_active(false)
        .creator_id(9)
        .creator_name("x y")
        .description_matches("d*")
        .id(vec![1, 2])
        .name_matches("n");
    assert_eq!(
        search.to_search_parameters(),
        "&search%5Bname_matches%5D=n&search%5Bid%5D=1%2C2&search%5Bdescription_matches%5D=d%2A\
         &search%5Bcreator_name%5D=x%20y&search%5Bcreator_id%5D=9&search%5Bis_active%5D=false\
         &search%5Bis_deleted%5D=true&search%5Bcategory%5D=collection&search%5Border%5D=post_count"
    );
}

#[test]
fn builder_sets_one_field_and_keeps_the_rest() {
    let search = PoolSearch::new().creator_id(9).name_matches("n").creator_id(10);
    assert_eq!(
        search,
        PoolSearch {
            name_matches: Some(String::from("n")),
            id: None,
            description_matches: None,
            creator_name: None,
            creator_id: Some(10),
            is_active: None,
            is_deleted: None,
            category: None,
            order: None,
        }
    );
}

#[test]
fn pool_search_counts_pages_and_ends_on_an_error() {
    let failure = || Error::Http { url: String::from("u"), code: 500, reason: None };
    let server = move |request: &str| {
        if request == "/pools.json?page=1" {
            Ok(vec![pool(1, "a")])
        } else if request == "/pools.json?page=2" {
            Ok(vec![pool(2, "b"), pool(3, "c")])
        } else if request == "/pools.json?page=3" {
            Err(failure())
        } else {
            panic!("unexpected request {}", request)
        }
    };
    let mut stream = PoolStream::new(PoolSearch::new());
    let (pools, requests) = run(&mut stream, &server);
    assert_eq!(pools, vec![Ok(pool(1, "a")), Ok(pool(2, "b")), Ok(pool(3, "c")), Err(failure())]);
    assert_eq!(requests, vec!["/pools.json?page=1", "/pools.json?page=2", "/pools.json?page=3"]);
    assert_eq!(stream.phase(), Phase::Failed);
    assert_eq!(stream.pull(), Step::End);
}
