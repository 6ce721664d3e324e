use rs621::client::{
    check_status, create_extra_query, create_header_map, http_error, id_bounds, next_cursor,
    status_reason, Client, Cursor,
};
use rs621::error::Error;

#[test]
fn create_header_map_works() {
    assert!(create_header_map(b"rs621/unit_test").is_ok());
}

#[test]
fn create_header_map_requires_valid_user_agent() {
    assert!(create_header_map(b"\n").is_err());
}

#[test]
fn create_header_map_requires_non_empty_user_agent() {
    assert!(create_header_map(b"").is_err());
}

#[test]
fn header_map_holds_the_user_agent() {
    assert_eq!(
        create_header_map(b"rs621/unit_test"),
        Ok(vec![(String::from("user-agent"), b"rs621/unit_test".to_vec())])
    );
    assert_eq!(
        create_header_map(b"tab\tand high \xfa"),
        Ok(vec![(String::from("user-agent"), b"tab\tand high \xfa".to_vec())])
    );
}

#[test]
fn header_map_errors_are_told_apart() {
    assert_eq!(
        create_header_map(b""),
        Err(Error::CannotCreateClient(String::from("User Agent mustn't be empty")))
    );
    assert_eq!(
        create_header_map(b"\n"),
        Err(Error::InvalidHeaderValue(String::from("failed to parse header value")))
    );
    assert_eq!(
        create_header_map(b"del\x7f"),
        Err(Error::InvalidHeaderValue(String::from("failed to parse header value")))
    );
    assert_eq!(
        create_header_map(b"nul\x00"),
        Err(Error::InvalidHeaderValue(String::from("failed to parse header value")))
    );
}

#[test]
fn extra_query_is_empty() {
    assert_eq!(create_extra_query(b"rs621/unit_test"), Ok(vec![]));
    assert_eq!(create_extra_query(b""), Ok(vec![]));
}

#[test]
fn get_json_endpoint_http_error() {
    assert_eq!(
        check_status(
            "http://127.0.0.1:1234/post/show.json?id=8595",
            500,
            br#"{"success":false,"reason":"foo"}"#
        ),
        Err(Error::Http {
            url: String::from("http://127.0.0.1:1234/post/show.json?id=8595"),
            code: 500,
            reason: Some(String::from("foo"))
        })
    );
}

#[test]
fn get_json_endpoint_success() {
    assert_eq!(check_status("http://127.0.0.1:1234/post/show.json?id=8595", 200, br#"{"dummy":"json"}"#), Ok(()));
}

#[test]
fn status_in_and_out_of_the_success_range() {
    assert_eq!(check_status("u", 200, b""), Ok(()));
    assert_eq!(check_status("u", 204, b"not json"), Ok(()));
    assert_eq!(check_status("u", 299, b""), Ok(()));
    assert!(check_status("u", 199, b"").is_err());
    assert!(check_status("u", 300, b"").is_err());
    assert!(check_status("u", 0, b"").is_err());
    assert!(check_status("u", u16::MAX, b"").is_err());
}

#[test]
fn reason_comes_from_the_body_first() {
    assert_eq!(
        check_status("u", 403, br#"{"reason":"no access for you"}"#),
        Err(Error::Http { url: String::from("u"), code: 403, reason: Some(String::from("no access for you")) })
    );
    assert_eq!(
        check_status("u", 599, br#"{"reason":""}"#),
        Err(Error::Http { url: String::from("u"), code: 599, reason: Some(String::new()) })
    );
}

#[test]
fn reason_falls_back_to_what_is_known_of_the_status() {
    for body in [&b""[..], b"<html>", br#"{"success":false}"#, br#"{"reason":17}"#, br#"["reason"]"#, b"\xff"] {
        match check_status("u", 403, body) {
            Err(Error::Http { url, code, reason }) => {
                assert_eq!(url, "u");
                assert_eq!(code, 403);
                assert_eq!(reason, Some(String::from("Forbidden; access denied")));
            }
            other => panic!("{:?}", other),
        }
    }
    match check_status("u", 503, b"") {
        Err(Error::Http { reason: Some(reason), .. }) => assert!(reason.contains("rate limit")),
        other => panic!("{:?}", other),
    }
}

#[test]
fn reason_is_none_for_a_status_that_is_not_known() {
    assert_eq!(
        check_status("u", 418, b"teapot"),
        Err(Error::Http { url: String::from("u"), code: 418, reason: None })
    );
    assert_eq!(status_reason(418), None);
    assert_eq!(status_reason(200), None);
    assert_eq!(status_reason(404), Some("Not found"));
}

#[test]
fn http_error_takes_the_named_reason() {
    assert_eq!(
        http_error("u", 500, Some(String::from("foo"))),
        Error::Http { url: String::from("u"), code: 500, reason: Some(String::from("foo")) }
    );
    assert_eq!(
        http_error("u", 404, None),
        Error::Http { url: String::from("u"), code: 404, reason: Some(String::from("Not found")) }
    );
    assert_eq!(http_error("u", 302, None), Error::Http { url: String::from("u"), code: 302, reason: None });
}

#[test]
fn bounds_of_ids() {
    assert_eq!(id_bounds(&vec![5]), (5, 5));
    assert_eq!(id_bounds(&vec![5, 3, 9, 3, 7]), (3, 9));
    assert_eq!(id_bounds(&vec![0, u64::MAX]), (0, u64::MAX));
}

#[test]
fn next_cursor_of_an_ordered_listing() {
    let ids = vec![30, 10, 20];
    assert_eq!(next_cursor(true, Some(Cursor::Page(1)), &ids), Ok(Cursor::Page(2)));
    assert_eq!(next_cursor(true, Some(Cursor::Page(41)), &ids), Ok(Cursor::Page(42)));
    assert_eq!(next_cursor(true, None, &ids), Ok(Cursor::Page(2)));
    assert_eq!(next_cursor(true, Some(Cursor::Page(u64::MAX - 1)), &ids), Ok(Cursor::Page(u64::MAX)));
    assert_eq!(next_cursor(true, Some(Cursor::Page(u64::MAX)), &ids), Err(Error::LimitExceeded));
    assert_eq!(next_cursor(true, Some(Cursor::Before(7)), &ids), Err(Error::Usage));
    assert_eq!(next_cursor(true, Some(Cursor::After(7)), &ids), Err(Error::Usage));
}

#[test]
fn next_cursor_of_an_unordered_listing() {
    let ids = vec![30, 10, 20];
    assert_eq!(next_cursor(false, None, &ids), Ok(Cursor::Before(10)));
    assert_eq!(next_cursor(false, Some(Cursor::Before(100)), &ids), Ok(Cursor::Before(10)));
    assert_eq!(next_cursor(false, Some(Cursor::Page(3)), &ids), Ok(Cursor::Before(10)));
    assert_eq!(next_cursor(false, Some(Cursor::After(5)), &ids), Ok(Cursor::After(30)));
}

#[test]
fn before_cursor_moves_down_page_by_page() {
    let pages: [Vec<u64>; 3] = [vec![99, 98, 90], vec![89, 70, 71], vec![5, 69]];
    let mut cursor: Option<Cursor> = None;
    let mut last: Option<u64> = None;
    for page in pages.iter() {
        let next = next_cursor(false, cursor, page).unwrap();
        let id = match next {
            Cursor::Before(id) => id,
            other => panic!("{:?}", other),
        };
        assert!(page.iter().all(|record| id <= *record));
        if let Some(previous) = last {
            assert!(id < previous);
        }
        last = Some(id);
        cursor = Some(next);
    }
    assert_eq!(cursor, Some(Cursor::Before(5)));
}

#[test]
fn client_keeps_the_url_as_it_is_written_out() {
    let client = Client::new("https://e926.net", b"rs621/unit_test").unwrap();
    assert_eq!(client.base_url(), "https://e926.net/");
    assert_eq!(client.headers(), &vec![(String::from("user-agent"), b"rs621/unit_test".to_vec())]);
    assert_eq!(client.credentials(), None);
    assert_eq!(client.query_pairs(), vec![]);
}

#[test]
fn client_looks_at_the_url_before_the_user_agent() {
    assert!(matches!(Client::new("not a url", b"rs621/unit_test"), Err(Error::UrlParse(_))));
    assert!(matches!(Client::new("not a url", b""), Err(Error::UrlParse(_))));
    assert!(matches!(Client::new("", b"\n"), Err(Error::UrlParse(_))));
    assert_eq!(
        Client::new("https://e926.net", b"").err(),
        Some(Error::CannotCreateClient(String::from("User Agent mustn't be empty")))
    );
    assert_eq!(
        Client::new("https://e926.net", b"\n").err(),
        Some(Error::InvalidHeaderValue(String::from("failed to parse header value")))
    );
}

#[test]
fn endpoint_url_without_a_login() {
    let client = Client::new("http://127.0.0.1:1234", b"rs621/unit_test").unwrap();
    assert_eq!(
        client.url("/post/show.json?id=8595"),
        Ok(String::from("http://127.0.0.1:1234/post/show.json?id=8595"))
    );
    assert_eq!(
        client.url("/posts.json?limit=320&page=b2269211&tags=fluffy%20rating%3As"),
        Ok(String::from("http://127.0.0.1:1234/posts.json?limit=320&page=b2269211&tags=fluffy%20rating%3As"))
    );
    assert_eq!(client.url("/tags.json"), Ok(String::from("http://127.0.0.1:1234/tags.json")));
    assert!(matches!(client.url("http://[::1"), Err(Error::UrlParse(_))));
}

#[test]
fn endpoint_url_with_a_login() {
    let mut client = Client::new("https://e926.net", b"rs621/unit_test").unwrap();
    client.login(String::from("some one"), String::from("k&y"));
    assert_eq!(client.credentials(), Some(("some one", "k&y")));
    assert_eq!(
        client.query_pairs(),
        vec![
            (String::from("login"), String::from("some one")),
            (String::from("api_key"), String::from("k&y"))
        ]
    );
    assert_eq!(
        client.url("/posts.json?tags=a"),
        Ok(String::from("https://e926.net/posts.json?tags=a&login=some+one&api_key=k%26y"))
    );
    assert_eq!(
        client.url("/tags.json"),
        Ok(String::from("https://e926.net/tags.json?login=some+one&api_key=k%26y"))
    );
    client.logout();
    assert_eq!(client.credentials(), None);
    assert_eq!(client.url("/tags.json"), Ok(String::from("https://e926.net/tags.json")));
}

#[test]
fn query_that_is_too_long_is_refused() {
    let mut client = Client::new("https://e926.net", b"rs621/unit_test").unwrap();
    client.login(String::from("a"), "k".repeat(0x0100_0000));
    assert_eq!(client.url("/tags.json"), Err(Error::LimitExceeded));
    client.login(String::from("a"), "k".repeat(1000));
    assert!(client.url("/tags.json").is_ok());
}
