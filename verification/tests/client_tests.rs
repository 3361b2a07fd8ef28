use sub_finder::client::{to_decimal, OpenSubtitlesClient, SubtitleSearchResponse};
use sub_finder::error::SubError;
use sub_finder::rpc::{
    find_member, get_list, get_text, status_is_ok, RpcCall, RpcField, RpcMember, RpcParam,
    RpcValue,
};

fn text(value: &str) -> RpcValue {
    RpcValue::Text(value.to_string())
}

fn record(members: Vec<(&str, RpcValue)>) -> RpcValue {
    RpcValue::Record(
        members
            .into_iter()
            .map(|(name, value)| RpcMember { name: name.to_string(), value })
            .collect(),
    )
}

fn login_reply(status: &str, token: &str) -> RpcValue {
    record(vec![("status", text(status)), ("token", text(token))])
}

fn found(id: &str, link: &str) -> RpcValue {
    record(vec![
        ("IDSubMovieFile", text(id)),
        ("MovieName", text("A film")),
        ("ZipDownloadLink", text(link)),
    ])
}

fn search_reply(status: &str, items: Vec<RpcValue>) -> RpcValue {
    record(vec![("status", text(status)), ("data", RpcValue::List(items))])
}

fn session(token: &str) -> OpenSubtitlesClient {
    OpenSubtitlesClient::create_client(&login_reply("200 OK", token)).unwrap()
}

#[test]
fn test_good_login() {
    let call = OpenSubtitlesClient::login_call("", "", "eng", "OSTestUserAgent");
    assert_eq!(call.method, "LogIn");
    assert_eq!(
        call.params,
        vec![
            RpcParam::Text("".to_string()),
            RpcParam::Text("".to_string()),
            RpcParam::Text("eng".to_string()),
            RpcParam::Text("OSTestUserAgent".to_string()),
        ]
    );
    let res = OpenSubtitlesClient::create_client(&login_reply("200 OK", "abc123"));
    assert!(res.is_ok());
}

#[test]
fn login_call_names_the_credentials_in_order() {
    let call = OpenSubtitlesClient::login_call("user", "secret", "en", "RustSubFinder 0.1.0");
    assert_eq!(
        call,
        RpcCall {
            method: "LogIn".to_string(),
            params: vec![
                RpcParam::Text("user".to_string()),
                RpcParam::Text("secret".to_string()),
                RpcParam::Text("en".to_string()),
                RpcParam::Text("RustSubFinder 0.1.0".to_string()),
            ],
        }
    );
}

#[test]
fn login_gives_the_token() {
    let client = OpenSubtitlesClient::create_client(&login_reply("200 OK", "tok1")).unwrap();
    assert_eq!(client.token(), "tok1");
    let bare = OpenSubtitlesClient::create_client(&login_reply("200", "")).unwrap();
    assert_eq!(bare.token(), "");
}

#[test]
fn login_with_another_status_is_rejected() {
    for status in ["401 Unauthorized", "", "20", " 200 OK", "500", "OK 200"] {
        let res = OpenSubtitlesClient::create_client(&login_reply(status, "tok1"));
        assert_eq!(res.err(), Some(SubError::SvrInvalidCredentials), "{:?}", status);
    }
}

#[test]
fn login_reply_of_another_shape_is_invalid() {
    let replies = vec![
        record(vec![("status", text("200 OK"))]),
        record(vec![("token", text("tok1"))]),
        record(vec![("status", RpcValue::Other), ("token", text("tok1"))]),
        record(vec![("status", text("200 OK")), ("token", RpcValue::Other)]),
        record(vec![("status", text("401 Unauthorized"))]),
        record(vec![("Status", text("200 OK")), ("Token", text("tok1"))]),
        record(vec![]),
        RpcValue::List(vec![login_reply("200 OK", "tok1")]),
        text("200 OK"),
        RpcValue::Other,
    ];
    for reply in &replies {
        let res = OpenSubtitlesClient::create_client(reply);
        assert_eq!(res.err(), Some(SubError::SvrInvalidResponse), "{:?}", reply);
    }
}

#[test]
fn search_call_holds_the_token_and_one_query() {
    let call = session("tok1").search_call("c2d0e2fa12289492", 100000, "eng");
    assert_eq!(call.method, "SearchSubtitles");
    assert_eq!(
        call.params,
        vec![
            RpcParam::Text("tok1".to_string()),
            RpcParam::Records(vec![vec![
                RpcField { name: "sublanguageid".to_string(), value: "eng".to_string() },
                RpcField { name: "moviehash".to_string(), value: "c2d0e2fa12289492".to_string() },
                RpcField { name: "moviebytesize".to_string(), value: "100000".to_string() },
            ]]),
        ]
    );
}

#[test]
fn search_gives_the_matches_in_order() {
    let reply = search_reply(
        "200 OK",
        vec![found("1", "http://host/sub.zip"), found("2", "http://host/other.zip")],
    );
    let subs = session("tok1").search_subtitles(&reply).unwrap();
    assert_eq!(
        subs,
        vec![
            SubtitleSearchResponse {
                IDSubMovieFile: "1".to_string(),
                ZipDownloadLink: "http://host/sub.zip".to_string(),
            },
            SubtitleSearchResponse {
                IDSubMovieFile: "2".to_string(),
                ZipDownloadLink: "http://host/other.zip".to_string(),
            },
        ]
    );
}

#[test]
fn search_without_match_finds_nothing() {
    let client = session("tok1");
    let empty = search_reply("200 OK", Vec::new());
    assert_eq!(client.search_subtitles(&empty), Err(SubError::SvrNoSubtitlesFound));
    let refused = search_reply("406 No session", vec![found("1", "http://host/sub.zip")]);
    assert_eq!(client.search_subtitles(&refused), Err(SubError::SvrNoSubtitlesFound));
    let both = search_reply("503", Vec::new());
    assert_eq!(client.search_subtitles(&both), Err(SubError::SvrNoSubtitlesFound));
}

#[test]
fn search_reply_of_another_shape_is_invalid() {
    let client = session("tok1");
    let replies = vec![
        record(vec![("status", text("200 OK"))]),
        record(vec![("data", RpcValue::List(Vec::new()))]),
        record(vec![("status", text("200 OK")), ("data", RpcValue::Other)]),
        record(vec![("status", RpcValue::Other), ("data", RpcValue::List(Vec::new()))]),
        search_reply("200 OK", vec![record(vec![("IDSubMovieFile", text("1"))])]),
        search_reply("200 OK", vec![record(vec![("ZipDownloadLink", text("http://h/s.zip"))])]),
        search_reply("200 OK", vec![found("1", "http://h/s.zip"), text("2")]),
        search_reply("401", vec![RpcValue::Other]),
        search_reply(
            "200 OK",
            vec![record(vec![("IDSubMovieFile", RpcValue::Other), ("ZipDownloadLink", text("x"))])],
        ),
        RpcValue::Other,
    ];
    for reply in &replies {
        assert_eq!(client.search_subtitles(reply), Err(SubError::SvrInvalidResponse), "{:?}", reply);
    }
}

#[test]
fn first_member_of_a_name_counts() {
    let members = vec![
        RpcMember { name: "a".to_string(), value: text("1") },
        RpcMember { name: "b".to_string(), value: text("2") },
        RpcMember { name: "a".to_string(), value: text("3") },
    ];
    assert_eq!(find_member(&members, "a"), Some(&text("1")));
    assert_eq!(find_member(&members, "b"), Some(&text("2")));
    assert_eq!(find_member(&members, "c"), None);
    assert_eq!(find_member(&Vec::new(), "a"), None);
}

#[test]
fn fields_are_read_by_kind() {
    let reply = record(vec![
        ("status", text("200 OK")),
        ("data", RpcValue::List(vec![text("x")])),
        ("seconds", RpcValue::Other),
    ]);
    assert_eq!(get_text(&reply, "status"), Some(&"200 OK".to_string()));
    assert_eq!(get_text(&reply, "data"), None);
    assert_eq!(get_text(&reply, "seconds"), None);
    assert_eq!(get_text(&reply, "missing"), None);
    assert_eq!(get_list(&reply, "data"), Some(&vec![text("x")]));
    assert_eq!(get_list(&reply, "status"), None);
    assert_eq!(get_text(&text("status"), "status"), None);
    assert_eq!(get_list(&RpcValue::List(Vec::new()), "data"), None);
}

#[test]
fn status_is_ok_when_it_begins_with_200() {
    assert!(status_is_ok("200 OK"));
    assert!(status_is_ok("200"));
    assert!(status_is_ok("2000"));
    assert!(!status_is_ok("20"));
    assert!(!status_is_ok(""));
    assert!(!status_is_ok("401 Unauthorized"));
    assert!(!status_is_ok(" 200"));
    assert!(!status_is_ok("201 Created"));
}

#[test]
fn decimal_has_no_leading_zeros() {
    assert_eq!(to_decimal(0), "0");
    assert_eq!(to_decimal(7), "7");
    assert_eq!(to_decimal(10), "10");
    assert_eq!(to_decimal(65536), "65536");
    assert_eq!(to_decimal(100000), "100000");
    assert_eq!(to_decimal(1_000_000_007), "1000000007");
    assert_eq!(to_decimal(u64::MAX), "18446744073709551615");
    assert_eq!(to_decimal(9_999_999_999_999_999_999), "9999999999999999999");
    assert_eq!(to_decimal(10_000_000_000_000_000_000), "10000000000000000000");
}
