//! The two calls to the subtitle catalog, and what its replies mean.
//!
//! `LogIn` takes the user's name and password, a language and the program's
//! name, and answers with a status and a token. `SearchSubtitles` takes the
//! token and a list of queries, each a language, a fingerprint and a size, and
//! answers with a status and a list of matches. A status that begins with
//! `200` reports success.

use vstd::prelude::*;
use vstd::string::*;
use vstd::arithmetic::div_mod::*;
use crate::error::SubError;
use crate::rpc::{
    get_list, get_text, is_ok_status, list_field, status_is_ok, text_field, CallModel, ParamModel,
    RpcCall, RpcField, RpcParam, RpcValue,
};

verus! {

/// The address of the catalog, to which every call is posted.
pub const OPENSUBTITLES_SERVER: &'static str = "http://api.opensubtitles.org/xml-rpc";

/// The decimal digit for `n`, where `0 <= n < 10`.
pub open spec fn decimal_digit(n: int) -> char {
    if n == 0 {
        '0'
    } else if n == 1 {
        '1'
    } else if n == 2 {
        '2'
    } else if n == 3 {
        '3'
    } else if n == 4 {
        '4'
    } else if n == 5 {
        '5'
    } else if n == 6 {
        '6'
    } else if n == 7 {
        '7'
    } else if n == 8 {
        '8'
    } else {
        '9'
    }
}

/// `v` in decimal, without leading zeros; `0` for zero.
pub open spec fn decimal_text(v: nat) -> Seq<char>
    decreases v,
{
    if v < 10 {
        seq![decimal_digit(v as int)]
    } else {
        decimal_text(v / 10).push(decimal_digit((v % 10) as int))
    }
}

fn decimal_digit_str(n: u64) -> (s: &'static str)
    requires
        n < 10,
    ensures
        s@ == seq![decimal_digit(n as int)],
{
    proof {
        reveal_strlit("0");
        reveal_strlit("1");
        reveal_strlit("2");
        reveal_strlit("3");
        reveal_strlit("4");
        reveal_strlit("5");
        reveal_strlit("6");
        reveal_strlit("7");
        reveal_strlit("8");
        reveal_strlit("9");
    }
    if n == 0 {
        "0"
    } else if n == 1 {
        "1"
    } else if n == 2 {
        "2"
    } else if n == 3 {
        "3"
    } else if n == 4 {
        "4"
    } else if n == 5 {
        "5"
    } else if n == 6 {
        "6"
    } else if n == 7 {
        "7"
    } else if n == 8 {
        "8"
    } else {
        "9"
    }
}

/// Ten to the power `e`.
pub open spec fn pow10(e: nat) -> int
    decreases e,
{
    if e == 0 {
        1
    } else {
        10 * pow10((e - 1) as nat)
    }
}

/// Writes `v` in decimal.
pub fn to_decimal(v: u64) -> (text: String)
    ensures
        text@ == decimal_text(v as nat),
{
    let mut div: u64 = 1;
    let ghost mut e: nat = 0;
    while v / div >= 10
        invariant
            1 <= div,
            div <= v || div == 1,
            div == pow10(e),
        decreases v - div,
    {
        proof {
            lemma_fundamental_div_mod(v as int, div as int);
            assert(div * (v / div) >= div * 10) by (nonlinear_arith)
                requires
                    v / div >= 10,
                    div >= 1,
            ;
            e = e + 1;
        }
        div = div * 10;
    }
    proof {
        if div <= v {
            lemma_div_non_zero(v as int, div as int);
        }
    }
    let mut text = String::from_str(decimal_digit_str(v / div));
    while div > 1
        invariant
            1 <= div,
            div == pow10(e),
            v == 0 || v / div >= 1,
            div <= v || div == 1,
            text@ == decimal_text((v / div) as nat),
        decreases div,
    {
        proof {
            e = (e - 1) as nat;
        }
        div = div / 10;
        let q: u64 = v / div;
        proof {
            lemma_div_denominator(v as int, div as int, 10);
        }
        text.append(decimal_digit_str(q % 10));
    }
    text
}

/// A session with the catalog: the token that a successful login gave.
#[derive(Debug)]
pub struct OpenSubtitlesClient {
    token: String,
}

/// One match of a search: the catalog's number for the file, and where the
/// subtitle's archive can be downloaded.
#[allow(non_snake_case)]
#[derive(Debug, PartialEq, Eq)]
pub struct SubtitleSearchResponse {
    pub IDSubMovieFile: String,
    pub ZipDownloadLink: String,
}

/// What a reply to `LogIn` says.
pub enum LoginReading {
    /// The reply is no record with a status and a token, both texts.
    Malformed,
    /// The status does not report success.
    Rejected,
    /// The login succeeded, with this token.
    Token(Seq<char>),
}

/// Reads a reply to `LogIn`. The shape is looked at first, then the status.
pub open spec fn read_login(reply: RpcValue) -> LoginReading {
    match (text_field(reply, "status"@), text_field(reply, "token"@)) {
        (Some(status), Some(token)) => if is_ok_status(status) {
            LoginReading::Token(token)
        } else {
            LoginReading::Rejected
        },
        _ => LoginReading::Malformed,
    }
}

/// The match that one item of a search's result list holds: its number and
/// its link, where it is a record with both as texts.
pub open spec fn as_match(item: RpcValue) -> Option<(Seq<char>, Seq<char>)> {
    match (text_field(item, "IDSubMovieFile"@), text_field(item, "ZipDownloadLink"@)) {
        (Some(id), Some(link)) => Some((id, link)),
        _ => None,
    }
}

/// What a reply to `SearchSubtitles` says.
pub enum SearchReading {
    /// The reply is no record with a text as status and a list of matches as
    /// data.
    Malformed,
    /// The status does not report success, or the list is empty.
    NoResults,
    /// The matches, in the catalog's order. There is at least one.
    Matches(Seq<(Seq<char>, Seq<char>)>),
}

/// Reads a reply to `SearchSubtitles`. The shape is looked at first, every
/// item of the list included, then the status, then the length of the list.
pub open spec fn read_search(reply: RpcValue) -> SearchReading {
    match (text_field(reply, "status"@), list_field(reply, "data"@)) {
        (Some(status), Some(items)) => if exists|i: int|
            0 <= i < items.len() && as_match(#[trigger] items[i]) is None {
            SearchReading::Malformed
        } else if !is_ok_status(status) || items.len() == 0 {
            SearchReading::NoResults
        } else {
            SearchReading::Matches(items.map_values(|item: RpcValue| as_match(item).unwrap()))
        },
        _ => SearchReading::Malformed,
    }
}

/// The parameters of a `LogIn` call.
pub open spec fn login_params(
    username: Seq<char>,
    password: Seq<char>,
    lang: Seq<char>,
    useragent: Seq<char>,
) -> Seq<ParamModel> {
    seq![
        ParamModel::Text(username),
        ParamModel::Text(password),
        ParamModel::Text(lang),
        ParamModel::Text(useragent),
    ]
}

/// The parameters of a `SearchSubtitles` call: the token, and a list of one
/// query with the language, the fingerprint and the size in decimal.
pub open spec fn search_params(
    token: Seq<char>,
    hash: Seq<char>,
    size: u64,
    lang: Seq<char>,
) -> Seq<ParamModel> {
    seq![
        ParamModel::Text(token),
        ParamModel::Records(
            seq![
                seq![
                    ("sublanguageid"@, lang),
                    ("moviehash"@, hash),
                    ("moviebytesize"@, decimal_text(size as nat)),
                ],
            ],
        ),
    ]
}

/// What the matches of a search hold.
pub open spec fn matches_view(found: Seq<SubtitleSearchResponse>) -> Seq<(Seq<char>, Seq<char>)> {
    found.map_values(|m: SubtitleSearchResponse| (m.IDSubMovieFile@, m.ZipDownloadLink@))
}

fn text_param(text: &str) -> (param: RpcParam)
    ensures
        param@ == ParamModel::Text(text@),
{
    RpcParam::Text(String::from_str(text))
}

fn field(name: &str, value: String) -> (made: RpcField)
    ensures
        made@ == (name@, value@),
{
    RpcField { name: String::from_str(name), value }
}

impl OpenSubtitlesClient {
    /// The session's token.
    pub closed spec fn token_text(&self) -> Seq<char> {
        self.token@
    }

    /// The session's token.
    pub fn token(&self) -> (token: &String)
        ensures
            token@ == self.token_text(),
    {
        &self.token
    }

    /// The `LogIn` call for these credentials.
    pub fn login_call(username: &str, password: &str, lang: &str, useragent: &str) -> (call:
        RpcCall)
        ensures
            call@.method == "LogIn"@,
            call@.params == login_params(username@, password@, lang@, useragent@),
    {
        let mut params: Vec<RpcParam> = Vec::new();
        params.push(text_param(username));
        params.push(text_param(password));
        params.push(text_param(lang));
        params.push(text_param(useragent));
        RpcCall { method: String::from_str("LogIn"), params }
    }

    /// Opens a session from the catalog's reply to `LogIn`.
    ///
    /// A reply that is no record with `status` and `token`, both texts, gives
    /// `SvrInvalidResponse`. A status that does not begin with `200` gives
    /// `SvrInvalidCredentials`. Any other reply gives the session with the
    /// reply's token.
    pub fn create_client(reply: &RpcValue) -> (result: Result<OpenSubtitlesClient, SubError>)
        ensures
            match read_login(*reply) {
                LoginReading::Malformed => result matches Err(SubError::SvrInvalidResponse),
                LoginReading::Rejected => result matches Err(SubError::SvrInvalidCredentials),
                LoginReading::Token(token) => result matches Ok(client) && client.token_text()
                    == token,
            },
    {
        let status = match get_text(reply, "status") {
            Some(status) => status,
            None => {
                return Err(SubError::SvrInvalidResponse);
            },
        };
        let token = match get_text(reply, "token") {
            Some(token) => token,
            None => {
                return Err(SubError::SvrInvalidResponse);
            },
        };
        if status_is_ok(status.as_str()) {
            Ok(OpenSubtitlesClient { token: token.clone() })
        } else {
            Err(SubError::SvrInvalidCredentials)
        }
    }

    /// The `SearchSubtitles` call of this session for a file with this
    /// fingerprint and size, for subtitles in this language.
    pub fn search_call(&self, hash: &str, size: u64, lang: &str) -> (call: RpcCall)
        ensures
            call@.method == "SearchSubtitles"@,
            call@.params == search_params(self.token_text(), hash@, size, lang@),
    {
        let mut query: Vec<RpcField> = Vec::new();
        query.push(field("sublanguageid", String::from_str(lang)));
        query.push(field("moviehash", String::from_str(hash)));
        query.push(field("moviebytesize", to_decimal(size)));
        let mut queries: Vec<Vec<RpcField>> = Vec::new();
        queries.push(query);
        let ghost records = queries@;
        let mut params: Vec<RpcParam> = Vec::new();
        params.push(text_param(self.token.as_str()));
        params.push(RpcParam::Records(queries));
        let call = RpcCall { method: String::from_str("SearchSubtitles"), params };
        proof {
            let expected = search_params(self.token_text(), hash@, size, lang@);
            let inner = records.map_values(
                |record: Vec<RpcField>| record@.map_values(|f: RpcField| f@),
            );
            assert(inner[0] =~= seq![
                ("sublanguageid"@, lang@),
                ("moviehash"@, hash@),
                ("moviebytesize"@, decimal_text(size as nat)),
            ]);
            assert(inner =~= expected[1]->Records_0);
        }
        call
    }

    /// Reads the catalog's reply to `SearchSubtitles`.
    ///
    /// A reply that is no record with a text `status` and a list `data`, each
    /// item of it a record with the texts `IDSubMovieFile` and
    /// `ZipDownloadLink`, gives `SvrInvalidResponse`. A status that does not
    /// begin with `200`, and an empty list, give `SvrNoSubtitlesFound`. Any
    /// other reply gives the matches in the reply's order.
    pub fn search_subtitles(&self, reply: &RpcValue) -> (result: Result<
        Vec<SubtitleSearchResponse>,
        SubError,
    >)
        ensures
            match read_search(*reply) {
                SearchReading::Malformed => result matches Err(SubError::SvrInvalidResponse),
                SearchReading::NoResults => result matches Err(SubError::SvrNoSubtitlesFound),
                SearchReading::Matches(found) => result matches Ok(subs) && matches_view(subs@)
                    == found && subs@.len() > 0,
            },
    {
        let status = match get_text(reply, "status") {
            Some(status) => status,
            None => {
                return Err(SubError::SvrInvalidResponse);
            },
        };
        let items = match get_list(reply, "data") {
            Some(items) => items,
            None => {
                return Err(SubError::SvrInvalidResponse);
            },
        };
        let mut subs: Vec<SubtitleSearchResponse> = Vec::new();
        let mut i: usize = 0;
        while i < items.len()
            invariant
                i <= items.len(),
                subs@.len() == i,
                text_field(*reply, "status"@) == Some(status@),
                list_field(*reply, "data"@) == Some(items@),
                forall|k: int| 0 <= k < i ==> as_match(#[trigger] items@[k]) is Some,
                forall|k: int|
                    0 <= k < i ==> (
                    #[trigger] subs@[k].IDSubMovieFile@,
                    subs@[k].ZipDownloadLink@,
                    ) == as_match(items@[k]).unwrap(),
            decreases items.len() - i,
        {
            let id = match get_text(&items[i], "IDSubMovieFile") {
                Some(id) => id,
                None => {
                    return Err(SubError::SvrInvalidResponse);
                },
            };
            let link = match get_text(&items[i], "ZipDownloadLink") {
                Some(link) => link,
                None => {
                    return Err(SubError::SvrInvalidResponse);
                },
            };
            subs.push(SubtitleSearchResponse { IDSubMovieFile: id.clone(), ZipDownloadLink: link.clone() });
            i = i + 1;
        }
        if !status_is_ok(status.as_str()) || subs.len() == 0 {
            return Err(SubError::SvrNoSubtitlesFound);
        }
        proof {
            assert(matches_view(subs@) =~= items@.map_values(
                |item: RpcValue| as_match(item).unwrap(),
            ));
        }
        Ok(subs)
    }
}

} // verus!
