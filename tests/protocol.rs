use nntpbytes::decoder::{parse_decimal, position, Decoder};
use nntpbytes::exchange::{Exchange, Phase};
use nntpbytes::framing::{decode_response, encode, Encode, GenericMessage};
use nntpbytes::messages::article::{ArticleRequest, ArticleResponse};
use nntpbytes::messages::auth::{AuthinfoMode, AuthinfoRequest, AuthinfoResponse};
use nntpbytes::messages::capabilities::{CapabilitiesRequest, CapabilitiesResponse};
use nntpbytes::messages::date::{DateRequest, DateResponse};
use nntpbytes::messages::greeting::GreetingResponse;
use nntpbytes::messages::group::{GroupRequest, GroupResponse};
use nntpbytes::messages::head::{add_header_exec, fold_header_exec, HeadRequest, HeadResponse, HeadType};
use nntpbytes::messages::list::{
    GroupListResponse, GroupNewsgroupResponse, GroupStatus, GroupTimesResponse, ListRequest,
};
use nntpbytes::messages::newsgroups::{NewsDate, NewsgroupsRequest, NewsgroupsResponse};
use nntpbytes::messages::xover::{parse_datetime, RangeType, XoverRequest, XoverResponse};
use nntpbytes::server::NewsServer;
use nntpbytes::Error;

fn encoded<T: Encode>(request: &T) -> Vec<u8> {
    let mut d = Decoder::new();
    encode(request, &mut d);
    d.as_slice().to_vec()
}

fn decoded<T: nntpbytes::framing::Decode>(s: &str) -> Result<GenericMessage<T>, Error> {
    decode_response::<T>(s.as_bytes())
}

fn error_of<T: nntpbytes::framing::Decode>(s: &str) -> Error {
    match decoded::<T>(s) {
        Ok(_) => panic!("decoded unexpectedly"),
        Err(e) => e,
    }
}

#[test]
fn greeting_round_trip_is_success() {
    let m = decoded::<GreetingResponse>("200 news.example.org ready\r\n").unwrap();
    assert_eq!(m.code(), 200);
    assert!(m.ok());
    assert_eq!(m.kind().greeting(), "news.example.org ready");
}

#[test]
fn auth_codes_classify_success() {
    let m = decoded::<AuthinfoResponse>("381 password required\r\n").unwrap();
    assert!(m.ok());
    assert_eq!(m.kind().text(), "password required");
    let m = decoded::<AuthinfoResponse>("281 accepted\r\n").unwrap();
    assert!(m.ok());
    let m = decoded::<AuthinfoResponse>("502 denied\r\n").unwrap();
    assert_eq!(m.code(), 502);
    assert!(!m.ok());
}

#[test]
fn group_not_found_is_default_and_not_ok() {
    let m = decoded::<GroupResponse>("411 no such group\r\n").unwrap();
    assert!(!m.ok());
    assert_eq!(m.kind().number(), 0);
    assert_eq!(m.kind().low(), 0);
    assert_eq!(m.kind().high(), 0);
    assert_eq!(m.kind().group(), "");
}

#[test]
fn capabilities_multi_line() {
    let m = decoded::<CapabilitiesResponse>("101 Capability list:\r\nVERSION 2\r\nREADER\r\n.\r\n")
        .unwrap();
    assert!(m.ok());
    assert_eq!(m.kind().text(), &vec!["VERSION 2".to_string(), "READER".to_string()]);
}

#[test]
fn date_single_line() {
    let m = decoded::<DateResponse>("111 20240102030405\r\n").unwrap();
    assert_eq!(m.kind().text(), "20240102030405");
}

#[test]
fn incremental_delivery_matches_whole() {
    let mut ex = Exchange::new();
    assert_eq!(ex.phase(), Phase::AwaitingResponse);
    assert!(matches!(ex.receive::<GreetingResponse>(b"20"), Ok(None)));
    assert!(matches!(ex.receive::<GreetingResponse>(b"0 hel"), Ok(None)));
    let m = match ex.receive::<GreetingResponse>(b"lo\r\n") {
        Ok(Some(m)) => m,
        _ => panic!("expected a greeting"),
    };
    assert_eq!(m.code(), 200);
    assert_eq!(m.kind().greeting(), "hello");
    assert_eq!(ex.phase(), Phase::Idle);

    let whole = decoded::<GreetingResponse>("200 hello\r\n").unwrap();
    assert_eq!(whole.code(), m.code());
    assert_eq!(whole.kind().greeting(), m.kind().greeting());
}

#[test]
fn incremental_multi_line_delivery() {
    let mut ex = Exchange::new();
    let chunks: [&[u8]; 4] = [b"215 list\r\n", b"alt.a 5 1 y\r\n", b"alt.b 3 1 n\r\n.", b"\r\n"];
    for c in &chunks[..3] {
        assert!(matches!(ex.receive::<GroupListResponse>(*c), Ok(None)));
    }
    match ex.receive::<GroupListResponse>(chunks[3]) {
        Ok(Some(m)) => assert_eq!(m.kind().groups().len(), 2),
        _ => panic!("expected a list"),
    }
}

#[test]
fn unknown_code_is_rejected() {
    assert_eq!(error_of::<GreetingResponse>("999 what\r\n"), Error::UnexpectedResponseCode(999));
    let mut ex = Exchange::new();
    assert!(matches!(ex.receive::<GreetingResponse>(b"999 wh"), Ok(None)));
    assert_eq!(
        ex.receive::<GreetingResponse>(b"at\r\n").err(),
        Some(Error::UnexpectedResponseCode(999))
    );
    assert_eq!(ex.phase(), Phase::Unusable);
    assert_eq!(ex.begin(), Err(Error::ConnectionUnusable));
}

#[test]
fn incomplete_responses_need_more_bytes() {
    assert_eq!(error_of::<GreetingResponse>("200 hel"), Error::DecodeNeedMoreBytes);
    assert_eq!(error_of::<GreetingResponse>("\r\n"), Error::DecodeNeedMoreBytes);
    assert_eq!(
        error_of::<CapabilitiesResponse>("101 caps\r\nREADER\r\n"),
        Error::DecodeNeedMoreBytes
    );
}

#[test]
fn malformed_status_code_is_decode_error() {
    assert_eq!(error_of::<GreetingResponse>("2x0 hi\r\n"), Error::DecodeError);
}

#[test]
fn multi_line_terminator_is_exact() {
    let m = decoded::<GroupListResponse>("215 list\r\nalt.a 5 1 y\r\nalt.b 3 1 n\r\n.\r\n").unwrap();
    let groups = m.kind().groups();
    assert_eq!(groups.len(), 2);
    assert_eq!(groups[0].name(), "alt.a");
    assert_eq!(groups[0].high(), 5);
    assert_eq!(groups[0].low(), 1);
    assert_eq!(groups[0].status(), GroupStatus::PostingPermitted);
    assert_eq!(groups[1].name(), "alt.b");
    assert_eq!(groups[1].high(), 3);
    assert_eq!(groups[1].status(), GroupStatus::PostingNotPermitted);
}

#[test]
fn unknown_group_status_is_rejected() {
    assert_eq!(
        error_of::<GroupListResponse>("215 list\r\nalt.a 5 1 x\r\n.\r\n"),
        Error::DecodeFromStr
    );
}

#[test]
fn list_times_and_newsgroups() {
    let m = decoded::<GroupTimesResponse>("215 times\r\nalt.a 1700000000 alice\r\n.\r\n").unwrap();
    let g = &m.kind().groups()[0];
    assert_eq!(g.name(), "alt.a");
    assert_eq!(g.age(), 1700000000);
    assert_eq!(g.creator(), "alice");
    let m = decoded::<GroupNewsgroupResponse>("215 descriptions\r\nalt.a Testing group\r\n.\r\n")
        .unwrap();
    let g = &m.kind().groups()[0];
    assert_eq!(g.name(), "alt.a");
    assert_eq!(g.description(), "Testing");
}

#[test]
fn header_folding() {
    let m = decoded::<HeadResponse>(
        "221 7 <a@b>\r\nSubject: Hello\r\n World\r\nFrom:  x@y  \r\nX-Tag: one\r\nX-Tag: two\r\n.\r\n",
    )
    .unwrap();
    let h = m.kind();
    assert_eq!(h.number(), 7);
    assert_eq!(h.id(), "<a@b>");
    let headers = h.headers();
    assert_eq!(headers.len(), 3);
    assert_eq!(headers[0].0, "Subject");
    assert_eq!(headers[0].1, vec!["Hello World".to_string()]);
    assert_eq!(headers[1].0, "From");
    assert_eq!(headers[1].1, vec!["x@y".to_string()]);
    assert_eq!(headers[2].0, "X-Tag");
    assert_eq!(headers[2].1, vec!["one".to_string(), "two".to_string()]);
}

#[test]
fn folded_line_without_header_is_ignored() {
    let m = decoded::<HeadResponse>("221 7 <a@b>\r\n orphan\r\nSubject: Hi\r\n.\r\n").unwrap();
    let headers = m.kind().headers();
    assert_eq!(headers.len(), 1);
    assert_eq!(headers[0].1, vec!["Hi".to_string()]);
}

#[test]
fn head_not_found_is_default() {
    let m = decoded::<HeadResponse>("430 no such article\r\n.\r\n").unwrap();
    assert!(!m.ok());
    assert_eq!(m.kind().number(), 0);
    assert!(m.kind().headers().is_empty());
}

#[test]
fn article_body_follows_headers() {
    let m = decoded::<ArticleResponse>("220 3 <m@x>\r\nSubject: S\r\n\r\nline one\r\nline two\r\n.\r\n")
        .unwrap();
    let a = m.kind();
    assert_eq!(a.number(), 3);
    assert_eq!(a.id(), "<m@x>");
    assert_eq!(a.headers()[0].1, vec!["S".to_string()]);
    assert_eq!(a.body(), &b"line one\r\nline two".to_vec());
    let m = decoded::<ArticleResponse>("430 no such article\r\n").unwrap();
    assert!(!m.ok());
    assert!(m.kind().body().is_empty());
}

#[test]
fn group_field_tokenizer_round_trip() {
    assert_eq!(encoded(&GroupRequest::new("alt.test".to_string())), b"GROUP alt.test\r\n".to_vec());
    let m = decoded::<GroupResponse>("211 5 1 5 alt.test\r\n").unwrap();
    assert!(m.ok());
    assert_eq!(m.kind().number(), 5);
    assert_eq!(m.kind().low(), 1);
    assert_eq!(m.kind().high(), 5);
    assert_eq!(m.kind().group(), "alt.test");
}

#[test]
fn group_with_bad_number_is_decode_error() {
    assert_eq!(error_of::<GroupResponse>("211 five 1 5 alt.test\r\n"), Error::DecodeError);
}

#[test]
fn invalid_utf8_is_decode_error() {
    assert_eq!(
        decode_response::<GreetingResponse>(b"200 \xff\xfe\r\n").err(),
        Some(Error::DecodeError)
    );
}

#[test]
fn address_defaulting() {
    let s = NewsServer::parse("news.example.org").unwrap();
    assert_eq!(s.name(), "news.example.org");
    assert_eq!(s.port(), 563);
    let s = NewsServer::parse("news.example.org:119").unwrap();
    assert_eq!(s.name(), "news.example.org");
    assert_eq!(s.port(), 119);
    assert_eq!(s.addr(), b"news.example.org:119".to_vec());
    assert_eq!(NewsServer::parse("").err(), Some(Error::ServerNameNotFound));
    assert_eq!(NewsServer::parse(":119").err(), Some(Error::ServerNameNotFound));
    assert_eq!(NewsServer::parse("host:99999").err(), Some(Error::ServerPortInvalid));
    assert_eq!(NewsServer::parse("host:").err(), Some(Error::ServerPortInvalid));
}

#[test]
fn half_duplex_discipline() {
    let mut ex = Exchange::new();
    assert_eq!(ex.begin(), Err(Error::RequestInFlight));
    assert!(matches!(ex.receive::<GreetingResponse>(b"200 hi\r\n"), Ok(Some(_))));
    assert_eq!(ex.begin(), Ok(()));
    assert_eq!(ex.begin(), Err(Error::RequestInFlight));
    assert_eq!(ex.phase(), Phase::AwaitingResponse);
}

#[test]
fn receive_without_request_is_refused() {
    let mut ex = Exchange::new();
    assert!(matches!(ex.receive::<GreetingResponse>(b"200 hi\r\n"), Ok(Some(_))));
    assert_eq!(
        ex.receive::<DateResponse>(b"111 x\r\n").err(),
        Some(Error::NoRequestInFlight)
    );
    ex.fail();
    assert_eq!(ex.phase(), Phase::Unusable);
}

#[test]
fn request_encodings() {
    assert_eq!(
        encoded(&AuthinfoRequest::new(AuthinfoMode::Username, "me".to_string())),
        b"AUTHINFO USER me\r\n".to_vec()
    );
    assert_eq!(
        encoded(&AuthinfoRequest::new(AuthinfoMode::Password, "pw!".to_string())),
        b"AUTHINFO PASS pw!\r\n".to_vec()
    );
    assert_eq!(encoded(&CapabilitiesRequest::new()), b"CAPABILITIES\r\n".to_vec());
    assert_eq!(encoded(&DateRequest::new()), b"DATE\r\n".to_vec());
    assert_eq!(encoded(&ListRequest::new(None, None)), b"LIST\r\n".to_vec());
    assert_eq!(
        encoded(&ListRequest::new(Some("ACTIVE".to_string()), Some("alt.*".to_string()))),
        b"LIST ACTIVE alt.*\r\n".to_vec()
    );
    assert_eq!(encoded(&ListRequest::new(None, Some("x".to_string()))), b"LIST\r\n".to_vec());
    assert_eq!(
        encoded(&HeadRequest::new(HeadType::MessageId("a@b".to_string()))),
        b"HEAD <a@b>\r\n".to_vec()
    );
    assert_eq!(encoded(&HeadRequest::new(HeadType::MessageNumber(42))), b"HEAD 42\r\n".to_vec());
    assert_eq!(encoded(&ArticleRequest::new(HeadType::Empty)), b"ARTICLE\r\n".to_vec());
    assert_eq!(encoded(&HeadRequest::new(HeadType::Empty)), b"HEAD\r\n".to_vec());
    assert_eq!(
        encoded(&ArticleRequest::new(HeadType::MessageNumber(9))),
        b"ARTICLE 9\r\n".to_vec()
    );
    assert_eq!(encoded(&XoverRequest::new(RangeType::Single(7))), b"XOVER 7\r\n".to_vec());
    assert_eq!(encoded(&XoverRequest::new(RangeType::Start(10))), b"XOVER 10-\r\n".to_vec());
    assert_eq!(
        encoded(&XoverRequest::new(RangeType::StartEnd(10, 205))),
        b"XOVER 10-205\r\n".to_vec()
    );
    let d = NewsDate::new(2024, 1, 2, 3, 4, 5).unwrap();
    assert_eq!(encoded(&NewsgroupsRequest::new(d)), b"NEWGROUPS 20240102 030405\r\n".to_vec());
    assert!(NewsDate::new(2024, 13, 2, 3, 4, 5).is_none());
}

#[test]
fn newsgroups_lines() {
    let m = decoded::<NewsgroupsResponse>("231 new groups\r\nalt.new\r\ncomp.new\r\n.\r\n").unwrap();
    assert_eq!(m.kind().groups(), &vec!["alt.new".to_string(), "comp.new".to_string()]);
}

#[test]
fn xover_records_and_dates() {
    let m = decoded::<XoverResponse>(
        "224 overview\r\n1\tFirst\tann@x\tTue, 1 Jul 2003 10:52:37 +0200\r\n2\tSecond\tbob@x\tnot a date\r\n3\tThird\tcid@x\tThu, 02 Jan 20 03:04:05 GMT\r\n.\r\n",
    )
    .unwrap();
    let msgs = m.kind().messages();
    assert_eq!(msgs.len(), 2);
    assert_eq!(msgs[0].number(), 1);
    assert_eq!(msgs[0].subject(), "First");
    assert_eq!(msgs[0].author(), "ann@x");
    assert_eq!(msgs[0].date(), 1057049557);
    assert_eq!(msgs[1].number(), 3);
    assert_eq!(msgs[1].date(), 1577934245);
}

#[test]
fn datetime_fallback_formats() {
    assert_eq!(parse_datetime("Tue, 1 Jul 2003 10:52:37 +0200"), Some(1057049557));
    assert_eq!(parse_datetime("Thu, 02 Jan 2020 03:04:05 UTC"), Some(1577934245));
    assert_eq!(parse_datetime("yesterday"), None);
}

#[test]
fn cursor_primitives() {
    let mut d = Decoder::from_slice(b"12 ab\r\nrest");
    assert_eq!(d.get_usize(), Ok(12));
    assert_eq!(d.get_string(), Ok("ab".to_string()));
    assert_eq!(d.as_slice(), b"rest");
    let mut d = Decoder::from_slice(b"one\r\ntwo");
    assert_eq!(d.get_line(), Ok(Some("one".to_string())));
    assert_eq!(d.get_line(), Ok(Some("two".to_string())));
    assert_eq!(d.get_line(), Ok(None));
    let mut d = Decoder::from_slice(b"a\tb c\r\n");
    assert_eq!(d.get_string_with_delimiter(b"\t"), Ok("a".to_string()));
    assert_eq!(d.all_string(), Ok("b c\r\n".to_string()));
    assert_eq!(position(b"xx\r\n.\r\n", b"\r\n.\r\n"), Some(2));
    assert_eq!(position(b"abc", b"d"), None);
    assert_eq!(parse_decimal(b"+42", 100), Some(42));
    assert_eq!(parse_decimal(b"101", 100), None);
    assert_eq!(parse_decimal(b"-1", 100), None);
    assert_eq!(parse_decimal(b"", 100), None);
}

#[test]
fn continuation_line_with_colon_folds() {
    let m = decoded::<HeadResponse>("221 1 <a@b>\r\nSubject: a\r\n b: c\r\n.\r\n").unwrap();
    let headers = m.kind().headers();
    assert_eq!(headers.len(), 1);
    assert_eq!(headers[0].0, "Subject");
    assert_eq!(headers[0].1, vec!["a b: c".to_string()]);
}

#[test]
fn tab_continuation_and_unicode_whitespace() {
    let m = decoded::<HeadResponse>(
        "221 1 <a@b>\r\nSubject:\u{a0}Hi\u{3000}\r\n\tthere\r\nNo colon here\r\n.\r\n",
    )
    .unwrap();
    let headers = m.kind().headers();
    assert_eq!(headers.len(), 1);
    assert_eq!(headers[0].1, vec!["Hi there".to_string()]);
}

#[test]
fn status_line_needs_three_digits_and_a_space() {
    assert_eq!(error_of::<GreetingResponse>("+12 x\r\n"), Error::DecodeError);
    assert_eq!(error_of::<GreetingResponse>("200x hi\r\n"), Error::DecodeError);
    assert_eq!(error_of::<GreetingResponse>("200\r\n"), Error::DecodeError);
    assert_eq!(error_of::<GreetingResponse>("20 hi\r\n"), Error::DecodeError);
}

#[test]
fn header_map_updates() {
    let mut h: Vec<(String, Vec<String>)> = Vec::new();
    add_header_exec(&mut h, "A".to_string(), "1".to_string());
    add_header_exec(&mut h, "B".to_string(), "2".to_string());
    add_header_exec(&mut h, "A".to_string(), "3".to_string());
    assert_eq!(h.len(), 2);
    assert_eq!(h[0].1, vec!["1".to_string(), "3".to_string()]);
    fold_header_exec(&mut h, &Some("A".to_string()), "more");
    assert_eq!(h[0].1, vec!["1".to_string(), "3 more".to_string()]);
    fold_header_exec(&mut h, &None, "ignored");
    fold_header_exec(&mut h, &Some("Z".to_string()), "ignored");
    assert_eq!(h[0].1, vec!["1".to_string(), "3 more".to_string()]);
    assert_eq!(h[1].1, vec!["2".to_string()]);
}

#[test]
fn cursor_truncate_and_error_text() {
    let mut d = Decoder::from_slice(b"abcdef");
    d.truncate(10);
    assert_eq!(d.as_slice(), b"abcdef");
    d.truncate(3);
    assert_eq!(d.as_slice(), b"abc");
    assert_eq!(Error::Eof.message(), "Stream closed");
    assert_eq!(Error::UnexpectedResponseCode(7).message(), "Unexpected response code");
}
