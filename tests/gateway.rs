use ockam_enroll::codec::{
    decode_attributes, decode_auth0, decode_authenticate_enrollment, decode_enrollment_token,
    encode_attributes, encode_auth0, encode_authenticate_enrollment, encode_enrollment_token,
    encode_request_enrollment,
};
use ockam_enroll::gateway::{
    plan_request, select_flow, Action, Call, Event, Method, Phase, Reply, Request, Response,
    Session, Status,
};
use ockam_enroll::model::{
    Attributes, Auth0Token, AuthenticateAuth0Token, AuthenticateEnrollmentToken,
    AuthenticateToken, EnrollmentToken, RequestEnrollmentToken, Token, TokenType,
};

fn admin() -> Attributes {
    Attributes { entries: vec![("role".to_string(), "admin".to_string())] }
}

fn request(id: u32, method: Method, path: &str, body: Option<Vec<u8>>) -> Request {
    Request { id, method, path: path.to_string(), body }
}

fn bad_request(id: u32) -> Action {
    Action::Finish(Reply::Local(Response { id, status: Status::BadRequest, body: None }))
}

fn redeem_body(token: &str) -> Vec<u8> {
    encode_authenticate_enrollment(&AuthenticateEnrollmentToken::new(EnrollmentToken::new(
        Token::new(token),
    )))
}

fn bearer_body(token: &str) -> Vec<u8> {
    encode_auth0(&AuthenticateAuth0Token::new(Auth0Token {
        token_type: TokenType::Bearer,
        access_token: Token::new(token),
    }))
}

#[test]
fn issuing_a_token_forwards_the_attributes_and_the_answer() {
    let body = encode_attributes(&admin());
    let (s, a) = Session::start(&request(1, Method::Post, "/", Some(body)));
    assert_eq!(a, Action::OpenChannel);
    let expected = Call {
        service: "enrollment_token_authenticator".to_string(),
        path: "/".to_string(),
        body: encode_request_enrollment(&RequestEnrollmentToken::new(admin())),
    };
    assert_eq!(s.phase, Phase::Opening { id: 1, call: expected.clone() });
    let (s, a) = s.step(Event::ChannelOpened(7));
    assert_eq!(a, Action::Send { channel: 7, call: expected });
    let minted = encode_enrollment_token(&EnrollmentToken::new(Token::new("tok-123")));
    let (s, a) = s.step(Event::CallSucceeded(minted.clone()));
    assert_eq!(a, Action::CloseChannel(7));
    let (s, a) = s.step(Event::ChannelClosed);
    assert!(s.is_done());
    assert_eq!(a, Action::Finish(Reply::Forwarded(minted.clone())));
    let token = decode_enrollment_token(&minted).unwrap();
    assert_eq!(token.token, Token::new("tok-123"));
}

#[test]
fn redeeming_a_token_goes_to_the_enrollment_authenticator() {
    let body = redeem_body("tok-123");
    let (s, a) = Session::start(&request(2, Method::Post, "/enroll", Some(body.clone())));
    assert_eq!(a, Action::OpenChannel);
    let call = Call {
        service: "enrollment_token_authenticator".to_string(),
        path: "/enroll".to_string(),
        body,
    };
    assert_eq!(s.phase, Phase::Opening { id: 2, call: call.clone() });
    let (s, a) = s.step(Event::ChannelOpened(3));
    assert_eq!(a, Action::Send { channel: 3, call });
    let answer = vec![0x01u8, 0x02, 0x03];
    let (s, a) = s.step(Event::CallSucceeded(answer.clone()));
    assert_eq!(a, Action::CloseChannel(3));
    let (_, a) = s.step(Event::ChannelClosed);
    assert_eq!(a, Action::Finish(Reply::Forwarded(answer)));
}

#[test]
fn unreachable_authenticator_gives_internal_server_error() {
    let body = redeem_body("tok-123");
    let (s, _) = Session::start(&request(2, Method::Post, "/enroll", Some(body)));
    let (s, _) = s.step(Event::ChannelOpened(9));
    let (s, a) = s.step(Event::CallFailed("connection refused".to_string()));
    assert_eq!(a, Action::CloseChannel(9));
    let (s, a) = s.step(Event::ChannelClosed);
    assert!(s.is_done());
    assert_eq!(
        a,
        Action::Finish(Reply::Local(Response {
            id: 2,
            status: Status::InternalServerError,
            body: Some("connection refused".to_string()),
        }))
    );
}

#[test]
fn unknown_path_is_a_bad_request_without_channel() {
    let body = redeem_body("tok-123");
    let (s, a) = Session::start(&request(4, Method::Post, "/unknown", Some(body)));
    assert_eq!(a, bad_request(4));
    assert_eq!(s.phase, Phase::Done);
    let (s, a) = s.step(Event::ChannelOpened(1));
    assert_eq!(a, Action::Wait);
    assert!(s.is_done());
}

#[test]
fn other_methods_and_missing_bodies_are_bad_requests() {
    let body = encode_attributes(&admin());
    let (_, a) = Session::start(&request(5, Method::Get, "/", Some(body.clone())));
    assert_eq!(a, bad_request(5));
    let (_, a) = Session::start(&request(6, Method::Put, "/enroll", Some(redeem_body("x"))));
    assert_eq!(a, bad_request(6));
    let (_, a) = Session::start(&request(7, Method::Post, "/", None));
    assert_eq!(a, bad_request(7));
    let (_, a) = Session::start(&request(8, Method::Post, "/enroll", None));
    assert_eq!(a, bad_request(8));
}

#[test]
fn undecodable_enroll_body_is_a_bad_request() {
    let (s, a) = Session::start(&request(3, Method::Post, "/enroll", Some(vec![0xa0])));
    assert_eq!(a, bad_request(3));
    assert!(s.is_done());
    // attributes are no authentication
    let attrs = encode_attributes(&admin());
    let (_, a) = Session::start(&request(3, Method::Post, "/enroll", Some(attrs)));
    assert_eq!(a, bad_request(3));
    // a minted token must be turned into its redemption form first
    let minted = encode_enrollment_token(&EnrollmentToken::new(Token::new("tok-123")));
    let (_, a) = Session::start(&request(3, Method::Post, "/enroll", Some(minted)));
    assert_eq!(a, bad_request(3));
}

#[test]
fn undecodable_issue_body_is_a_bad_request() {
    let (_, a) = Session::start(&request(3, Method::Post, "/", Some(redeem_body("tok"))));
    assert_eq!(a, bad_request(3));
    let (_, a) = Session::start(&request(3, Method::Post, "/", Some(vec![])));
    assert_eq!(a, bad_request(3));
}

#[test]
fn bearer_body_goes_to_the_bearer_authenticator() {
    let body = bearer_body("access_token");
    let call = plan_request(&request(1, Method::Post, "/enroll", Some(body.clone()))).unwrap();
    assert_eq!(call.service, "auth0_authenticator");
    assert_eq!(call.path, "/enroll");
    assert_eq!(call.body, body);
}

#[test]
fn channel_open_failure_aborts_without_close() {
    let (s, _) = Session::start(&request(2, Method::Post, "/enroll", Some(redeem_body("t"))));
    let (s, a) = s.step(Event::ChannelOpenFailed("no route".to_string()));
    assert_eq!(a, Action::Abort("no route".to_string()));
    assert!(s.is_done());
}

#[test]
fn events_out_of_turn_are_ignored() {
    let (s, _) = Session::start(&request(2, Method::Post, "/enroll", Some(redeem_body("t"))));
    let before = s.phase.clone();
    let (s, a) = s.step(Event::ChannelClosed);
    assert_eq!(a, Action::Wait);
    assert_eq!(s.phase, before);
    let (s, _) = s.step(Event::ChannelOpened(5));
    let (s, a) = s.step(Event::ChannelOpened(6));
    assert_eq!(a, Action::Wait);
    assert_eq!(s.phase, Phase::Calling { id: 2, channel: 5 });
}

#[test]
fn select_flow_picks_service_and_body() {
    let flow = AuthenticateToken::EnrollmentToken(AuthenticateEnrollmentToken::new(
        EnrollmentToken::new(Token::new("abc")),
    ));
    let call = select_flow(&flow);
    assert_eq!(call.service, "enrollment_token_authenticator");
    assert_eq!(call.path, "/enroll");
    assert_eq!(call.body, redeem_body("abc"));
    let flow = AuthenticateToken::Auth0(AuthenticateAuth0Token::new(Auth0Token {
        token_type: TokenType::Bearer,
        access_token: Token::new("abc"),
    }));
    let call = select_flow(&flow);
    assert_eq!(call.service, "auth0_authenticator");
    assert_eq!(call.body, bearer_body("abc"));
}

#[test]
fn bearer_wire_form_is_exact() {
    let bytes = bearer_body("abc");
    assert_eq!(
        bytes,
        vec![0xa3, 0x00, 0x1a, 0x00, 0x10, 0x25, 0x07, 0x01, 0x00, 0x02, 0x63, b'a', b'b', b'c']
    );
    let back = decode_auth0(&bytes).unwrap();
    assert_eq!(back.access_token, Token::new("abc"));
    assert_eq!(back.token_type, TokenType::Bearer);
}

#[test]
fn token_wire_forms_are_exact() {
    let minted = encode_enrollment_token(&EnrollmentToken::new(Token::new("tok-123")));
    let mut expected = vec![0xa2, 0x00, 0x1a, 0x00, 0x88, 0x4d, 0x9b, 0x01, 0x67];
    expected.extend_from_slice(b"tok-123");
    assert_eq!(minted, expected);
    let redeem = redeem_body("tok-123");
    let mut expected = vec![0xa2, 0x00, 0x1a, 0x00, 0x90, 0x67, 0xe4, 0x01, 0x67];
    expected.extend_from_slice(b"tok-123");
    assert_eq!(redeem, expected);
    assert_eq!(decode_authenticate_enrollment(&redeem).unwrap().token, Token::new("tok-123"));
    assert!(decode_authenticate_enrollment(&minted).is_none());
    assert!(decode_enrollment_token(&redeem).is_none());
}

#[test]
fn attributes_wire_form_is_exact() {
    let bytes = encode_attributes(&admin());
    let mut expected = vec![0xa1, 0x64];
    expected.extend_from_slice(b"role");
    expected.push(0x65);
    expected.extend_from_slice(b"admin");
    assert_eq!(bytes, expected);
    assert_eq!(decode_attributes(&bytes).unwrap(), admin());
    let empty = Attributes { entries: vec![] };
    assert_eq!(encode_attributes(&empty), vec![0xa0]);
    assert_eq!(decode_attributes(&[0xa0]).unwrap(), empty);
}

#[test]
fn request_enrollment_wire_form_is_exact() {
    let bytes = encode_request_enrollment(&RequestEnrollmentToken::new(admin()));
    let mut expected = vec![0xa2, 0x00, 0x1a, 0x00, 0x82, 0x9f, 0x8e, 0x01];
    expected.extend_from_slice(&encode_attributes(&admin()));
    assert_eq!(bytes, expected);
}

#[test]
fn non_canonical_or_trailing_bytes_are_rejected() {
    let good = redeem_body("t");
    // the map head in its two-byte form
    let mut long_head = vec![0xb8, 0x02];
    long_head.extend_from_slice(&good[1..]);
    assert!(decode_authenticate_enrollment(&long_head).is_none());
    // the tag in its eight-byte form
    let mut long_tag = vec![0xa2, 0x00, 0x1b, 0, 0, 0, 0, 0x00, 0x90, 0x67, 0xe4];
    long_tag.extend_from_slice(&good[7..]);
    assert!(decode_authenticate_enrollment(&long_tag).is_none());
    let mut trailing = good.clone();
    trailing.push(0x00);
    assert!(decode_authenticate_enrollment(&trailing).is_none());
    assert!(decode_authenticate_enrollment(&good[..good.len() - 1]).is_none());
    assert!(decode_authenticate_enrollment(&good).is_some());
}

#[test]
fn invalid_utf8_is_rejected() {
    let bytes = vec![0xa2, 0x00, 0x1a, 0x00, 0x90, 0x67, 0xe4, 0x01, 0x61, 0xff];
    assert!(decode_authenticate_enrollment(&bytes).is_none());
    assert!(decode_attributes(&[0xa1, 0x61, 0xff, 0x60]).is_none());
}

#[test]
fn attributes_keep_order_and_non_ascii_text() {
    let a = Attributes {
        entries: vec![
            ("zone".to_string(), "n\u{f6}rd".to_string()),
            ("app".to_string(), "".to_string()),
        ],
    };
    let bytes = encode_attributes(&a);
    assert_eq!(bytes[0], 0xa2);
    assert_eq!(decode_attributes(&bytes).unwrap(), a);
    assert!(decode_attributes(&bytes[..bytes.len() - 1]).is_none());
}

#[test]
fn constructors_keep_their_payload() {
    assert_eq!(Token::new("access_token").0, "access_token");
    let t = AuthenticateAuth0Token::new(Auth0Token {
        token_type: TokenType::Bearer,
        access_token: Token::new("a"),
    });
    assert_eq!(t.access_token, Token::new("a"));
    let e = AuthenticateEnrollmentToken::new(EnrollmentToken::new(Token::new("e")));
    assert_eq!(e.token, Token::new("e"));
    assert_eq!(RequestEnrollmentToken::new(admin()).attributes, admin());
}
