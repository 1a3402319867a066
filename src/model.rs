//! The credential and message types exchanged by the enrollment protocol.
use vstd::prelude::*;

verus! {

/// An opaque credential string: a bearer access token or an enrollment token.
#[derive(Debug, Clone, PartialEq, Eq)]
pub struct Token(pub String);

impl Token {
    /// Wraps a credential string.
    pub fn new(token: &str) -> (r: Token)
        ensures
            r.0@ == token@,
    {
        Token(token.to_owned())
    }
}

/// The kind of an access token; its wire form is the variant's index.
#[derive(Debug, Clone, Copy, PartialEq, Eq)]
pub enum TokenType {
    Bearer,
}

/// An access token as handed out by the external identity provider.
#[derive(Debug, Clone, PartialEq, Eq)]
pub struct Auth0Token {
    pub token_type: TokenType,
    pub access_token: Token,
}

/// The device-code answer of the identity provider's device flow.
#[derive(Debug, Clone, PartialEq, Eq)]
pub struct DeviceCode {
    pub device_code: String,
    pub user_code: String,
    pub verification_uri: String,
    pub verification_uri_complete: String,
    pub expires_in: usize,
    pub interval: usize,
}

/// The error answer of the identity provider's token endpoint.
#[derive(Debug, Clone, PartialEq, Eq)]
pub struct TokensError {
    pub error: String,
    pub error_description: String,
}

/// "Prove that you hold this bearer credential."
#[derive(Debug, Clone, PartialEq, Eq)]
pub struct AuthenticateAuth0Token {
    pub token_type: TokenType,
    pub access_token: Token,
}

impl AuthenticateAuth0Token {
    pub fn new(token: Auth0Token) -> (r: AuthenticateAuth0Token)
        ensures
            r.token_type == token.token_type,
            r.access_token.0@ == token.access_token.0@,
    {
        AuthenticateAuth0Token { token_type: token.token_type, access_token: token.access_token }
    }
}

/// A key/value set supplied by the caller and bound to an enrollment token.
/// The gateway passes it on as it came, in its order.
#[derive(Debug, Clone, PartialEq, Eq)]
pub struct Attributes {
    pub entries: Vec<(String, String)>,
}

impl View for Attributes {
    type V = Seq<(Seq<char>, Seq<char>)>;

    open spec fn view(&self) -> Seq<(Seq<char>, Seq<char>)> {
        pairs_view(self.entries@)
    }
}

/// The text of each key/value pair.
pub open spec fn pairs_view(v: Seq<(String, String)>) -> Seq<(Seq<char>, Seq<char>)> {
    v.map_values(|e: (String, String)| (e.0@, e.1@))
}

/// A request to mint an enrollment token bound to `attributes`.
#[derive(Debug, Clone, PartialEq, Eq)]
pub struct RequestEnrollmentToken {
    pub attributes: Attributes,
}

impl RequestEnrollmentToken {
    pub fn new(attributes: Attributes) -> (r: RequestEnrollmentToken)
        ensures
            r.attributes@ == attributes@,
    {
        RequestEnrollmentToken { attributes }
    }
}

/// A freshly minted enrollment token.
#[derive(Debug, Clone, PartialEq, Eq)]
pub struct EnrollmentToken {
    pub token: Token,
}

impl EnrollmentToken {
    pub fn new(token: Token) -> (r: EnrollmentToken)
        ensures
            r.token.0@ == token.0@,
    {
        EnrollmentToken { token }
    }
}

/// "Redeem this enrollment token."
#[derive(Debug, Clone, PartialEq, Eq)]
pub struct AuthenticateEnrollmentToken {
    pub token: Token,
}

impl AuthenticateEnrollmentToken {
    pub fn new(token: EnrollmentToken) -> (r: AuthenticateEnrollmentToken)
        ensures
            r.token.0@ == token.token.0@,
    {
        AuthenticateEnrollmentToken { token: token.token }
    }
}

/// The two ways of authenticating: exactly one payload, of the variant's kind.
#[derive(Debug, Clone, PartialEq, Eq)]
pub enum AuthenticateToken {
    Auth0(AuthenticateAuth0Token),
    EnrollmentToken(AuthenticateEnrollmentToken),
}

} // verus!
