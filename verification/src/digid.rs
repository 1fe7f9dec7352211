//! The decisions of the authentication of a user with DigiD: what is
//! asked of the authorization server, and whether what comes back with
//! the redirect belongs to what was asked.

use crate::bytes::{begins_with, contains, holds, starts_with};
use vstd::prelude::*;
use vstd::utf8::encode_utf8;

verus! {

pub const PARAM_CODE_CHALLENGE: &'static str = "code_challenge";

pub const PARAM_CODE_CHALLENGE_METHOD: &'static str = "code_challenge_method";

pub const PARAM_GRANT_TYPE: &'static str = "grant_type";

pub const PARAM_CODE: &'static str = "code";

pub const PARAM_STATE: &'static str = "state";

pub const PARAM_REDIRECT_URI: &'static str = "redirect_uri";

pub const PARAM_CLIENT_ID: &'static str = "client_id";

pub const PARAM_CODE_VERIFIER: &'static str = "code_verifier";

pub const CHALLENGE_METHOD_S256: &'static str = "S256";

pub const GRANT_TYPE_AUTHORIZATION_CODE: &'static str = "authorization_code";

/// The identifier of the wallet as a client of the authorization server.
pub const WALLET_CLIENT_ID: &'static str = "SSSS";

/// Where the authorization server sends the user back.
pub const WALLET_CLIENT_REDIRECT_URI: &'static str =
    "walletdebuginteraction://wallet.edi.rijksoverheid.nl/authentication";

/// Why the authentication failed.
#[derive(Debug, PartialEq, Eq)]
pub enum Error {
    /// An operation of OpenID failed.
    OpenId(String),
    /// The redirect does not lead to the wallet.
    RedirectUriMismatch,
    /// The redirect carries another state token than was sent.
    StateTokenMismatch,
    /// The issuer did not answer.
    PidIssuer(String),
    /// The issuer refused; its answer comes with the error.
    PidIssuerResponse(String, String),
}

/// What was asked of the authorization server.
#[derive(Debug, PartialEq, Eq)]
pub struct Options {
    pub scope: Option<String>,
    pub nonce: Option<String>,
    pub state: Option<String>,
}

/// What the wallet remembers between the request for authorization and
/// the redirect.
#[derive(Debug, PartialEq, Eq)]
pub struct DigidSessionState {
    /// Cache for the PKCE verifier
    pub pkce_verifier: String,
    /// Options
    pub options: Options,
}

/// The client of the authorization server, as far as it decides.
#[derive(Debug, PartialEq, Eq)]
pub struct DigidConnector {
    pub client_id: String,
    pub redirect_uri: Option<String>,
    pub session_state: Option<DigidSessionState>,
}

/// Some texts, joined by single spaces.
pub open spec fn joined(texts: Seq<Seq<char>>) -> Seq<char>
    decreases texts.len(),
{
    if texts.len() == 0 {
        Seq::empty()
    } else if texts.len() == 1 {
        texts[0]
    } else {
        joined(texts.drop_last()) + " "@ + texts.last()
    }
}

/// The parameters that a request for authorization carries for the
/// challenge.
pub open spec fn challenge_pairs(code_challenge: Seq<char>) -> Seq<(Seq<char>, Seq<char>)> {
    seq![
        (PARAM_CODE_CHALLENGE@, code_challenge),
        (PARAM_CODE_CHALLENGE_METHOD@, CHALLENGE_METHOD_S256@),
    ]
}

/// The parameters of the request for a token: the grant type, the code,
/// the redirect address if the client has one, the identifier of the
/// client, and the verifier of the challenge.
pub open spec fn token_request_pairs(
    client_id: Seq<char>,
    redirect_uri: Option<Seq<char>>,
    authorization_code: Seq<char>,
    pkce_verifier: Seq<char>,
) -> Seq<(Seq<char>, Seq<char>)> {
    seq![
        (PARAM_GRANT_TYPE@, GRANT_TYPE_AUTHORIZATION_CODE@),
        (PARAM_CODE@, authorization_code),
    ] + (match redirect_uri {
        Some(redirect_uri) => seq![(PARAM_REDIRECT_URI@, redirect_uri)],
        None => Seq::empty(),
    }) + seq![(PARAM_CLIENT_ID@, client_id), (PARAM_CODE_VERIFIER@, pkce_verifier)]
}

/// Pairs of texts by their values.
pub open spec fn pairs_view(pairs: Seq<(String, String)>) -> Seq<(Seq<char>, Seq<char>)> {
    Seq::new(pairs.len(), |k: int| (pairs[k].0@, pairs[k].1@))
}

impl DigidConnector {
    /// The client with an identifier and a redirect address, which has
    /// asked for nothing yet.
    pub fn new(client_id: String, redirect_uri: Option<String>) -> (connector: Self)
        ensures
            connector.client_id == client_id,
            connector.redirect_uri == redirect_uri,
            connector.session_state is None,
    {
        DigidConnector { client_id, redirect_uri, session_state: None }
    }

    /// The scope of a request for authorization: the scopes that the
    /// server supports, separated by spaces.
    pub fn scope(scopes_supported: &Vec<String>) -> (scope: String)
        ensures
            scope@ == joined(scopes_supported.deep_view()),
    {
        let ghost texts = scopes_supported.deep_view();
        let mut scope = String::new();
        let mut i: usize = 0;
        assert(texts.take(0) =~= Seq::empty());
        while i < scopes_supported.len()
            invariant
                i <= scopes_supported.len(),
                texts == scopes_supported.deep_view(),
                scope@ == joined(texts.take(i as int)),
            decreases scopes_supported.len() - i,
        {
            proof {
                let next = texts.take(i as int + 1);
                assert(next.drop_last() =~= texts.take(i as int));
                assert(next.last() == scopes_supported[i as int]@);
                assert(next[0] == texts[0]);
            }
            if i > 0 {
                scope.append(" ");
            }
            scope.append(scopes_supported[i].as_str());
            assert(scope@ =~= joined(texts.take(i as int + 1)));
            i += 1;
        }
        assert(texts.take(scopes_supported.len() as int) =~= texts);
        scope
    }

    /// Remembers what was asked of the authorization server, and gives
    /// the parameters that the address of the request carries for the
    /// challenge.
    pub fn get_digid_authorization_url(
        &mut self,
        options: Options,
        pkce_verifier: String,
        code_challenge: &str,
    ) -> (parameters: Vec<(String, String)>)
        ensures
            pairs_view(parameters@) == challenge_pairs(code_challenge@),
            final(self).client_id == old(self).client_id,
            final(self).redirect_uri == old(self).redirect_uri,
            final(self).session_state == Some(DigidSessionState { pkce_verifier, options }),
    {
        let mut parameters: Vec<(String, String)> = Vec::new();
        parameters.push((PARAM_CODE_CHALLENGE.to_owned(), code_challenge.to_owned()));
        parameters.push((PARAM_CODE_CHALLENGE_METHOD.to_owned(), CHALLENGE_METHOD_S256.to_owned()));
        assert(pairs_view(parameters@) =~= challenge_pairs(code_challenge@));
        // Remember session state
        self.session_state = Some(DigidSessionState { pkce_verifier, options });
        parameters
    }

    /// Create token request body with PKCS code_verifier: its parameters,
    /// in their order.
    pub fn get_token_request(&self, authorization_code: &str, pkce_verifier: &str) -> (body: Vec<
        (String, String),
    >)
        ensures
            pairs_view(body@) == token_request_pairs(
                self.client_id@,
                match self.redirect_uri {
                    Some(redirect_uri) => Some(redirect_uri@),
                    None => None,
                },
                authorization_code@,
                pkce_verifier@,
            ),
    {
        let mut body: Vec<(String, String)> = Vec::new();
        body.push((PARAM_GRANT_TYPE.to_owned(), GRANT_TYPE_AUTHORIZATION_CODE.to_owned()));
        body.push((PARAM_CODE.to_owned(), authorization_code.to_owned()));
        match &self.redirect_uri {
            Some(redirect_uri) => {
                body.push((PARAM_REDIRECT_URI.to_owned(), redirect_uri.clone()));
            },
            None => {},
        }
        body.push((PARAM_CLIENT_ID.to_owned(), self.client_id.clone()));
        body.push((PARAM_CODE_VERIFIER.to_owned(), pkce_verifier.to_owned()));
        assert(pairs_view(body@) =~= token_request_pairs(
            self.client_id@,
            match self.redirect_uri {
                Some(redirect_uri) => Some(redirect_uri@),
                None => None,
            },
            authorization_code@,
            pkce_verifier@,
        ));
        body
    }

    /// Decides on a redirect: it must lead to the wallet, and carry the
    /// state token that was sent. Then what was remembered is spent, and
    /// the parameters of the request for a token come back, with the
    /// options that the token must meet. A redirect elsewhere leaves what
    /// was remembered as it is.
    pub fn get_access_token(&mut self, redirect_url: &str, state: &str, authorization_code: &str) -> (
        request: Result<(Vec<(String, String)>, Options), Error>)
        requires
            begins_with(encode_utf8(redirect_url@), encode_utf8(WALLET_CLIENT_REDIRECT_URI@))
                ==> (old(self).session_state matches Some(session) && session.options.state
                is Some),
        ensures
            final(self).client_id == old(self).client_id,
            final(self).redirect_uri == old(self).redirect_uri,
            !begins_with(encode_utf8(redirect_url@), encode_utf8(WALLET_CLIENT_REDIRECT_URI@)) ==> (
            request matches Err(error) && error == Error::RedirectUriMismatch)
                && final(self).session_state == old(self).session_state,
            begins_with(encode_utf8(redirect_url@), encode_utf8(WALLET_CLIENT_REDIRECT_URI@)) ==> {
                let session = old(self).session_state->Some_0;
                &&& final(self).session_state is None
                &&& state@ != session.options.state->Some_0@ ==> (request matches Err(error)
                    && error == Error::StateTokenMismatch)
                &&& state@ == session.options.state->Some_0@ ==> (request matches Ok(
                    (body, options),
                ) && options == session.options && pairs_view(body@) == token_request_pairs(
                    old(self).client_id@,
                    match old(self).redirect_uri {
                        Some(redirect_uri) => Some(redirect_uri@),
                        None => None,
                    },
                    authorization_code@,
                    session.pkce_verifier@,
                ))
            },
    {
        if !starts_with(redirect_url.as_bytes(), WALLET_CLIENT_REDIRECT_URI.as_bytes()) {
            return Err(Error::RedirectUriMismatch);
        }
        let DigidSessionState { options, pkce_verifier } = self.session_state.take().unwrap();
        // Verify the state token matches the csrf_token
        if state.to_owned() != *options.state.as_ref().unwrap() {
            return Err(Error::StateTokenMismatch);
        }
        let body = self.get_token_request(authorization_code, pkce_verifier.as_str());
        Ok((body, options))
    }
}

/// The state of an authentication that is shown to the user.
#[derive(Debug, Clone, Copy, PartialEq, Eq, Structural)]
pub enum DigidState {
    Authenticating,
    Success,
    Error,
}

/// What an address that was opened with the wallet sets going.
#[derive(Debug, Clone, Copy, PartialEq, Eq, Structural)]
pub enum UriFlowEvent {
    DigidAuth { state: DigidState },
}

/// The events that an address sets going: none for an address that does
/// not speak of an authentication; else the start of an authentication
/// and its end, a success where the address speaks of one.
pub open spec fn uri_flow(uri: Seq<char>) -> Option<Seq<UriFlowEvent>> {
    if !holds(encode_utf8(uri), encode_utf8("authentication"@)) {
        None
    } else if holds(encode_utf8(uri), encode_utf8("success"@)) {
        Some(
            seq![
                UriFlowEvent::DigidAuth { state: DigidState::Authenticating },
                UriFlowEvent::DigidAuth { state: DigidState::Success },
            ],
        )
    } else {
        Some(
            seq![
                UriFlowEvent::DigidAuth { state: DigidState::Authenticating },
                UriFlowEvent::DigidAuth { state: DigidState::Error },
            ],
        )
    }
}

/// The events that an address sets going, in their order.
pub fn process_uri(uri: &str) -> (events: Option<Vec<UriFlowEvent>>)
    ensures
        match uri_flow(uri@) {
            Some(expected) => events matches Some(found) && found@ == expected,
            None => events is None,
        },
{
    if contains(uri.as_bytes(), "authentication".as_bytes()) {
        let mut events: Vec<UriFlowEvent> = Vec::new();
        events.push(UriFlowEvent::DigidAuth { state: DigidState::Authenticating });
        if contains(uri.as_bytes(), "success".as_bytes()) {
            events.push(UriFlowEvent::DigidAuth { state: DigidState::Success });
        } else {
            events.push(UriFlowEvent::DigidAuth { state: DigidState::Error });
        }
        assert(events@ =~= uri_flow(uri@)->Some_0);
        Some(events)
    } else {
        None
    }
}

} // verus!
