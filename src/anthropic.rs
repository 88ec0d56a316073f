//! The HTTP headers that configure requests to Anthropic's API, for key
//! authentication and for OAuth bearer tokens.
//!
//! The library decides which headers are sent and with which values, and
//! checks each value as `http` would; sending them is left to the caller.
use vstd::prelude::*;

use crate::text::{joined, push_joined};

verus! {

/// The API version sent unless another is set.
pub const ANTHROPIC_VERSION_LATEST: &'static str = "2023-06-01";

/// The beta flag that OAuth tokens require.
pub const OAUTH_BETA: &'static str = "oauth-2025-04-20";

/// The `x-app` header sent with OAuth tokens unless another is set.
pub const OAUTH_X_APP: &'static str = "cli";

/// A character that may stand in a header value: a tab, or any character
/// from the space up but DEL (every byte of a non-ASCII character is 128 or
/// more, so all of those may).
pub open spec fn header_char_ok(c: char) -> bool {
    c == '\t' || (c as u32 >= 32 && c as u32 != 127)
}

/// A text that may be a header value.
pub open spec fn valid_header_value(s: Seq<char>) -> bool {
    forall|i: int| 0 <= i < s.len() ==> header_char_ok(#[trigger] s[i])
}

/// Relies on `http::HeaderValue::from_str`, which accepts a text exactly
/// when each of its bytes is a tab, or at least 32 and not 127.
#[verifier::external_body]
fn header_value_accepted(s: &str) -> (r: bool)
    ensures
        r == valid_header_value(s@),
{
    http::HeaderValue::from_str(s).is_ok()
}

/// Why a set of headers could not be built.
#[derive(Clone, Debug, PartialEq, Eq)]
pub enum HeaderError {
    /// The value of the named header holds a character that a header value
    /// may not hold.
    InvalidValue(String),
}

/// The names and values of a list of headers.
pub open spec fn header_views(hs: Seq<(String, String)>) -> Seq<(Seq<char>, Seq<char>)> {
    hs.map_values(|h: (String, String)| (h.0@, h.1@))
}

/// Every value of `hs` may be a header value.
pub open spec fn all_valid(hs: Seq<(Seq<char>, Seq<char>)>) -> bool {
    forall|i: int| 0 <= i < hs.len() ==> valid_header_value(#[trigger] hs[i].1)
}

/// `name` names the first header of `hs` whose value is not valid.
pub open spec fn first_invalid(hs: Seq<(Seq<char>, Seq<char>)>, name: Seq<char>) -> bool {
    exists|i: int|
        0 <= i < hs.len() && !valid_header_value(#[trigger] hs[i].1) && hs[i].0 == name
            && all_valid(hs.subrange(0, i))
}

/// `hs` itself where all its values are valid, else the error that names
/// the first header with an invalid value.
fn checked_headers(hs: Vec<(String, String)>) -> (r: Result<Vec<(String, String)>, HeaderError>)
    ensures
        match r {
            Ok(v) => all_valid(header_views(hs@)) && v@ == hs@,
            Err(HeaderError::InvalidValue(n)) => !all_valid(header_views(hs@)) && first_invalid(
                header_views(hs@),
                n@,
            ),
        },
{
    let ghost views = header_views(hs@);
    let mut i: usize = 0;
    while i < hs.len()
        invariant
            i <= hs@.len(),
            views == header_views(hs@),
            all_valid(views.subrange(0, i as int)),
        decreases hs@.len() - i,
    {
        let ok = header_value_accepted(hs[i].1.as_str());
        if !ok {
            let name = hs[i].0.clone();
            assert(views[i as int].1 == hs@[i as int].1@);
            return Err(HeaderError::InvalidValue(name));
        }
        i = i + 1;
        assert forall|j: int| 0 <= j < i implies valid_header_value(
            #[trigger] views.subrange(0, i as int)[j].1,
        ) by {
            if j < i - 1 {
                assert(views.subrange(0, i as int)[j] == views.subrange(0, i - 1)[j]);
            }
        }
    }
    assert(views.subrange(0, i as int) =~= views);
    Ok(hs)
}

/// The header that sets the API version.
pub open spec fn version_header(version: Seq<char>) -> Seq<(Seq<char>, Seq<char>)> {
    seq![("anthropic-version"@, version)]
}

/// The header that asks for beta features: none where there are none, else
/// one with the flags separated by commas.
pub open spec fn beta_header(betas: Seq<String>) -> Seq<(Seq<char>, Seq<char>)> {
    if betas.len() == 0 {
        Seq::empty()
    } else {
        seq![("anthropic-beta"@, joined(betas, ","@))]
    }
}

/// The headers of a client that authenticates with an API key.
pub open spec fn api_headers(version: Seq<char>, betas: Seq<String>) -> Seq<(Seq<char>, Seq<char>)> {
    version_header(version) + beta_header(betas)
}

/// The headers of a client that authenticates with an OAuth token.
pub open spec fn oauth_headers(
    version: Seq<char>,
    betas: Seq<String>,
    x_app: Seq<char>,
    user_agent: Seq<char>,
) -> Seq<(Seq<char>, Seq<char>)> {
    version_header(version) + beta_header(betas) + seq![("x-app"@, x_app)] + seq![
        ("user-agent"@, user_agent),
    ]
}

/// The result of building the headers `hs`.
pub open spec fn built(r: Result<Vec<(String, String)>, HeaderError>, hs: Seq<(Seq<char>, Seq<char>)>) -> bool {
    match r {
        Ok(v) => all_valid(hs) && header_views(v@) == hs,
        Err(HeaderError::InvalidValue(n)) => !all_valid(hs) && first_invalid(hs, n@),
    }
}

fn push_header(hs: &mut Vec<(String, String)>, name: &str, value: String)
    ensures
        header_views(final(hs)@) == header_views(old(hs)@) + seq![(name@, value@)],
{
    hs.push((String::from_str(name), value));
    assert(header_views(final(hs)@) =~= header_views(old(hs)@) + seq![(name@, value@)]);
}

fn push_version_and_beta(hs: &mut Vec<(String, String)>, version: &String, betas: &Vec<String>)
    ensures
        header_views(final(hs)@) == header_views(old(hs)@) + version_header(version@)
            + beta_header(betas@),
{
    push_header(hs, "anthropic-version", version.clone());
    if betas.len() > 0 {
        let mut joined_betas = String::new();
        push_joined(&mut joined_betas, betas, ",");
        push_header(hs, "anthropic-beta", joined_betas);
        assert(header_views(final(hs)@) =~= header_views(old(hs)@) + version_header(version@)
            + beta_header(betas@));
    } else {
        assert(header_views(final(hs)@) =~= header_views(old(hs)@) + version_header(version@)
            + beta_header(betas@));
    }
}

/// `betas` with the flags `more` appended.
pub open spec fn extended(betas: Seq<String>, more: Seq<&str>, out: Seq<String>) -> bool {
    &&& out.len() == betas.len() + more.len()
    &&& out.subrange(0, betas.len() as int) == betas
    &&& forall|j: int| 0 <= j < more.len() ==> (#[trigger] out[betas.len() + j])@ == more[j]@
}

fn extend_betas(betas: &mut Vec<String>, more: &[&str])
    ensures
        extended(old(betas)@, more@, final(betas)@),
{
    let ghost start = betas@;
    let mut i: usize = 0;
    while i < more.len()
        invariant
            i <= more@.len(),
            betas@.len() == start.len() + i,
            betas@.subrange(0, start.len() as int) == start,
            forall|j: int| 0 <= j < i ==> (#[trigger] betas@[start.len() + j])@ == more@[j]@,
        decreases more@.len() - i,
    {
        betas.push(String::from_str(more[i]));
        i = i + 1;
        assert(betas@.subrange(0, start.len() as int) =~= start);
    }
}

/// The API key of a client: sent as the `x-api-key` header.
#[derive(Clone, Debug)]
pub struct AnthropicKey(pub String);

impl AnthropicKey {
    /// A key with the text `key`.
    pub fn new(key: &str) -> (r: AnthropicKey)
        ensures
            r.0@ == key@,
    {
        AnthropicKey(String::from_str(key))
    }

    /// The header that carries the key.
    pub fn into_header(self) -> (r: Result<(String, String), HeaderError>)
        ensures
            match r {
                Ok(h) => valid_header_value(self.0@) && h.0@ == "x-api-key"@ && h.1@ == self.0@,
                Err(HeaderError::InvalidValue(n)) => !valid_header_value(self.0@) && n@
                    == "x-api-key"@,
            },
    {
        let AnthropicKey(key) = self;
        if header_value_accepted(key.as_str()) {
            Ok((String::from_str("x-api-key"), key))
        } else {
            Err(HeaderError::InvalidValue(String::from_str("x-api-key")))
        }
    }
}

/// Marks a client that authenticates with an API key.
#[derive(Clone, Copy, Debug, Default)]
pub struct AnthropicExt;

/// Marks a client that authenticates with an OAuth bearer token.
#[derive(Clone, Copy, Debug, Default)]
pub struct AnthropicOAuthExt;

/// The settings of a client that authenticates with an API key.
#[derive(Clone, Debug)]
pub struct AnthropicBuilder {
    /// The API version to ask for.
    pub anthropic_version: String,
    /// The beta features to ask for.
    pub anthropic_betas: Vec<String>,
}

impl Default for AnthropicBuilder {
    fn default() -> (r: AnthropicBuilder)
        ensures
            r.anthropic_version@ == ANTHROPIC_VERSION_LATEST@,
            r.anthropic_betas@.len() == 0,
    {
        AnthropicBuilder {
            anthropic_version: String::from_str(ANTHROPIC_VERSION_LATEST),
            anthropic_betas: Vec::new(),
        }
    }
}

impl AnthropicBuilder {
    /// Ask for API version `anthropic_version`.
    pub fn anthropic_version(self, anthropic_version: &str) -> (r: AnthropicBuilder)
        ensures
            r.anthropic_version@ == anthropic_version@,
            r.anthropic_betas@ == self.anthropic_betas@,
    {
        AnthropicBuilder { anthropic_version: String::from_str(anthropic_version), ..self }
    }

    /// Ask for the beta features `anthropic_betas` as well.
    pub fn anthropic_betas(self, anthropic_betas: &[&str]) -> (r: AnthropicBuilder)
        ensures
            r.anthropic_version@ == self.anthropic_version@,
            extended(self.anthropic_betas@, anthropic_betas@, r.anthropic_betas@),
    {
        let mut builder = self;
        extend_betas(&mut builder.anthropic_betas, anthropic_betas);
        builder
    }

    /// Ask for the beta feature `anthropic_beta` as well.
    pub fn anthropic_beta(self, anthropic_beta: &str) -> (r: AnthropicBuilder)
        ensures
            r.anthropic_version@ == self.anthropic_version@,
            r.anthropic_betas@.len() == self.anthropic_betas@.len() + 1,
            r.anthropic_betas@.drop_last() == self.anthropic_betas@,
            r.anthropic_betas@.last()@ == anthropic_beta@,
    {
        let mut builder = self;
        builder.anthropic_betas.push(String::from_str(anthropic_beta));
        assert(builder.anthropic_betas@.drop_last() =~= self.anthropic_betas@);
        builder
    }

    /// The headers these settings send: the API version, then the beta
    /// features, if any, separated by commas.
    pub fn finish(&self) -> (r: Result<Vec<(String, String)>, HeaderError>)
        ensures
            built(r, api_headers(self.anthropic_version@, self.anthropic_betas@)),
    {
        let mut hs: Vec<(String, String)> = Vec::new();
        push_version_and_beta(&mut hs, &self.anthropic_version, &self.anthropic_betas);
        assert(header_views(hs@) =~= api_headers(self.anthropic_version@, self.anthropic_betas@));
        checked_headers(hs)
    }
}

/// The settings of a client that authenticates with an OAuth token.
#[derive(Clone, Debug)]
pub struct AnthropicOAuthBuilder {
    /// The API version to ask for.
    pub anthropic_version: String,
    /// The beta features to ask for.
    pub anthropic_betas: Vec<String>,
    /// The `user-agent` header.
    pub user_agent: String,
    /// The `x-app` header.
    pub x_app: String,
}

impl AnthropicOAuthBuilder {
    /// Settings for OAuth tokens that send `user_agent` as the user agent,
    /// the latest API version, the OAuth beta flag and `x-app: cli`.
    pub fn new(user_agent: &str) -> (r: AnthropicOAuthBuilder)
        ensures
            r.anthropic_version@ == ANTHROPIC_VERSION_LATEST@,
            r.anthropic_betas@.len() == 1,
            r.anthropic_betas@[0]@ == OAUTH_BETA@,
            r.user_agent@ == user_agent@,
            r.x_app@ == OAUTH_X_APP@,
    {
        let mut anthropic_betas: Vec<String> = Vec::new();
        anthropic_betas.push(String::from_str(OAUTH_BETA));
        AnthropicOAuthBuilder {
            anthropic_version: String::from_str(ANTHROPIC_VERSION_LATEST),
            anthropic_betas,
            user_agent: String::from_str(user_agent),
            x_app: String::from_str(OAUTH_X_APP),
        }
    }

    /// Ask for API version `anthropic_version`.
    pub fn anthropic_version(self, anthropic_version: &str) -> (r: AnthropicOAuthBuilder)
        ensures
            r.anthropic_version@ == anthropic_version@,
            r.anthropic_betas@ == self.anthropic_betas@,
            r.user_agent == self.user_agent,
            r.x_app == self.x_app,
    {
        AnthropicOAuthBuilder { anthropic_version: String::from_str(anthropic_version), ..self }
    }

    /// Ask for the beta features `anthropic_betas` as well.
    pub fn anthropic_betas(self, anthropic_betas: &[&str]) -> (r: AnthropicOAuthBuilder)
        ensures
            r.anthropic_version == self.anthropic_version,
            extended(self.anthropic_betas@, anthropic_betas@, r.anthropic_betas@),
            r.user_agent == self.user_agent,
            r.x_app == self.x_app,
    {
        let mut builder = self;
        extend_betas(&mut builder.anthropic_betas, anthropic_betas);
        builder
    }

    /// Ask for the beta feature `anthropic_beta` as well.
    pub fn anthropic_beta(self, anthropic_beta: &str) -> (r: AnthropicOAuthBuilder)
        ensures
            r.anthropic_version == self.anthropic_version,
            r.anthropic_betas@.len() == self.anthropic_betas@.len() + 1,
            r.anthropic_betas@.drop_last() == self.anthropic_betas@,
            r.anthropic_betas@.last()@ == anthropic_beta@,
            r.user_agent == self.user_agent,
            r.x_app == self.x_app,
    {
        let mut builder = self;
        builder.anthropic_betas.push(String::from_str(anthropic_beta));
        assert(builder.anthropic_betas@.drop_last() =~= self.anthropic_betas@);
        builder
    }

    /// Send `user_agent` as the `user-agent` header.
    pub fn user_agent(self, user_agent: &str) -> (r: AnthropicOAuthBuilder)
        ensures
            r.anthropic_version == self.anthropic_version,
            r.anthropic_betas@ == self.anthropic_betas@,
            r.user_agent@ == user_agent@,
            r.x_app == self.x_app,
    {
        AnthropicOAuthBuilder { user_agent: String::from_str(user_agent), ..self }
    }

    /// Send `x_app` as the `x-app` header.
    pub fn x_app(self, x_app: &str) -> (r: AnthropicOAuthBuilder)
        ensures
            r.anthropic_version == self.anthropic_version,
            r.anthropic_betas@ == self.anthropic_betas@,
            r.user_agent == self.user_agent,
            r.x_app@ == x_app@,
    {
        AnthropicOAuthBuilder { x_app: String::from_str(x_app), ..self }
    }

    /// The headers these settings send: the API version, the beta features
    /// (if any, separated by commas), `x-app` and `user-agent`.
    pub fn finish(&self) -> (r: Result<Vec<(String, String)>, HeaderError>)
        ensures
            built(
                r,
                oauth_headers(
                    self.anthropic_version@,
                    self.anthropic_betas@,
                    self.x_app@,
                    self.user_agent@,
                ),
            ),
    {
        let mut hs: Vec<(String, String)> = Vec::new();
        push_version_and_beta(&mut hs, &self.anthropic_version, &self.anthropic_betas);
        push_header(&mut hs, "x-app", self.x_app.clone());
        push_header(&mut hs, "user-agent", self.user_agent.clone());
        assert(header_views(hs@) =~= oauth_headers(
            self.anthropic_version@,
            self.anthropic_betas@,
            self.x_app@,
            self.user_agent@,
        ));
        checked_headers(hs)
    }
}

} // verus!
