//! The login details that the bot asks for on its first start, and the
//! home server's URL that the client is built with.

use vstd::prelude::*;
use vstd::string::StringExecFns;

use crate::text::{spec_trim_end, trim_end};

verus! {

/// The account the bot logs in with.
#[derive(Debug, Clone)]
pub struct MatrixLogin {
    pub password: String,
    pub user_name: String,
    pub homeserver_url: String,
}

impl MatrixLogin {
    /// The login from the lines typed at the prompts: the home server's URL
    /// and the user name without their trailing white space (and line
    /// break), the password as given.
    pub fn from_prompt(server_line: &str, user_line: &str, password: String) -> (l: Self)
        ensures
            l.homeserver_url@ == spec_trim_end(server_line@),
            l.user_name@ == spec_trim_end(user_line@),
            l.password == password,
    {
        MatrixLogin {
            homeserver_url: String::from_str(trim_end(server_line)),
            user_name: String::from_str(trim_end(user_line)),
            password,
        }
    }
}

/// A host name made of lower-case ASCII letters in dot-separated, non-empty
/// labels, such as `matrix.example.org`.
pub open spec fn is_plain_host(h: Seq<char>) -> bool {
    &&& h.len() > 0
    &&& h[0] != '.'
    &&& h.last() != '.'
    &&& forall|i: int| 0 <= i < h.len() ==> ('a' <= #[trigger] h[i] <= 'z' || h[i] == '.')
    &&& forall|i: int| 0 <= i < h.len() - 1 ==> !(#[trigger] h[i] == '.' && h[i + 1] == '.')
}

/// The number that a string of decimal digits stands for.
pub open spec fn decimal_value(p: Seq<char>) -> nat
    decreases p.len(),
{
    if p.len() == 0 {
        0
    } else {
        decimal_value(p.drop_last()) * 10 + ((p.last() as u32) - ('0' as u32)) as nat
    }
}

/// A port number written without leading zeros, valid, and not the
/// default port 443 of `https`.
pub open spec fn is_plain_port(p: Seq<char>) -> bool {
    &&& 1 <= p.len() <= 5
    &&& p[0] != '0'
    &&& forall|i: int| 0 <= i < p.len() ==> '0' <= #[trigger] p[i] <= '9'
    &&& decimal_value(p) <= 65535
    &&& decimal_value(p) != 443
}

/// `https://<host>:<port>/`.
pub open spec fn https_url(host: Seq<char>, port: Seq<char>) -> Seq<char> {
    "https://"@ + host + ":"@ + port + "/"@
}

/// `s` is `https://<host>:<port>/` with a plain host and a port other than
/// the default one.
pub open spec fn is_plain_https_url(s: Seq<char>) -> bool {
    exists|host: Seq<char>, port: Seq<char>|
        is_plain_host(host) && is_plain_port(port) && s == #[trigger] https_url(host, port)
}

/// What `url::Url::parse` makes of `input`: the serialization of the parsed
/// URL, or `None` when the parser refuses the input.
pub uninterp spec fn url_parse(input: Seq<char>) -> Option<Seq<char>>;

/// Calls `url::Url::parse` on `input` and hands back the parsed URL's
/// serialization (what `Url::as_str` and `String::from(Url)` give), or
/// `None` when the parser returns an error. The contract names the outcome
/// with `url_parse`; what the WHATWG URL rules make of the text is not
/// restated here, beyond one fact the parser shows: an `https` URL with a
/// plain host and an explicit port other than 443 comes back as it was,
/// host and port kept.
#[verifier::external_body]
fn parse_url(input: &str) -> (r: Option<String>)
    ensures
        match url_parse(input@) {
            Some(s) => r matches Some(x) && x@ == s,
            None => r is None,
        },
        is_plain_https_url(input@) ==> r is Some && r->0@ == input@,
{
    match url::Url::parse(input) {
        Ok(u) => Some(String::from(u)),
        Err(_) => None,
    }
}

/// The home server's URL as the client is given it: parsed and serialized,
/// or `None` when the text is no valid URL (the bot does not start then).
pub fn homeserver_url(url_text: &str) -> (r: Option<String>)
    ensures
        match url_parse(url_text@) {
            Some(s) => r matches Some(x) && x@ == s,
            None => r is None,
        },
        is_plain_https_url(url_text@) ==> (r matches Some(x) && x@ == url_text@),
{
    parse_url(url_text)
}

} // verus!
