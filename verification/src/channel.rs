//! The target channel of the package index.

use vstd::prelude::*;

use crate::errors::ConfigError;
use crate::strutil;

verus! {

/// Whether `url::Url::parse` accepts `s` (an absolute URL).
pub uninterp spec fn url_parses(s: Seq<char>) -> bool;

/// The host (`url::Url::host_str`) of the URL parsed from `s`.
pub uninterp spec fn url_host(s: Seq<char>) -> Option<Seq<char>>;

/// The path (`url::Url::path`) of the URL parsed from `s`.
pub uninterp spec fn url_path(s: Seq<char>) -> Seq<char>;

/// Relies on `url::Url::parse`, `Url::host_str` and `Url::path`: parsing
/// is a deterministic function of the input string, and the host and
/// path are functions of the parsed URL. Returns the host and path when
/// the string parses as an absolute URL.
#[verifier::external_body]
fn parse_channel_url(s: &str) -> (r: Option<(Option<String>, String)>)
    ensures
        r is Some <==> url_parses(s@),
        r matches Some(hp) ==> {
            &&& (hp.0 matches Some(h) ==> url_host(s@) == Some(h@))
            &&& (hp.0 is None ==> url_host(s@) is None)
            &&& hp.1@ == url_path(s@)
        },
{
    match url::Url::parse(s) {
        Ok(u) => Some((u.host_str().map(|h| h.to_owned()), u.path().to_owned())),
        Err(_) => None,
    }
}

/// The short name of a channel: for a URL on the index host, its path;
/// for a plain name, the name itself; a URL on any other host is a
/// configuration error.
pub open spec fn spec_short_channel(c: Seq<char>) -> Result<Seq<char>, ConfigError> {
    if url_parses(c) {
        if url_host(c) == Some("prefix.dev"@) {
            Ok(url_path(c))
        } else {
            Err(ConfigError::NotPrefixChannel)
        }
    } else {
        Ok(c)
    }
}

/// The full channel URL for a short channel name.
pub open spec fn spec_full_channel(c: Seq<char>) -> Result<Seq<char>, ConfigError> {
    match spec_short_channel(c) {
        Ok(s) => Ok("https://prefix.dev/"@ + s),
        Err(e) => Err(e),
    }
}

/// The configured target channel.
#[derive(Debug)]
pub struct Conda {
    pub channel: String,
}

impl Conda {
    pub fn short_channel(&self) -> (r: Result<String, ConfigError>)
        ensures
            r is Ok <==> spec_short_channel(self.channel@) is Ok,
            r matches Ok(s) ==> Ok::<Seq<char>, ConfigError>(s@) == spec_short_channel(
                self.channel@,
            ),
            r matches Err(e) ==> Err::<Seq<char>, ConfigError>(e) == spec_short_channel(
                self.channel@,
            ),
    {
        match parse_channel_url(self.channel.as_str()) {
            Some((host, path)) => {
                let is_prefix = match &host {
                    Some(h) => strutil::str_eq(h.as_str(), "prefix.dev"),
                    None => false,
                };
                if is_prefix {
                    Ok(path)
                } else {
                    Err(ConfigError::NotPrefixChannel)
                }
            },
            None => Ok(self.channel.clone()),
        }
    }

    pub fn full_channel(&self) -> (r: Result<String, ConfigError>)
        ensures
            r is Ok <==> spec_full_channel(self.channel@) is Ok,
            r matches Ok(s) ==> Ok::<Seq<char>, ConfigError>(s@) == spec_full_channel(
                self.channel@,
            ),
            r matches Err(e) ==> Err::<Seq<char>, ConfigError>(e) == spec_full_channel(
                self.channel@,
            ),
    {
        match self.short_channel() {
            Ok(s) => {
                let mut r = "https://prefix.dev/".to_owned();
                r.append(s.as_str());
                Ok(r)
            },
            Err(e) => Err(e),
        }
    }
}

} // verus!
