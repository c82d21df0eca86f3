//! Pre-start download rules: refusing unverifiable plain-HTTP downloads,
//! keeping credentials out of logs, and checking SHA-256 digests.

use vstd::prelude::*;
use crate::config::{opt_view, ServiceConfig};
use crate::encoding::{hex_lower_bytes, hex_lower_of};
use crate::template::{f, fill, str_views};
use crate::text::{
    chars_eq, chars_of, lowercased, string_from_chars, sub_vec, to_lowercase, trim, trim_bounds,
};

verus! {

// ==================== URLs ====================

/// What `reqwest::Url::parse` makes of a text, if it parses: the URL's scheme
/// and its serialization with user name, password, query and fragment
/// removed (scheme://host/path).
pub uninterp spec fn url_scheme_and_base(url: Seq<char>) -> Option<(Seq<char>, Seq<char>)>;

/// Parses `url` with `reqwest::Url::parse`; on success gives
/// `Url::scheme()` and the `Url` serialized after `set_username("")`,
/// `set_password(None)` (both leave URLs without credentials unchanged),
/// `set_query(None)` and `set_fragment(None)`. The URL grammar that decides
/// success is the `url` crate's and is not restated.
#[verifier::external_body]
fn parse_url(url: &str) -> (r: Option<(String, String)>)
    ensures
        match r {
            Some((scheme, base)) => url_scheme_and_base(url@) == Some((scheme@, base@)),
            None => url_scheme_and_base(url@) is None,
        },
{
    match reqwest::Url::parse(url) {
        Ok(mut u) => {
            let scheme = u.scheme().to_string();
            let _ = u.set_username("");
            let _ = u.set_password(None);
            u.set_query(None);
            u.set_fragment(None);
            Some((scheme, u.to_string()))
        },
        Err(_) => None,
    }
}

/// The URL as it may appear in logs and errors: without credentials, query
/// and fragment when it parses, unchanged otherwise.
pub open spec fn redacted_of(url: Seq<char>) -> Seq<char> {
    match url_scheme_and_base(url) {
        Some(p) => p.1,
        None => url,
    }
}

/// Removes credentials, query and fragment (where secrets travel) from a URL.
pub fn redact_url(url: &str) -> (r: String)
    ensures
        r@ == redacted_of(url@),
{
    match parse_url(url) {
        Some((_, base)) => base,
        None => url.to_owned(),
    }
}

/// The error text for a refused plain-HTTP download.
pub open spec fn insecure_download_message(redacted: Seq<char>) -> Seq<char> {
    fill(
        "Insecure download: '{0}' uses plain HTTP without download_sha256. The payload may be tampered with in transit and is executed as the service account. Use an https:// URL or provide download_sha256."@,
        seq![redacted],
        1,
    )
}

/// The verdict on a download once its URL was parsed: refused exactly when
/// the URL parsed with scheme `http` and no non-blank SHA-256 is configured.
pub open spec fn download_verdict_of(
    parsed: Option<(Seq<char>, Seq<char>)>,
    sha: Option<Seq<char>>,
) -> Result<(), Seq<char>> {
    match parsed {
        None => Ok(()),
        Some((scheme, base)) => {
            let sha_empty = match sha {
                Some(s) => trim(s).len() == 0,
                None => true,
            };
            if scheme != "http"@ || !sha_empty {
                Ok(())
            } else {
                Err(insecure_download_message(base))
            }
        },
    }
}

/// Decides on a parsed download URL (scheme, URL without query and fragment)
/// and the configured SHA-256.
pub fn download_verdict(parsed: Option<(String, String)>, sha: Option<&str>) -> (r: Result<(), String>)
    ensures
        match r {
            Ok(()) => download_verdict_of(
                match parsed {
                    Some((a, b)) => Some((a@, b@)),
                    None => None,
                },
                match sha {
                    Some(s) => Some(s@),
                    None => None,
                },
            ) == Ok::<(), Seq<char>>(()),
            Err(e) => download_verdict_of(
                match parsed {
                    Some((a, b)) => Some((a@, b@)),
                    None => None,
                },
                match sha {
                    Some(s) => Some(s@),
                    None => None,
                },
            ) == Err::<(), Seq<char>>(e@),
        },
{
    match parsed {
        None => Ok(()),
        Some((scheme, base)) => {
            let sha_empty = match sha {
                Some(s) => crate::config::is_blank(s),
                None => true,
            };
            if !crate::text::str_eq(scheme.as_str(), "http") || !sha_empty {
                Ok(())
            } else {
                let args: [&str; 1] = [base.as_str()];
                let msg = f(
                    "Insecure download: '{0}' uses plain HTTP without download_sha256. The payload may be tampered with in transit and is executed as the service account. Use an https:// URL or provide download_sha256.",
                    &args,
                );
                assert(str_views(args@) =~= seq![base@]);
                Err(msg)
            }
        },
    }
}

/// Refuses a plain-HTTP download that has no SHA-256 to check: its payload
/// could be replaced in transit and would run as the service account. A
/// configuration without a download, or with a URL that does not parse, passes.
pub fn warn_if_insecure_download(config: &ServiceConfig) -> (r: Result<(), String>)
    ensures
        match r {
            Ok(()) => match opt_view(config.download_url) {
                None => true,
                Some(u) => download_verdict_of(url_scheme_and_base(u), opt_view(config.download_sha256))
                    == Ok::<(), Seq<char>>(()),
            },
            Err(e) => match opt_view(config.download_url) {
                None => false,
                Some(u) => download_verdict_of(url_scheme_and_base(u), opt_view(config.download_sha256))
                    == Err::<(), Seq<char>>(e@),
            },
        },
{
    let url = match &config.download_url {
        None => {
            return Ok(());
        },
        Some(u) => u,
    };
    let parsed = parse_url(url.as_str());
    let sha = match &config.download_sha256 {
        Some(s) => Some(s.as_str()),
        None => None,
    };
    download_verdict(parsed, sha)
}

// ==================== digests ====================

/// The SHA-256 digest of a byte sequence.
pub uninterp spec fn sha256_of(data: Seq<u8>) -> Seq<u8>;

/// `sha2::Sha256::digest`: the 32-byte SHA-256 digest of `data`. The hash
/// function itself is not restated.
#[verifier::external_body]
fn sha256_digest(data: &[u8]) -> (r: Vec<u8>)
    ensures
        r@ == sha256_of(data@),
{
    <sha2::Sha256 as sha2::Digest>::digest(data).to_vec()
}

/// Whether a digest matches an expected hex text: the digest in lower-case
/// hex equals the trimmed text after `str::to_lowercase`.
pub open spec fn digest_matches_of(digest: Seq<u8>, expected: Seq<char>) -> bool {
    hex_lower_bytes(digest) == lowercased(trim(expected))
}

/// Compares a computed digest with an expected hex text.
pub fn digest_matches(digest: &Vec<u8>, expected: &str) -> (r: bool)
    ensures
        r == digest_matches_of(digest@, expected@),
{
    let hex = hex_lower_of(digest);
    let v = chars_of(expected);
    let (a, b) = trim_bounds(&v, 0, v.len());
    assert(v@.subrange(0, v@.len() as int) =~= v@);
    let t = string_from_chars(&sub_vec(&v, a, b));
    let lower = to_lowercase(t.as_str());
    chars_eq(&hex, &chars_of(lower.as_str()))
}

/// Whether file contents match the expected SHA-256: always when none (or a
/// blank one) is configured; otherwise the contents must be readable (`Some`)
/// and their digest must match.
pub open spec fn sha256_matches_of(contents: Option<Seq<u8>>, expected: Option<Seq<char>>) -> bool {
    match expected {
        None => true,
        Some(e) => if trim(e).len() == 0 {
            true
        } else {
            match contents {
                None => false,
                Some(c) => digest_matches_of(sha256_of(c), e),
            }
        },
    }
}

/// Checks file contents (`None` when the file could not be read) against an
/// expected SHA-256 in hex.
pub fn sha256_matches(contents: Option<&Vec<u8>>, expected: Option<&str>) -> (r: bool)
    ensures
        r == sha256_matches_of(
            match contents {
                Some(c) => Some(c@),
                None => None,
            },
            match expected {
                Some(e) => Some(e@),
                None => None,
            },
        ),
{
    let sha = match expected {
        None => {
            return true;
        },
        Some(s) => s,
    };
    if crate::config::is_blank(sha) {
        return true;
    }
    match contents {
        None => false,
        Some(data) => {
            let d = sha256_digest(data.as_slice());
            digest_matches(&d, sha)
        },
    }
}

} // verus!
