//! Base URLs of OpenAI-compatible providers: https, or plain http to the
//! local machine only, with no credentials, query or fragment.
use crate::ai_error::AiError;
use crate::text::{chars_of, extend_chars, slice_range, str_eq, string_from_chars, trim, trim_str};
use crate::web_discovery::{parse_url, url_parse, url_parts_view, UrlParts};
use vstd::prelude::*;

verus! {

/// `s` without its trailing slashes.
pub open spec fn strip_trailing_slashes(s: Seq<char>) -> Seq<char>
    decreases s.len(),
{
    if s.len() > 0 && s.last() == '/' {
        strip_trailing_slashes(s.drop_last())
    } else {
        s
    }
}

/// The host names for which plain http is accepted.
pub open spec fn is_local_host(host: Option<Seq<char>>) -> bool {
    host == Some("localhost"@) || host == Some("127.0.0.1"@) || host == Some("::1"@)
}

/// The base URL made of a parse result, or the error message: `label` names
/// the setting in the messages.
pub open spec fn base_url_result(
    label: Seq<char>,
    p: Result<(Seq<char>, Seq<char>, bool, Option<Seq<char>>, bool, bool, Seq<char>), Seq<char>>,
) -> Result<Seq<char>, Seq<char>> {
    match p {
        Err(m) => Err(label + " is invalid: "@ + m),
        Ok((scheme, user, has_password, host, has_query, has_fragment, serialized)) => if scheme
            != "https"@ && !(scheme == "http"@ && is_local_host(host)) {
            Err(label + " must be https:// or exact localhost/127.0.0.1/[::1] HTTP"@)
        } else if user.len() > 0 || has_password || has_query || has_fragment {
            Err(label + " must not contain credentials, query, or fragment"@)
        } else {
            Ok(strip_trailing_slashes(serialized))
        },
    }
}

proof fn lemma_stripped_has_no_trailing_slash(s: Seq<char>)
    ensures
        strip_trailing_slashes(s).len() == 0 || strip_trailing_slashes(s).last() != '/',
    decreases s.len(),
{
    if s.len() > 0 && s.last() == '/' {
        lemma_stripped_has_no_trailing_slash(s.drop_last());
    }
}

/// An accepted base URL never ends with `/`, so request paths can be joined
/// to it with one slash.
pub proof fn lemma_base_url_no_trailing_slash(label: Seq<char>, raw: Seq<char>)
    ensures
        base_url_result(label, url_parse(trim(raw))) matches Ok(u) ==> u.len() == 0 || u.last() != '/',
{
    match url_parse(trim(raw)) {
        Ok(p) => lemma_stripped_has_no_trailing_slash(p.6),
        Err(_) => {},
    }
}

fn strip_slashes(s: &str) -> (r: String)
    ensures
        r@ == strip_trailing_slashes(s@),
{
    let chars = chars_of(s);
    let mut end: usize = chars.len();
    assert(chars@.take(end as int) =~= chars@);
    while end > 0 && chars[end - 1] == '/'
        invariant
            end <= chars@.len(),
            chars@ == s@,
            strip_trailing_slashes(chars@.take(end as int)) == strip_trailing_slashes(s@),
        decreases end,
    {
        assert(chars@.take(end as int).drop_last() =~= chars@.take(end - 1));
        end = end - 1;
    }
    assert(chars@.take(end as int) =~= chars@.subrange(0, end as int));
    let kept = slice_range(chars.as_slice(), 0, end);
    string_from_chars(kept.as_slice())
}

fn labelled(label: &str, tail: &str) -> (r: String)
    ensures
        r@ == label@ + tail@,
{
    crate::text::concat(label, tail)
}

/// The base URL made of a parse result (see [`base_url_result`]); errors are
/// configuration errors.
pub fn base_url_from_parts(label: &str, parsed: Result<UrlParts, String>) -> (r: Result<String, AiError>)
    ensures
        match base_url_result(
            label@,
            match parsed {
                Ok(p) => Ok(url_parts_view(p)),
                Err(m) => Err(m@),
            },
        ) {
            Ok(u) => r matches Ok(s) && s@ == u,
            Err(m) => r matches Err(AiError::Config(msg)) && msg@ == m,
        },
{
    match parsed {
        Err(m) => {
            let mut msg = chars_of(label);
            extend_chars(&mut msg, chars_of(" is invalid: ").as_slice());
            extend_chars(&mut msg, chars_of(m.as_str()).as_slice());
            Err(AiError::Config(string_from_chars(msg.as_slice())))
        },
        Ok((scheme, user, has_password, host, has_query, has_fragment, serialized)) => {
            let local = match &host {
                Some(h) => str_eq(h.as_str(), "localhost") || str_eq(h.as_str(), "127.0.0.1")
                    || str_eq(h.as_str(), "::1"),
                None => false,
            };
            proof {
                reveal_strlit("localhost");
                reveal_strlit("127.0.0.1");
                reveal_strlit("::1");
                assert(local == is_local_host(opt_seq_of(host)));
            }
            if !str_eq(scheme.as_str(), "https") && !(str_eq(scheme.as_str(), "http") && local) {
                return Err(
                    AiError::Config(
                        labelled(label, " must be https:// or exact localhost/127.0.0.1/[::1] HTTP"),
                    ),
                );
            }
            if !user.as_str().is_empty() || has_password || has_query || has_fragment {
                return Err(
                    AiError::Config(labelled(label, " must not contain credentials, query, or fragment")),
                );
            }
            Ok(strip_slashes(serialized.as_str()))
        },
    }
}

spec fn opt_seq_of(s: Option<String>) -> Option<Seq<char>> {
    match s {
        Some(v) => Some(v@),
        None => None,
    }
}

/// A provider base URL checked for use (surrounding whitespace ignored):
/// https, or http to `localhost`, `127.0.0.1` or `::1` exactly; no user name,
/// password, query or fragment; trailing slashes removed. `label` names the
/// setting in the error messages.
pub fn validated_base_url(raw: &str, label: &str) -> (r: Result<String, AiError>)
    ensures
        match base_url_result(label@, url_parse(trim(raw@))) {
            Ok(u) => r matches Ok(s) && s@ == u,
            Err(m) => r matches Err(AiError::Config(msg)) && msg@ == m,
        },
{
    let t = trim_str(raw);
    let parsed = parse_url(t.as_str());
    base_url_from_parts(label, parsed)
}

/// A parsed base URL is accepted exactly when it is https, or http to
/// exactly "localhost", "127.0.0.1" or "::1", and carries no user name,
/// password, query or fragment.
pub proof fn lemma_base_url_rules(
    label: Seq<char>,
    p: Result<(Seq<char>, Seq<char>, bool, Option<Seq<char>>, bool, bool, Seq<char>), Seq<char>>,
)
    ensures
        base_url_result(label, p) is Ok <==> (p matches Ok((scheme, user, has_password, host, has_query, has_fragment, _))
            && (scheme == "https"@ || (scheme == "http"@ && (host == Some("localhost"@) || host == Some("127.0.0.1"@)
            || host == Some("::1"@)))) && user.len() == 0 && !has_password && !has_query && !has_fragment),
{
}

} // verus!
