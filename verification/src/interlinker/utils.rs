//! The two pure helpers of the crawl: the link filter's validity check and the
//! domain extractor.

use vstd::prelude::*;
use crate::text::chars_of;

verus! {

/// The host of the URL that `input` parses to; `None` where `input` does not
/// parse as an absolute URL or the URL has no host.
pub uninterp spec fn url_host(input: Seq<char>) -> Option<Seq<char>>;

/// The dot-separated labels of `host`, in order. A host without a dot is one
/// label; a trailing dot ends in an empty label.
pub open spec fn labels(host: Seq<char>) -> Seq<Seq<char>>
    decreases host.len(),
{
    if host.len() == 0 {
        seq![Seq::<char>::empty()]
    } else {
        let before = labels(host.drop_last());
        if host.last() == '.' {
            before.push(Seq::<char>::empty())
        } else {
            before.drop_last().push(before.last().push(host.last()))
        }
    }
}

/// The last two labels of `host` joined by a dot; `None` where `host` has
/// fewer than two labels.
pub open spec fn registrable_domain(host: Seq<char>) -> Option<Seq<char>> {
    let parts = labels(host);
    if parts.len() >= 2 {
        Some(parts[parts.len() - 2] + seq!['.'] + parts[parts.len() - 1])
    } else {
        None
    }
}

/// The domain under which a URL is counted: the registrable domain of its host.
pub open spec fn domain_of(url: Seq<char>) -> Option<Seq<char>> {
    match url_host(url) {
        Some(host) => registrable_domain(host),
        None => None,
    }
}

/// Pluggable validity check applied to every link candidate. It accepts
/// every string.
pub fn is_valid_url(url: &str) -> (valid: bool)
    ensures
        valid,
{
    true
}

/// Calls `url::Url::parse` and, on the parsed URL, `Url::host_str`. Trusted:
/// the text handed back is the host that the `url` crate finds in `input`, and
/// nothing is handed back exactly when the crate rejects `input` or finds no
/// host in it.
#[verifier::external_body]
fn parsed_host(input: &str) -> (host: Option<String>)
    ensures
        host.deep_view() == url_host(input@),
{
    match url::Url::parse(input) {
        Ok(url) => url.host_str().map(|host| host.to_owned()),
        Err(_) => None,
    }
}

/// The registrable domain of a host name: its last two labels.
pub fn registrable(host: &str) -> (domain: Option<String>)
    ensures
        domain.deep_view() == registrable_domain(host@),
{
    let chars = chars_of(host);
    let mut dotted = false;
    let ghost mut count: int = 1;
    let mut last_start: usize = 0;
    let mut prev_start: usize = 0;
    let mut i: usize = 0;
    while i < chars.len()
        invariant
            chars@ == host@,
            i <= chars.len(),
            1 <= count,
            dotted == (count >= 2),
            labels(chars@.take(i as int)).len() == count,
            last_start <= i,
            labels(chars@.take(i as int)).last() == chars@.subrange(last_start as int, i as int),
            count >= 2 ==> {
                &&& prev_start < last_start
                &&& chars@[last_start - 1] == '.'
                &&& labels(chars@.take(i as int))[count - 2] == chars@.subrange(
                    prev_start as int,
                    last_start - 1,
                )
            },
        decreases chars.len() - i,
    {
        proof {
            let next = chars@.take(i + 1);
            assert(next.drop_last() =~= chars@.take(i as int));
            assert(next.last() == chars@[i as int]);
            if chars@[i as int] == '.' {
                assert(chars@.subrange(i + 1, i + 1) =~= Seq::<char>::empty());
            } else {
                assert(chars@.subrange(last_start as int, i + 1) =~= chars@.subrange(
                    last_start as int,
                    i as int,
                ).push(chars@[i as int]));
            }
        }
        if chars[i] == '.' {
            prev_start = last_start;
            last_start = i + 1;
            dotted = true;
            proof {
                count = count + 1;
            }
        }
        i += 1;
    }
    proof {
        assert(chars@.take(chars@.len() as int) =~= chars@);
    }
    if dotted {
        let domain = host.substring_char(prev_start, chars.len());
        proof {
            assert(domain@ =~= chars@.subrange(prev_start as int, last_start - 1) + seq!['.']
                + chars@.subrange(last_start as int, chars@.len() as int));
        }
        Some(domain.to_owned())
    } else {
        None
    }
}

/// The domain of a URL: the last two labels of its host. `None` where the
/// URL does not parse, has no host, or its host has fewer than two labels.
pub fn extract_domain(url_str: &str) -> (domain: Option<String>)
    ensures
        domain.deep_view() == domain_of(url_str@),
{
    match parsed_host(url_str) {
        Some(host) => registrable(host.as_str()),
        None => None,
    }
}

} // verus!
