//! Endpoint URLs: finding the host in `scheme://user@host:port/path`.

use crate::text::{find_char, lemma_prefix_len, lemma_suffix_len, other_than, prefix_len, suffix_len};
use vstd::prelude::*;
use vstd::string::*;

verus! {

/// Whether a scheme may hold `c`: a letter or digit of ASCII, `+`, `-` or
/// `.`.
pub open spec fn is_scheme_char(c: char) -> bool {
    ||| 'a' <= c <= 'z'
    ||| 'A' <= c <= 'Z'
    ||| '0' <= c <= '9'
    ||| c == '+'
    ||| c == '-'
    ||| c == '.'
}

/// Whether `c` ends the authority of a URL: the path, the query or the
/// fragment begins with it.
pub open spec fn ends_authority(c: char) -> bool {
    c == '/' || c == '?' || c == '#'
}

/// The class of characters that a scheme may hold.
pub open spec fn scheme_chars() -> spec_fn(char) -> bool {
    |c: char| is_scheme_char(c)
}

/// The class of characters that do not end an authority.
pub open spec fn authority_chars() -> spec_fn(char) -> bool {
    |c: char| !ends_authority(c)
}

/// Where the authority of `url` begins: behind `://` where the URL starts
/// with a scheme and `://`, and at the start where it does not.
pub open spec fn authority_start(url: Seq<char>) -> int {
    let n = prefix_len(url, scheme_chars()) as int;
    if 0 < n && n + 3 <= url.len() && url[n] == ':' && url[n + 1] == '/' && url[n + 2] == '/' {
        n + 3
    } else {
        0
    }
}

/// The authority of `url`: what stands between the scheme and the path,
/// query or fragment.
pub open spec fn authority_of(url: Seq<char>) -> Seq<char> {
    let rest = url.skip(authority_start(url));
    rest.take(prefix_len(rest, authority_chars()) as int)
}

/// The host of an authority `user@host:port`: what follows the last `@`,
/// up to the first `:`. An address in brackets is a host as a whole,
/// brackets included.
pub open spec fn host_of_authority(authority: Seq<char>) -> Seq<char> {
    let server = authority.skip(authority.len() - suffix_len(authority, other_than('@')));
    if server.len() > 0 && server[0] == '[' {
        let close = prefix_len(server, other_than(']')) as int;
        if close < server.len() {
            server.take(close + 1)
        } else {
            server
        }
    } else {
        server.take(prefix_len(server, other_than(':')) as int)
    }
}

/// The host of `url`.
pub open spec fn host_of(url: Seq<char>) -> Seq<char> {
    host_of_authority(authority_of(url))
}

/// A host holds none of the characters that end an authority, and no `@`.
pub proof fn lemma_host_chars(url: Seq<char>)
    ensures
        forall|j: int|
            0 <= j < host_of(url).len() ==> !ends_authority(#[trigger] host_of(url)[j])
                && host_of(url)[j] != '@',
{
    let rest = url.skip(authority_start(url));
    let k = prefix_len(rest, authority_chars()) as int;
    lemma_prefix_len(rest, authority_chars(), k);
    let authority = authority_of(url);
    let back = suffix_len(authority, other_than('@')) as int;
    lemma_suffix_len(authority, other_than('@'), back);
    let server = authority.skip(authority.len() - back);
    let close = prefix_len(server, other_than(']')) as int;
    lemma_prefix_len(server, other_than(']'), close);
    let colon = prefix_len(server, other_than(':')) as int;
    lemma_prefix_len(server, other_than(':'), colon);
    let host = host_of(url);
    assert forall|j: int| 0 <= j < host.len() implies !ends_authority(#[trigger] host[j])
        && host[j] != '@' by {
        let at = authority.len() - back + j;
        assert(host[j] == authority[at]);
        assert(authority[at] == rest[at]);
        assert(authority_chars()(rest[at]));
        assert(other_than('@')(authority[at]));
    }
}

/// Whether a scheme may hold `c`.
fn scheme_char(c: char) -> (yes: bool)
    ensures
        yes == is_scheme_char(c),
{
    ('a' <= c && c <= 'z') || ('A' <= c && c <= 'Z') || ('0' <= c && c <= '9') || c == '+' || c
        == '-' || c == '.'
}

/// Finds where the authority of `url` begins.
fn find_authority_start(url: &str, n: usize) -> (start: usize)
    requires
        n == url@.len(),
    ensures
        start == authority_start(url@),
        start <= n,
{
    let mut scheme: usize = 0;
    while scheme < n && scheme_char(url.get_char(scheme))
        invariant
            n == url@.len(),
            scheme <= n,
            forall|j: int| 0 <= j < scheme ==> is_scheme_char(url@[j]),
        decreases n - scheme,
    {
        scheme += 1;
    }
    proof {
        lemma_prefix_len(url@, scheme_chars(), scheme as int);
    }
    if 0 < scheme && n - scheme >= 3 && url.get_char(scheme) == ':' && url.get_char(scheme + 1)
        == '/' && url.get_char(scheme + 2) == '/' {
        scheme + 3
    } else {
        0
    }
}

/// Finds where the authority that begins at `start` ends.
fn find_authority_end(url: &str, start: usize, n: usize) -> (end: usize)
    requires
        start <= n == url@.len(),
    ensures
        start <= end <= n,
        end - start == prefix_len(url@.skip(start as int), authority_chars()),
{
    let mut end = start;
    while end < n && !(url.get_char(end) == '/' || url.get_char(end) == '?' || url.get_char(end)
        == '#')
        invariant
            n == url@.len(),
            start <= end <= n,
            forall|j: int| start <= j < end ==> !ends_authority(url@[j]),
        decreases n - end,
    {
        end += 1;
    }
    proof {
        let rest = url@.skip(start as int);
        assert forall|j: int| 0 <= j < end - start implies authority_chars()(
            #[trigger] rest[j],
        ) by {
            assert(rest[j] == url@[start + j]);
        }
        lemma_prefix_len(rest, authority_chars(), end - start);
    }
    end
}

/// Finds where the part of the authority behind its last `@` begins.
fn find_server_start(url: &str, start: usize, end: usize) -> (from: usize)
    requires
        start <= end <= url@.len(),
    ensures
        start <= from <= end,
        end - from == suffix_len(url@.subrange(start as int, end as int), other_than('@')),
{
    let mut from = end;
    while from > start && url.get_char(from - 1) != '@'
        invariant
            start <= from <= end <= url@.len(),
            forall|j: int| from <= j < end ==> url@[j] != '@',
        decreases from,
    {
        from -= 1;
    }
    proof {
        let authority = url@.subrange(start as int, end as int);
        assert forall|j: int|
            authority.len() - (end - from) <= j < authority.len() implies other_than('@')(
            #[trigger] authority[j],
        ) by {
            assert(authority[j] == url@[start + j]);
        }
        lemma_suffix_len(authority, other_than('@'), end - from);
    }
    from
}

/// Finds the host of a URL. The text may lack the scheme, and then begins
/// with the authority.
pub fn hostname(url: &str) -> (host: &str)
    ensures
        host@ == host_of(url@),
{
    let n = url.unicode_len();
    let start = find_authority_start(url, n);
    let end = find_authority_end(url, start, n);
    let from = find_server_start(url, start, end);
    let ghost authority = url@.subrange(start as int, end as int);
    let ghost server = url@.subrange(from as int, end as int);
    proof {
        assert(url@.skip(start as int).take(end - start) =~= authority);
        assert(authority.skip(authority.len() - (end - from)) =~= server);
    }
    let to = if from < end && url.get_char(from) == '[' {
        let close = find_char(url, ']', from, end);
        if close < end {
            close + 1
        } else {
            end
        }
    } else {
        find_char(url, ':', from, end)
    };
    proof {
        assert(server.take(to - from) =~= url@.subrange(from as int, to as int));
        assert(server.take(server.len() as int) =~= server);
    }
    url.substring_char(from, to)
}

} // verus!
