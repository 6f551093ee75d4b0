//! The hosts of the official SDK, and the hosts that URLs and HTTP CONNECT requests name.

use vstd::prelude::*;
use vstd::slice::*;
use vstd::string::*;
use vstd::utf8::*;

use crate::encoding::utf8_text;
use crate::text::{
    chars_of, ends_with, find, find_from, first_of, holds_at, index_after_last, index_of_first,
    first_place_is_found, last_of, lemma_first_of, lemma_found, lemma_last_of, lemma_lowered_twice,
    lemma_lowered_without_trailing, lower, lower_case_is_what_a_text_reads_as, lowered,
    lowered_chars, lowered_without_dots, matches_at, position, reads_as, stands_at,
    trailing_characters_are_dropped, without_trailing,
};

verus! {

/// Error of a certificate check whose certificate names another host.
pub const CERT_E_CN_NO_MATCH: u32 = 0x800B_010F;

/// Whether a host belongs to the official SDK: dots at its end and ASCII case do not matter.
pub open spec fn official_host(host: Seq<char>) -> bool {
    let name = lowered(without_trailing(host, '.'));
    name == "sl916.com"@ || ends_with(name, ".sl916.com"@) || name == "game.local"@
}

fn is_official(chars: &Vec<char>, from: usize, to: usize) -> (found: bool)
    requires
        from <= to <= chars.len(),
    ensures
        found == official_host(chars@.subrange(from as int, to as int)),
{
    let name = lowered_without_dots(chars, from, to);
    let domain = chars_of("sl916.com");
    let suffix = chars_of(".sl916.com");
    let local = chars_of("game.local");
    same(&name, &domain) || (name.len() >= suffix.len() && holds_at(
        &name,
        &suffix,
        name.len() - suffix.len(),
    )) || same(&name, &local)
}

fn same(a: &Vec<char>, b: &Vec<char>) -> (equal: bool)
    ensures
        equal == (a@ == b@),
{
    let equal = a.len() == b.len() && holds_at(a, b, 0);
    assert(a@.subrange(0, a@.len() as int) == a@);
    equal
}

pub fn is_official_sdk_host(host: &str) -> (found: bool)
    ensures
        found == official_host(host@),
{
    let chars = chars_of(host);
    assert(chars@.subrange(0, chars@.len() as int) == host@);
    is_official(&chars, 0, chars.len())
}

/// Whether a failed check of a certificate is let pass: the certificate of a redirected host may
/// name another host, and nothing else may be wrong with it.
pub fn should_accept_private_cn_mismatch(host: &str, error: u32) -> (accepted: bool)
    ensures
        accepted == (error == CERT_E_CN_NO_MATCH && official_host(host@)),
{
    error == CERT_E_CN_NO_MATCH && is_official_sdk_host(host)
}

/// What stands behind the scheme of a URL.
pub open spec fn after_scheme(url: Seq<char>) -> Seq<char> {
    match find(url, "://"@) {
        Some(at) => url.skip(at + 3),
        None => url,
    }
}

/// The authority of a URL, without the user before an `@`.
pub open spec fn url_authority(url: Seq<char>) -> Seq<char> {
    let rest = after_scheme(url);
    let head = rest.take(first_of(rest, "/?#"@));
    head.skip(last_of(head, '@') + 1)
}

/// What stands between a bracket at the start of an authority and the first that closes it.
pub open spec fn bracketed(authority: Seq<char>) -> Option<Seq<char>> {
    let inner = authority.skip(1);
    if authority.len() > 0 && authority[0] == '[' && first_of(inner, "]"@) < inner.len() {
        Some(inner.take(first_of(inner, "]"@)))
    } else {
        None
    }
}

/// The host of a URL: what is bracketed in its authority, or what stands before the first colon.
pub open spec fn url_host(url: Seq<char>) -> Seq<char> {
    let authority = url_authority(url);
    match bracketed(authority) {
        Some(host) => host,
        None => authority.take(first_of(authority, ":"@)),
    }
}

/// Where the bracketed part of an authority stands.
fn find_bracketed(chars: &Vec<char>, from: usize, to: usize) -> (range: Option<(usize, usize)>)
    requires
        from <= to <= chars.len(),
    ensures
        ({
            let authority = chars@.subrange(from as int, to as int);
            match range {
                Some((start, end)) => {
                    &&& from <= start <= end <= to
                    &&& bracketed(authority) == Some(chars@.subrange(start as int, end as int))
                },
                None => bracketed(authority) is None,
            }
        }),
{
    let ghost authority = chars@.subrange(from as int, to as int);
    if from == to || chars[from] != '[' {
        return None;
    }
    assert(authority.skip(1) == chars@.subrange(from + 1, to as int));
    let closing = chars_of("]");
    let end = index_of_first(chars, &closing, from + 1, to);
    if end < to {
        assert(authority.skip(1).take(end - from - 1) == chars@.subrange(from + 1, end as int));
        Some((from + 1, end))
    } else {
        None
    }
}

pub fn is_official_sdk_url(url: &str) -> (found: bool)
    ensures
        found == official_host(url_host(url@)),
{
    let chars = chars_of(url);
    let separator = chars_of("://");
    proof {
        reveal_strlit("://");
    }
    let from = match position(&chars, &separator) {
        Some(at) => at + 3,
        None => 0,
    };
    let ghost rest = after_scheme(url@);
    assert(rest == chars@.subrange(from as int, chars@.len() as int));
    let stops = chars_of("/?#");
    let to = index_of_first(&chars, &stops, from, chars.len());
    let ghost head = rest.take(to - from);
    assert(head == chars@.subrange(from as int, to as int));
    let start = index_after_last(&chars, '@', from, to);
    let ghost authority = url_authority(url@);
    assert(authority == chars@.subrange(start as int, to as int));
    match find_bracketed(&chars, start, to) {
        Some((host_start, host_end)) => is_official(&chars, host_start, host_end),
        None => {
            let colon = chars_of(":");
            let end = index_of_first(&chars, &colon, start, to);
            assert(authority.take(end - start) == chars@.subrange(start as int, end as int));
            is_official(&chars, start, end)
        },
    }
}

/// The characters that separate the words of a request line.
pub open spec fn spaces() -> Seq<char> {
    seq![' ', '\t', '\n', '\r', '\u{c}']
}

/// How many spaces stand at the start of a line.
pub open spec fn leading_spaces(line: Seq<char>) -> int
    decreases line.len(),
{
    if line.len() > 0 && spaces().contains(line[0]) {
        1 + leading_spaces(line.skip(1))
    } else {
        0
    }
}

/// What a line holds from its first word on.
pub open spec fn from_word(line: Seq<char>) -> Seq<char> {
    line.skip(leading_spaces(line))
}

/// The first word of a line; empty where the line has none.
pub open spec fn first_word(line: Seq<char>) -> Seq<char> {
    from_word(line).take(first_of(from_word(line), spaces()))
}

/// What stands behind the first word of a line.
pub open spec fn after_word(line: Seq<char>) -> Seq<char> {
    from_word(line).skip(first_of(from_word(line), spaces()))
}

/// The host of an authority: what is bracketed in it, or what stands before the last colon.
pub open spec fn authority_host(authority: Seq<char>) -> Seq<char> {
    match bracketed(authority) {
        Some(host) => host,
        None => if last_of(authority, ':') >= 0 {
            authority.take(last_of(authority, ':'))
        } else {
            authority
        },
    }
}

/// The host of a request line that asks for a tunnel.
pub open spec fn tunnel_host(line: Seq<char>) -> Option<Seq<char>> {
    let target = first_word(after_word(line));
    if lowered(first_word(line)) == "connect"@ && target.len() > 0 {
        Some(authority_host(target))
    } else {
        None
    }
}

/// The end of a line in an HTTP request.
pub open spec fn crlf() -> Seq<u8> {
    seq![13u8, 10]
}

/// The first line of a request, where it is whole and in UTF-8.
pub open spec fn request_line(request: Seq<u8>) -> Option<Seq<char>> {
    match find(request, crlf()) {
        Some(end) => if valid_utf8(request.take(end)) {
            Some(decode_utf8(request.take(end)))
        } else {
            None
        },
        None => None,
    }
}

/// The host to which an HTTP request asks for a tunnel.
pub open spec fn connect_host(request: Seq<u8>) -> Option<Seq<char>> {
    match request_line(request) {
        Some(line) => tunnel_host(line),
        None => None,
    }
}

fn space_chars() -> (chars: Vec<char>)
    ensures
        chars@ == spaces(),
{
    vec![' ', '\t', '\n', '\r', '\u{c}']
}

fn skip_spaces(chars: &Vec<char>, from: usize) -> (at: usize)
    requires
        from <= chars.len(),
    ensures
        from <= at <= chars.len(),
        at == from + leading_spaces(chars@.skip(from as int)),
        chars@.skip(at as int) == from_word(chars@.skip(from as int)),
{
    let mut i: usize = from;
    while i < chars.len()
        invariant
            from <= i <= chars.len(),
            from + leading_spaces(chars@.skip(from as int)) == i + leading_spaces(
                chars@.skip(i as int),
            ),
        decreases chars.len() - i,
    {
        let c = chars[i];
        if !(c == ' ' || c == '\t' || c == '\n' || c == '\r' || c == '\u{c}') {
            assert(!spaces().contains(c));
            assert(chars@.skip(i as int) == from_word(chars@.skip(from as int)));
            return i;
        }
        assert(spaces().contains(c)) by {
            assert(spaces()[0] == ' ' && spaces()[1] == '\t' && spaces()[2] == '\n' && spaces()[3]
                == '\r' && spaces()[4] == '\u{c}');
        }
        assert(chars@.skip(i as int).skip(1) == chars@.skip(i + 1));
        i = i + 1;
    }
    assert(chars@.skip(i as int) == from_word(chars@.skip(from as int)));
    i
}

/// Where the first word from `from` on starts and ends.
fn find_word(chars: &Vec<char>, from: usize) -> (range: (usize, usize))
    requires
        from <= chars.len(),
    ensures
        from <= range.0 <= range.1 <= chars.len(),
        chars@.subrange(range.0 as int, range.1 as int) == first_word(chars@.skip(from as int)),
        chars@.skip(range.1 as int) == after_word(chars@.skip(from as int)),
{
    let start = skip_spaces(chars, from);
    let spaces = space_chars();
    let end = index_of_first(chars, &spaces, start, chars.len());
    assert(chars@.subrange(start as int, chars@.len() as int) == chars@.skip(start as int));
    assert(chars@.subrange(start as int, end as int) == chars@.skip(start as int).take(
        end - start,
    ));
    assert(chars@.skip(end as int) == chars@.skip(start as int).skip(end - start));
    (start, end)
}

/// Index of the first line end.
fn line_end(bytes: &[u8]) -> (end: Option<usize>)
    ensures
        match end {
            Some(end) => find(bytes@, crlf()) == Some(end as int) && end <= bytes@.len(),
            None => find(bytes@, crlf()) is None,
        },
{
    let mut i: usize = 0;
    while i < bytes.len() && bytes.len() - i >= 2
        invariant
            i <= bytes.len(),
            find(bytes@, crlf()) == find_from(bytes@, crlf(), i as int),
        decreases bytes.len() - i,
    {
        if bytes[i] == 13 && bytes[i + 1] == 10 {
            assert(bytes@.subrange(i as int, i + 2) == crlf());
            return Some(i);
        }
        assert(!stands_at(bytes@, crlf(), i as int)) by {
            assert(bytes@.subrange(i as int, i + 2)[0] == bytes@[i as int]);
            assert(bytes@.subrange(i as int, i + 2)[1] == bytes@[i + 1]);
            assert(crlf()[0] == 13 && crlf()[1] == 10);
        }
        i = i + 1;
    }
    None
}

/// Reads the host to which an HTTP request asks for a tunnel.
pub fn parse_connect_host(request: &[u8]) -> (host: Option<String>)
    ensures
        host is Some <==> connect_host(request@) is Some,
        host is Some ==> host->0@ == connect_host(request@)->0,
{
    let end = match line_end(request) {
        Some(end) => end,
        None => return None,
    };
    let line = match utf8_text(slice_to_vec(slice_subrange(request, 0, end))) {
        Some(line) => line,
        None => return None,
    };
    assert(request@.subrange(0, end as int) == request@.take(end as int));
    let chars = chars_of(line.as_str());
    assert(chars@.skip(0) == line@);
    let (method_start, method_end) = find_word(&chars, 0);
    let method = lowered_chars(&chars, method_start, method_end);
    let expected = chars_of("connect");
    if !same(&method, &expected) {
        return None;
    }
    let (start, to) = find_word(&chars, method_end);
    let ghost target = first_word(after_word(line@));
    assert(target == chars@.subrange(start as int, to as int));
    if start == to {
        return None;
    }
    match find_bracketed(&chars, start, to) {
        Some((host_start, host_end)) => Some(
            line.as_str().substring_char(host_start, host_end).to_owned(),
        ),
        None => {
            let after_colon = index_after_last(&chars, ':', start, to);
            if after_colon > start {
                assert(target.take(last_of(target, ':')) == chars@.subrange(
                    start as int,
                    after_colon - 1,
                ));
                Some(line.as_str().substring_char(start, after_colon - 1).to_owned())
            } else {
                Some(line.as_str().substring_char(start, to).to_owned())
            }
        },
    }
}

// Laws.

/// ASCII case does not decide whether a host is official.
pub proof fn official_hosts_ignore_case(host: Seq<char>)
    ensures
        official_host(lowered(host)) == official_host(host),
{
    lemma_lowered_without_trailing(host);
    lemma_lowered_twice(without_trailing(host, '.'));
}

/// A dot at its end does not decide whether a host is official.
pub proof fn official_hosts_ignore_a_trailing_dot(host: Seq<char>)
    ensures
        official_host(host.push('.')) == official_host(host),
{
    assert(host.push('.').drop_last() == host);
}

/// What stands before the official domain makes an official host exactly where it is nothing or
/// ends with a dot.
pub proof fn official_hosts_match_by_exact_suffix(front: Seq<char>)
    ensures
        official_host(front + "sl916.com"@) <==> front.len() == 0 || front.last() == '.',
{
    reveal_strlit("sl916.com");
    reveal_strlit(".sl916.com");
    reveal_strlit("game.local");
    let host = front + "sl916.com"@;
    let name = lowered(host);
    assert(host.last() == 'm');
    assert(without_trailing(host, '.') == host);
    assert(name.last() == 'm' && "game.local"@.last() == 'l');
    if front.len() == 0 {
        assert(name == "sl916.com"@);
    } else {
        assert(name.len() != "sl916.com"@.len());
        let at = name.len() - ".sl916.com"@.len();
        assert(at == front.len() - 1);
        assert(name[at] == lower(front.last()));
        let end = name.subrange(at, at + ".sl916.com"@.len());
        if front.last() == '.' {
            assert(end == ".sl916.com"@);
        } else {
            assert(end[0] == name[at]);
            assert(".sl916.com"@[0] == '.');
        }
    }
}

/// A URL is official by its host alone, whatever its scheme, its user, its port and its path are.
pub proof fn url_host_stands_behind_the_scheme(
    scheme: Seq<char>,
    user: Seq<char>,
    host: Seq<char>,
    port: Seq<char>,
    path: Seq<char>,
)
    requires
        forall|i: int| !#[trigger] stands_at(scheme, "://"@, i),
        user.len() > 0 ==> user.last() == '@',
        forall|i: int| 0 <= i < user.len() ==> !"/?#"@.contains(#[trigger] user[i]),
        host.len() > 0 && host[0] == '[' ==> !(host + port).contains(']'),
        forall|i: int| 0 <= i < host.len() ==> !"/?#@:"@.contains(#[trigger] host[i]),
        port.len() > 0 ==> port[0] == ':',
        forall|i: int| 0 <= i < port.len() ==> !"/?#@"@.contains(#[trigger] port[i]),
        path.len() > 0 ==> "/?#"@.contains(path[0]),
    ensures
        url_host(scheme + "://"@ + user + host + port + path) == host,
        find(user + host + port + path, "://"@) is None ==> url_host(user + host + port + path)
            == host,
{
    reveal_strlit("://");
    let rest = user + host + port + path;
    let url = scheme + "://"@ + user + host + port + path;
    let end = scheme.len() as int;
    assert(url.subrange(end, end + 3) == "://"@);
    assert forall|i: int| 0 <= i < end implies !#[trigger] stands_at(url, "://"@, i) by {
        if stands_at(url, "://"@, i) {
            let here = url.subrange(i, i + 3);
            assert(here[0] == ':' && here[1] == '/' && here[2] == '/');
            if i + 3 <= end {
                assert(scheme.subrange(i, i + 3) == here);
                assert(stands_at(scheme, "://"@, i));
            } else {
                assert(url[end] == ':');
                assert(here[end - i] == url[end]);
            }
        }
    }
    lemma_found(url, "://"@, 0, end);
    assert(url.skip(end + 3) == rest);
    lemma_host_of_rest(user, host, port, path);
}

/// The authority and the host of what stands behind the scheme of a URL.
proof fn lemma_host_of_rest(user: Seq<char>, host: Seq<char>, port: Seq<char>, path: Seq<char>)
    requires
        user.len() > 0 ==> user.last() == '@',
        forall|i: int| 0 <= i < user.len() ==> !"/?#"@.contains(#[trigger] user[i]),
        host.len() > 0 && host[0] == '[' ==> !(host + port).contains(']'),
        forall|i: int| 0 <= i < host.len() ==> !"/?#@:"@.contains(#[trigger] host[i]),
        port.len() > 0 ==> port[0] == ':',
        forall|i: int| 0 <= i < port.len() ==> !"/?#@"@.contains(#[trigger] port[i]),
        path.len() > 0 ==> "/?#"@.contains(path[0]),
    ensures
        ({
            let rest = user + host + port + path;
            let head = rest.take(first_of(rest, "/?#"@));
            let authority = head.skip(last_of(head, '@') + 1);
            &&& bracketed(authority) is None
            &&& authority.take(first_of(authority, ":"@)) == host
        }),
{
    reveal_strlit("/?#@:");
    reveal_strlit("/?#@");
    reveal_strlit("/?#");
    reveal_strlit(":");
    let all = "/?#@:"@;
    assert(all[0] == '/' && all[1] == '?' && all[2] == '#' && all[3] == '@' && all[4] == ':');
    let some = "/?#@"@;
    assert(some[0] == '/' && some[1] == '?' && some[2] == '#' && some[3] == '@');
    let rest = user + host + port + path;
    let authority = host + port;
    let front = user + authority;
    assert forall|i: int| 0 <= i < authority.len() implies !"/?#"@.contains(
        #[trigger] authority[i],
    ) && authority[i] != '@' by {
        if i < host.len() {
            assert(authority[i] == host[i]);
        } else {
            assert(authority[i] == port[i - host.len()]);
        }
    }
    assert forall|i: int| 0 <= i < front.len() implies !"/?#"@.contains(#[trigger] rest[i]) by {
        if i < user.len() {
            assert(rest[i] == user[i]);
        } else {
            assert(rest[i] == authority[i - user.len()]);
        }
    }
    if path.len() > 0 {
        assert(rest[front.len() as int] == path[0]);
    }
    lemma_first_of(rest, "/?#"@, front.len() as int);
    let head = rest.take(front.len() as int);
    assert(head == front);
    assert forall|i: int| user.len() <= i < front.len() implies #[trigger] front[i] != '@' by {
        assert(front[i] == authority[i - user.len()]);
    }
    lemma_last_of(head, '@', user.len() - 1);
    assert(head.skip(user.len() as int) == authority);
    assert(":"@[0] == ':');
    if port.len() > 0 {
        assert(authority[host.len() as int] == ':');
    }
    assert forall|i: int| 0 <= i < host.len() implies !":"@.contains(#[trigger] authority[i]) by {
        assert(authority[i] == host[i]);
    }
    lemma_first_of(authority, ":"@, host.len() as int);
    assert(authority.take(host.len() as int) == host);
    if authority.len() > 0 && host.len() > 0 {
        assert(authority[0] == host[0]);
    }
    lemma_not_bracketed(authority);
}

/// What does not start with a bracket, or has none that closes it, holds nothing bracketed.
proof fn lemma_not_bracketed(authority: Seq<char>)
    requires
        authority.len() > 0 && authority[0] == '[' ==> !authority.contains(']'),
    ensures
        bracketed(authority) is None,
{
    if authority.len() > 0 && authority[0] == '[' {
        reveal_strlit("]");
        let inner = authority.skip(1);
        assert forall|i: int| 0 <= i < inner.len() implies !"]"@.contains(#[trigger] inner[i]) by {
            assert(inner[i] == authority[i + 1]);
        }
        lemma_first_of(inner, "]"@, inner.len() as int);
    }
}

/// A request line that asks for a tunnel to a host and a port names that host, whatever follows.
pub proof fn tunnel_goes_to_the_host_before_the_port(
    method: Seq<char>,
    host: Seq<char>,
    port: Seq<char>,
    version: Seq<char>,
)
    requires
        lowered(method) == "connect"@,
        host.len() > 0 && host[0] == '[' ==> !(host + ":"@ + port).contains(']'),
        forall|i: int| 0 <= i < host.len() ==> !spaces().contains(#[trigger] host[i]),
        forall|i: int|
            0 <= i < port.len() ==> !spaces().contains(#[trigger] port[i]) && port[i] != ':',
    ensures
        tunnel_host(method + " "@ + host + ":"@ + port + " "@ + version) == Some(host),
{
    reveal_strlit("connect");
    reveal_strlit(" ");
    reveal_strlit(":");
    let line = method + " "@ + host + ":"@ + port + " "@ + version;
    let target = host + ":"@ + port;
    let behind = " "@ + target + " "@ + version;
    assert(spaces()[0] == ' ');
    assert(method.len() == 7) by {
        assert(lowered(method).len() == 7);
    }
    assert forall|i: int| 0 <= i < 7 implies !spaces().contains(#[trigger] method[i]) by {
        assert(lower(method[i]) == lowered(method)[i]);
        assert("connect"@[i] >= 'c');
        assert(method[i] >= 'A');
        assert(forall|j: int| 0 <= j < 5 ==> #[trigger] spaces()[j] <= ' ');
    }
    assert(line == method + behind);
    lemma_word(method, behind);
    assert forall|i: int| 0 <= i < target.len() implies !spaces().contains(
        #[trigger] target[i],
    ) by {
        if i < host.len() {
            assert(target[i] == host[i]);
        } else if i > host.len() {
            assert(target[i] == port[i - host.len() - 1]);
        }
    }
    assert(from_word(behind) == target + (" "@ + version)) by {
        assert(behind[0] == ' ');
        let after = behind.skip(1);
        assert(after == target + (" "@ + version));
        assert(after[0] == target[0]);
        assert(!spaces().contains(target[0]));
        assert(leading_spaces(after) == 0);
        assert(leading_spaces(behind) == 1);
    }
    lemma_word(target, " "@ + version);
    assert(from_word(target + (" "@ + version)) == target + (" "@ + version));
    assert(first_word(behind) == target);
    if host.len() > 0 {
        assert(target[0] == host[0]);
    }
    lemma_not_bracketed(target);
    lemma_last_of(target, ':', host.len() as int);
    assert(target.take(host.len() as int) == host);
}

/// A request asks for a tunnel to the host that its first line names, whatever the lines behind it
/// hold.
pub proof fn only_the_request_line_names_the_host(line: Seq<char>, rest: Seq<u8>)
    requires
        forall|i: int| !#[trigger] stands_at(encode_utf8(line), crlf(), i),
    ensures
        connect_host(encode_utf8(line) + crlf() + rest) == tunnel_host(line),
{
    let bytes = encode_utf8(line);
    let request = bytes + crlf() + rest;
    let end = bytes.len() as int;
    assert(request.subrange(end, end + 2) == crlf());
    assert forall|i: int| 0 <= i < end implies !#[trigger] stands_at(request, crlf(), i) by {
        if stands_at(request, crlf(), i) {
            let here = request.subrange(i, i + 2);
            assert(here[0] == 13 && here[1] == 10);
            if i + 2 <= end {
                assert(bytes.subrange(i, i + 2) == here);
                assert(stands_at(bytes, crlf(), i));
            } else {
                assert(here[1] == request[end]);
                assert(request[end] == crlf()[0]);
            }
        }
    }
    lemma_found(request, crlf(), 0, end);
    assert(request.take(end) == bytes);
    encode_utf8_valid_utf8(line);
    encode_utf8_decode_utf8(line);
}

/// A word with nothing before it and a space, or nothing, behind it is the first word.
proof fn lemma_word(word: Seq<char>, behind: Seq<char>)
    requires
        word.len() > 0,
        forall|i: int| 0 <= i < word.len() ==> !spaces().contains(#[trigger] word[i]),
        behind.len() > 0 ==> spaces().contains(behind[0]),
    ensures
        leading_spaces(word + behind) == 0,
        first_word(word + behind) == word,
        after_word(word + behind) == behind,
{
    let line = word + behind;
    assert(line[0] == word[0]);
    assert(from_word(line) == line);
    assert forall|i: int| 0 <= i < word.len() implies !spaces().contains(#[trigger] line[i]) by {
        assert(line[i] == word[i]);
    }
    lemma_first_of(line, spaces(), word.len() as int);
    assert(line.take(word.len() as int) == word);
    assert(line.skip(word.len() as int) == behind);
}

// Laws on every host, URL and request.

/// A host is official exactly where, up to ASCII case and without the dots at its end, it is the
/// official domain, a name under it, or the local name of the game.
pub proof fn official_hosts_are_known_by_name(name: Seq<char>, dots: Seq<char>)
    requires
        name.len() > 0 ==> name.last() != '.',
        forall|i: int| 0 <= i < dots.len() ==> #[trigger] dots[i] == '.',
    ensures
        official_host(name + dots) <==> {
            ||| reads_as(name, "sl916.com"@)
            ||| reads_as(name, "game.local"@)
            ||| name.len() >= 10 && reads_as(name.skip(name.len() - 10), ".sl916.com"@)
        },
{
    reveal_strlit("sl916.com");
    reveal_strlit(".sl916.com");
    reveal_strlit("game.local");
    trailing_characters_are_dropped(name, dots, '.');
    lower_case_is_what_a_text_reads_as(name, "sl916.com"@);
    lower_case_is_what_a_text_reads_as(name, "game.local"@);
    if name.len() >= 10 {
        let tail = name.skip(name.len() - 10);
        lower_case_is_what_a_text_reads_as(tail, ".sl916.com"@);
        assert(lowered(name).subrange(name.len() - 10, name.len() as int) == lowered(tail));
    }
}

/// The host of a URL may stand in brackets, and is then what stands between them.
pub proof fn bracketed_host_of_a_url(
    scheme: Seq<char>,
    user: Seq<char>,
    host: Seq<char>,
    behind: Seq<char>,
    path: Seq<char>,
)
    requires
        forall|i: int| !#[trigger] stands_at(scheme, "://"@, i),
        user.len() > 0 ==> user.last() == '@',
        forall|i: int| 0 <= i < user.len() ==> !"/?#"@.contains(#[trigger] user[i]),
        forall|i: int| 0 <= i < host.len() ==> !"/?#@]"@.contains(#[trigger] host[i]),
        forall|i: int| 0 <= i < behind.len() ==> !"/?#@"@.contains(#[trigger] behind[i]),
        path.len() > 0 ==> "/?#"@.contains(path[0]),
    ensures
        url_host(scheme + "://"@ + user + "["@ + host + "]"@ + behind + path) == host,
        find(user + "["@ + host + "]"@ + behind + path, "://"@) is None ==> url_host(
            user + "["@ + host + "]"@ + behind + path,
        ) == host,
{
    reveal_strlit("[");
    reveal_strlit("]");
    reveal_strlit("/?#@]");
    reveal_strlit("/?#@");
    reveal_strlit("/?#");
    let authority = "["@ + host + "]"@ + behind;
    let all = "/?#@]"@;
    assert(all[0] == '/' && all[1] == '?' && all[2] == '#' && all[3] == '@' && all[4] == ']');
    let some = "/?#@"@;
    assert(some[0] == '/' && some[1] == '?' && some[2] == '#' && some[3] == '@');
    assert forall|i: int| 0 <= i < authority.len() implies !"/?#"@.contains(
        #[trigger] authority[i],
    ) && authority[i] != '@' by {
        if 0 < i <= host.len() {
            assert(authority[i] == host[i - 1]);
        } else if i > host.len() + 1 {
            assert(authority[i] == behind[i - host.len() - 2]);
        }
    }
    assert forall|i: int| 0 <= i < host.len() implies #[trigger] host[i] != ']' by {
        assert(!all.contains(host[i]));
    }
    lemma_authority(scheme, user, authority, path);
    brackets_enclose_the_host(host, behind);
    assert(scheme + "://"@ + user + "["@ + host + "]"@ + behind + path == scheme + "://"@ + user
        + authority + path);
    assert(user + "["@ + host + "]"@ + behind + path == user + authority + path);
}

/// What stands between a bracket at the start and the first that closes it is what is bracketed.
proof fn brackets_enclose_the_host(host: Seq<char>, behind: Seq<char>)
    requires
        forall|i: int| 0 <= i < host.len() ==> #[trigger] host[i] != ']',
    ensures
        bracketed("["@ + host + "]"@ + behind) == Some(host),
{
    reveal_strlit("[");
    reveal_strlit("]");
    let authority = "["@ + host + "]"@ + behind;
    let inner = authority.skip(1);
    assert(authority[0] == '[');
    assert(inner == host + "]"@ + behind);
    assert forall|i: int| 0 <= i < host.len() implies !"]"@.contains(#[trigger] inner[i]) by {
        assert(inner[i] == host[i]);
    }
    assert(inner[host.len() as int] == "]"@[0]);
    lemma_first_of(inner, "]"@, host.len() as int);
    assert(inner.take(host.len() as int) == host);
}

/// The authority of a URL stands behind the scheme and the user, and before the path.
proof fn lemma_authority(
    scheme: Seq<char>,
    user: Seq<char>,
    authority: Seq<char>,
    path: Seq<char>,
)
    requires
        forall|i: int| !#[trigger] stands_at(scheme, "://"@, i),
        user.len() > 0 ==> user.last() == '@',
        forall|i: int| 0 <= i < user.len() ==> !"/?#"@.contains(#[trigger] user[i]),
        forall|i: int|
            0 <= i < authority.len() ==> !"/?#"@.contains(#[trigger] authority[i]) && authority[i]
                != '@',
        path.len() > 0 ==> "/?#"@.contains(path[0]),
    ensures
        url_authority(scheme + "://"@ + user + authority + path) == authority,
        find(user + authority + path, "://"@) is None ==> url_authority(user + authority + path)
            == authority,
{
    reveal_strlit("://");
    let rest = user + authority + path;
    let url = scheme + "://"@ + user + authority + path;
    let end = scheme.len() as int;
    assert(url.subrange(end, end + 3) == "://"@);
    assert forall|i: int| 0 <= i < end implies !#[trigger] stands_at(url, "://"@, i) by {
        if stands_at(url, "://"@, i) {
            let here = url.subrange(i, i + 3);
            assert(here[0] == ':' && here[1] == '/' && here[2] == '/');
            if i + 3 <= end {
                assert(scheme.subrange(i, i + 3) == here);
                assert(stands_at(scheme, "://"@, i));
            } else {
                assert(url[end] == ':');
                assert(here[end - i] == url[end]);
            }
        }
    }
    lemma_found(url, "://"@, 0, end);
    assert(url.skip(end + 3) == rest);
    let front = user + authority;
    assert forall|i: int| 0 <= i < front.len() implies !"/?#"@.contains(#[trigger] rest[i]) by {
        if i < user.len() {
            assert(rest[i] == user[i]);
        } else {
            assert(rest[i] == authority[i - user.len()]);
        }
    }
    if path.len() > 0 {
        assert(rest[front.len() as int] == path[0]);
    }
    lemma_first_of(rest, "/?#"@, front.len() as int);
    let head = rest.take(front.len() as int);
    assert(head == front);
    assert forall|i: int| user.len() <= i < front.len() implies #[trigger] front[i] != '@' by {
        assert(front[i] == authority[i - user.len()]);
    }
    lemma_last_of(head, '@', user.len() - 1);
    assert(head.skip(user.len() as int) == authority);
}

/// Whether a character separates words.
pub open spec fn is_space(c: char) -> bool {
    c == ' ' || c == '\t' || c == '\n' || c == '\r' || c == '\u{c}'
}

proof fn lemma_space(c: char)
    ensures
        spaces().contains(c) == is_space(c),
{
    let all = spaces();
    assert(all[0] == ' ' && all[1] == '\t' && all[2] == '\n' && all[3] == '\r' && all[4]
        == '\u{c}');
    if all.contains(c) {
        let i = choose|i: int| 0 <= i < all.len() && all[i] == c;
        assert(i == 0 || i == 1 || i == 2 || i == 3 || i == 4);
    }
}

proof fn lemma_leading(lead: Seq<char>, rest: Seq<char>)
    requires
        forall|i: int| 0 <= i < lead.len() ==> is_space(#[trigger] lead[i]),
        rest.len() > 0 ==> !is_space(rest[0]),
    ensures
        leading_spaces(lead + rest) == lead.len(),
        from_word(lead + rest) == rest,
    decreases lead.len(),
{
    let line = lead + rest;
    if lead.len() == 0 {
        if rest.len() > 0 {
            lemma_space(rest[0]);
        }
        assert(line == rest);
        assert(rest.skip(0) == rest);
    } else {
        lemma_space(lead[0]);
        assert(line[0] == lead[0]);
        assert(line.skip(1) == lead.skip(1) + rest);
        assert forall|i: int| 0 <= i < lead.skip(1).len() implies is_space(
            #[trigger] lead.skip(1)[i],
        ) by {
            assert(lead.skip(1)[i] == lead[i + 1]);
        }
        lemma_leading(lead.skip(1), rest);
        assert(line.skip(lead.len() as int) == rest);
    }
}

proof fn lemma_led_word(lead: Seq<char>, word: Seq<char>, behind: Seq<char>)
    requires
        forall|i: int| 0 <= i < lead.len() ==> is_space(#[trigger] lead[i]),
        word.len() > 0,
        forall|i: int| 0 <= i < word.len() ==> !is_space(#[trigger] word[i]),
        behind.len() > 0 ==> is_space(behind[0]),
    ensures
        first_word(lead + word + behind) == word,
        after_word(lead + word + behind) == behind,
{
    let rest = word + behind;
    assert(lead + word + behind == lead + rest);
    assert(rest[0] == word[0]);
    lemma_leading(lead, rest);
    assert forall|i: int| 0 <= i < word.len() implies !spaces().contains(#[trigger] word[i]) by {
        lemma_space(word[i]);
    }
    if behind.len() > 0 {
        lemma_space(behind[0]);
    }
    lemma_word(word, behind);
    assert(from_word(rest) == rest);
}

/// A request line asks for a tunnel by its first word, which is CONNECT in any ASCII case, and for
/// the host of its second, whatever spaces stand around them and whatever follows.
pub proof fn first_two_words_of_the_request_line_decide(
    lead: Seq<char>,
    method: Seq<char>,
    gap: Seq<char>,
    target: Seq<char>,
    behind: Seq<char>,
)
    requires
        forall|i: int| 0 <= i < lead.len() ==> is_space(#[trigger] lead[i]),
        method.len() > 0,
        forall|i: int| 0 <= i < method.len() ==> !is_space(#[trigger] method[i]),
        gap.len() > 0,
        forall|i: int| 0 <= i < gap.len() ==> is_space(#[trigger] gap[i]),
        target.len() > 0,
        forall|i: int| 0 <= i < target.len() ==> !is_space(#[trigger] target[i]),
        behind.len() > 0 ==> is_space(behind[0]),
    ensures
        tunnel_host(lead + method + gap + target + behind) == if reads_as(method, "connect"@) {
            Some(authority_host(target))
        } else {
            None
        },
{
    reveal_strlit("connect");
    let rest = gap + target + behind;
    assert(rest[0] == gap[0]);
    assert(lead + method + gap + target + behind == lead + method + rest);
    lemma_led_word(lead, method, rest);
    lemma_led_word(gap, target, behind);
    lower_case_is_what_a_text_reads_as(method, "connect"@);
}

/// A request line of fewer than two words asks for no tunnel.
pub proof fn one_word_asks_for_no_tunnel(lead: Seq<char>, method: Seq<char>, gap: Seq<char>)
    requires
        forall|i: int| 0 <= i < lead.len() ==> is_space(#[trigger] lead[i]),
        forall|i: int| 0 <= i < method.len() ==> !is_space(#[trigger] method[i]),
        forall|i: int| 0 <= i < gap.len() ==> is_space(#[trigger] gap[i]),
    ensures
        tunnel_host(lead + method + gap) is None,
{
    reveal_strlit("connect");
    let none: Seq<char> = seq![];
    if method.len() > 0 {
        lemma_led_word(lead, method, gap);
        lemma_leading(gap, none);
        assert(gap + none == gap);
    } else {
        let line = lead + gap;
        assert(lead + method + gap == line);
        lemma_leading(line, none);
        assert(line + none == line);
        assert(first_word(line).len() == 0);
        assert(lowered(first_word(line)).len() == 0);
    }
}

/// The host that a tunnel goes to is what is bracketed at the start of the target, and otherwise
/// what stands before its last colon, or all of it.
pub proof fn tunnel_targets_name_a_host(host: Seq<char>, behind: Seq<char>)
    ensures
        (forall|i: int| 0 <= i < host.len() ==> #[trigger] host[i] != ']') ==> authority_host(
            "["@ + host + "]"@ + behind,
        ) == host,
        (host.len() > 0 && host[0] == '[' ==> !(host + ":"@ + behind).contains(']'))
            && !behind.contains(':') ==> authority_host(host + ":"@ + behind) == host,
        (host.len() > 0 && host[0] == '[' ==> !host.contains(']')) && !host.contains(':')
            ==> authority_host(host) == host,
{
    reveal_strlit(":");
    if forall|i: int| 0 <= i < host.len() ==> #[trigger] host[i] != ']' {
        brackets_enclose_the_host(host, behind);
    }
    if (host.len() > 0 && host[0] == '[' ==> !(host + ":"@ + behind).contains(']'))
        && !behind.contains(':') {
        let target = host + ":"@ + behind;
        if host.len() > 0 {
            assert(target[0] == host[0]);
        }
        lemma_not_bracketed(target);
        assert(target[host.len() as int] == ':');
        assert forall|i: int| host.len() < i < target.len() implies #[trigger] target[i] != ':' by {
            assert(target[i] == behind[i - host.len() - 1]);
        }
        lemma_last_of(target, ':', host.len() as int);
        assert(target.take(host.len() as int) == host);
    }
    if (host.len() > 0 && host[0] == '[' ==> !host.contains(']')) && !host.contains(':') {
        lemma_not_bracketed(host);
        assert forall|i: int| -1 < i < host.len() implies #[trigger] host[i] != ':' by {}
        lemma_last_of(host, ':', -1);
    }
}

/// A request asks for what its first line asks for, if that is in UTF-8, and for nothing before that
/// line is whole.
pub proof fn requests_are_judged_by_their_first_line(line: Seq<u8>, rest: Seq<u8>)
    requires
        forall|i: int| 0 <= i && i + 1 < line.len() ==> !(#[trigger] line[i] == 13 && line[i + 1] == 10),
    ensures
        connect_host(line + seq![13u8, 10u8] + rest) == if valid_utf8(line) {
            tunnel_host(decode_utf8(line))
        } else {
            None
        },
        connect_host(line) is None,
{
    let end = line.len() as int;
    let request = line + seq![13u8, 10u8] + rest;
    assert(request.subrange(end, end + 2) == crlf());
    assert forall|i: int| 0 <= i < end implies !#[trigger] stands_at(request, crlf(), i) by {
        if stands_at(request, crlf(), i) {
            let here = request.subrange(i, i + 2);
            assert(here[0] == 13 && here[1] == 10);
            if i + 2 <= end {
                assert(line[i] == here[0] && line[i + 1] == here[1]);
            } else {
                assert(here[1] == request[end]);
                assert(request[end] == seq![13u8, 10u8][0]);
            }
        }
    }
    lemma_found(request, crlf(), 0, end);
    assert(request.take(end) == line);
    assert forall|i: int| !#[trigger] matches_at(line, crlf(), i) by {
        if matches_at(line, crlf(), i) {
            assert(line[i + 0] == crlf()[0] && line[i + 1] == crlf()[1]);
        }
    }
    first_place_is_found(line, crlf(), 0);
}

}
