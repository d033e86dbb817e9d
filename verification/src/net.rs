//! Addresses, and the readiness probe over HTTP.
use vstd::prelude::*;

use crate::text::{
    after_last, decimal, is_digit, lemma_after_last, lemma_decimal, lemma_len_to, lemma_pieces_apart,
    lemma_pieces_one, len_to, number, parse_u16, pieces, reading_undoes_writing, split, tail_after,
    texts, to_decimal,
};

verus! {

/// The port where a URL names none.
pub const DEFAULT_PORT: u16 = 3080;

/// How long a connection may take, in milliseconds.
pub const CONNECT_MS: u64 = 500;

/// How long a reply may take, in milliseconds.
pub const READ_MS: u64 = 1000;

/// How many bytes of a reply are read.
pub const REPLY_BYTES: usize = 256;

/// The port that a URL names: behind the last colon of what stands between its second and its
/// third slash, or the default port where that is no port number.
pub open spec fn port_of(url: Seq<char>) -> u16 {
    let parts = pieces(url, '/');
    if parts.len() > 2 {
        match number(after_last(parts[2], ':'), u16::MAX as nat) {
            Some(n) => n as u16,
            None => DEFAULT_PORT,
        }
    } else {
        DEFAULT_PORT
    }
}

/// The port that a URL names, or the default port.
pub fn parse_port(url: &str) -> (r: u16)
    ensures
        r == port_of(url@),
{
    let parts: Vec<String> = split(url, '/');
    assert(parts@.len() == texts(parts@).len());
    if parts.len() > 2 {
        assert(texts(parts@)[2] == parts@[2]@);
        match parse_u16(tail_after(parts[2].as_str(), ':').as_str()) {
            Some(n) => n,
            None => DEFAULT_PORT,
        }
    } else {
        DEFAULT_PORT
    }
}

/// The request that asks the local service for its root page.
pub open spec fn request_text(port: u16) -> Seq<char> {
    "GET / HTTP/1.1\r\nHost: 127.0.0.1:"@ + decimal(port as nat) + "\r\nConnection: close\r\n\r\n"@
}

/// The request that asks the local service for its root page.
pub fn http_request(port: u16) -> (r: String)
    ensures
        r@ == request_text(port),
{
    let mut r: String = "GET / HTTP/1.1\r\nHost: 127.0.0.1:".to_owned();
    r.append(to_decimal(port as u64).as_str());
    r.append("\r\nConnection: close\r\n\r\n");
    r
}

/// Whether the bytes `HTTP/` stand at a place in a reply.
pub open spec fn http_at(reply: Seq<u8>, i: int) -> bool {
    &&& 0 <= i
    &&& i + 5 <= reply.len()
    &&& reply[i] == 0x48
    &&& reply[i + 1] == 0x54
    &&& reply[i + 2] == 0x54
    &&& reply[i + 3] == 0x50
    &&& reply[i + 4] == 0x2f
}

/// Whether what the service sent back is HTTP: the bytes `HTTP/` stand somewhere in it.
pub fn http_ok(reply: &[u8]) -> (r: bool)
    ensures
        r == exists|i: int| http_at(reply@, i),
{
    let n: usize = reply.len();
    if n < 5 {
        return false;
    }
    let mut i: usize = 0;
    while i <= n - 5
        invariant
            n == reply@.len(),
            5 <= n,
            i <= n - 4,
            forall|j: int| 0 <= j < i ==> !http_at(reply@, j),
        decreases n - i,
    {
        if reply[i] == 0x48 && reply[i + 1] == 0x54 && reply[i + 2] == 0x54 && reply[i + 3] == 0x50
            && reply[i + 4] == 0x2f {
            assert(http_at(reply@, i as int));
            return true;
        }
        i = i + 1;
    }
    false
}

proof fn lemma_no_slash(host: Seq<char>, port: u16)
    requires
        !host.contains('/'),
    ensures
        !(host + seq![':'] + decimal(port as nat)).contains('/'),
        !decimal(port as nat).contains(':'),
{
    let digits = decimal(port as nat);
    lemma_decimal(port as nat);
    let s = host + seq![':'] + digits;
    if s.contains('/') {
        let i = choose|i: int| 0 <= i < s.len() && s[i] == '/';
        if i < host.len() {
            assert(host[i] == '/');
        } else if i > host.len() {
            assert(digits[i - host.len() - 1] == '/');
            assert(is_digit(digits[i - host.len() - 1]));
        }
    }
    if digits.contains(':') {
        let i = choose|i: int| 0 <= i < digits.len() && digits[i] == ':';
        assert(is_digit(digits[i]));
    }
}

/// An address: a scheme, two slashes, an authority, and then nothing or a slash and a path.
pub open spec fn address(scheme: Seq<char>, authority: Seq<char>, path: Option<Seq<char>>) -> Seq<char> {
    scheme + seq!['/'] + (Seq::<char>::empty() + seq!['/'] + (match path {
        Some(p) => authority + seq!['/'] + p,
        None => authority,
    }))
}

proof fn lemma_authority(scheme: Seq<char>, authority: Seq<char>, path: Option<Seq<char>>)
    requires
        !scheme.contains('/'),
        !authority.contains('/'),
    ensures
        pieces(address(scheme, authority, path), '/').len() > 2,
        pieces(address(scheme, authority, path), '/')[2] == authority,
{
    let rest = match path {
        Some(p) => authority + seq!['/'] + p,
        None => authority,
    };
    lemma_pieces_apart(scheme, '/', Seq::<char>::empty() + seq!['/'] + rest);
    lemma_pieces_apart(Seq::empty(), '/', rest);
    match path {
        Some(p) => lemma_pieces_apart(authority, '/', p),
        None => lemma_pieces_one(authority, '/'),
    }
    assert(pieces(rest, '/')[0] == authority);
}

/// The port that an address names is found: for every scheme and host, behind which come a colon
/// and the port in decimal, and then nothing or a slash and anything.
pub proof fn port_in_address_is_found(
    scheme: Seq<char>,
    host: Seq<char>,
    port: u16,
    path: Option<Seq<char>>,
)
    requires
        !scheme.contains('/'),
        !host.contains('/'),
    ensures
        port_of(address(scheme, host + seq![':'] + decimal(port as nat), path)) == port,
{
    lemma_no_slash(host, port);
    lemma_authority(scheme, host + seq![':'] + decimal(port as nat), path);
    lemma_after_last(host, ':', decimal(port as nat));
    reading_undoes_writing(port as nat, u16::MAX as nat);
}

/// An address whose authority does not end in a port number has the default port.
pub proof fn address_without_port_has_default_port(
    scheme: Seq<char>,
    authority: Seq<char>,
    path: Option<Seq<char>>,
)
    requires
        !scheme.contains('/'),
        !authority.contains('/'),
        number(after_last(authority, ':'), u16::MAX as nat) is None,
    ensures
        port_of(address(scheme, authority, path)) == DEFAULT_PORT,
{
    lemma_authority(scheme, authority, path);
}

/// The pieces of two texts with a `c` between them are those of both.
proof fn lemma_pieces_joined(a: Seq<char>, c: char, b: Seq<char>)
    ensures
        pieces(a + seq![c] + b, c) == pieces(a, c) + pieces(b, c),
    decreases a.len(),
{
    let n = len_to(a, c) as int;
    lemma_len_to(a, c);
    let head = a.take(n);
    assert(!head.contains(c)) by {
        if head.contains(c) {
            let i = choose|i: int| 0 <= i < n && head[i] == c;
            assert(a[i] == c);
        }
    }
    if n < a.len() {
        let rest = a.skip(n + 1);
        assert(a + seq![c] + b == head + seq![c] + (rest + seq![c] + b));
        lemma_pieces_apart(head, c, rest + seq![c] + b);
        lemma_pieces_joined(rest, c, b);
        assert(seq![head] + (pieces(rest, c) + pieces(b, c)) == pieces(a, c) + pieces(b, c));
    } else {
        assert(head == a);
        lemma_pieces_apart(a, c, b);
    }
}

/// What follows a further slash never changes the port of an address.
pub proof fn rest_of_address_keeps_the_port(url: Seq<char>, rest: Seq<char>)
    requires
        pieces(url, '/').len() > 2,
    ensures
        port_of(url + seq!['/'] + rest) == port_of(url),
{
    lemma_pieces_joined(url, '/', rest);
}

/// A text with fewer than two slashes names no port, and has the default one.
pub proof fn bare_text_has_default_port(before: Seq<char>, after: Option<Seq<char>>)
    requires
        !before.contains('/'),
        after matches Some(t) ==> !t.contains('/'),
    ensures
        port_of(
            match after {
                Some(t) => before + seq!['/'] + t,
                None => before,
            },
        ) == DEFAULT_PORT,
{
    match after {
        Some(t) => {
            lemma_pieces_apart(before, '/', t);
            lemma_pieces_one(t, '/');
        },
        None => lemma_pieces_one(before, '/'),
    }
}

/// A reply that begins with a status line is taken for HTTP, and so is any reply that holds one.
pub proof fn status_line_is_http(before: Seq<u8>, after: Seq<u8>)
    ensures
        exists|i: int|
            http_at(before + seq![0x48u8, 0x54u8, 0x54u8, 0x50u8, 0x2fu8] + after, i),
{
    assert(http_at(
        before + seq![0x48u8, 0x54u8, 0x54u8, 0x50u8, 0x2fu8] + after,
        before.len() as int,
    ));
}

/// Of any text with two slashes or more the port is the number behind the last colon of what stands
/// behind the second slash, up to a third or to the end; or 3080 where that is no port number.
pub proof fn second_slash_leads_to_the_port(
    a: Seq<char>,
    b: Seq<char>,
    authority: Seq<char>,
    path: Option<Seq<char>>,
)
    requires
        !a.contains('/'),
        !b.contains('/'),
        !authority.contains('/'),
    ensures
        port_of(
            a + seq!['/'] + (b + seq!['/'] + (match path {
                Some(p) => authority + seq!['/'] + p,
                None => authority,
            })),
        ) == (match number(after_last(authority, ':'), 65535) {
            Some(n) => n as u16,
            None => 3080u16,
        }),
{
    let rest = match path {
        Some(p) => authority + seq!['/'] + p,
        None => authority,
    };
    lemma_pieces_apart(a, '/', b + seq!['/'] + rest);
    lemma_pieces_apart(b, '/', rest);
    match path {
        Some(p) => lemma_pieces_apart(authority, '/', p),
        None => lemma_pieces_one(authority, '/'),
    }
    let parts = pieces(a + seq!['/'] + (b + seq!['/'] + rest), '/');
    assert(pieces(rest, '/')[0] == authority);
    assert(parts[2] == authority);
}

/// The request asks for the root page of the local host at the port, whichever that is, and for the
/// connection to be closed, line by line and with an empty line at its end.
pub proof fn request_names_the_port(port: u16)
    ensures
        pieces(request_text(port), '\n') == seq![
            "GET / HTTP/1.1\r"@,
            "Host: 127.0.0.1:"@ + decimal(port as nat) + seq!['\r'],
            "Connection: close\r"@,
            seq!['\r'],
            Seq::<char>::empty(),
        ],
{
    reveal_strlit("GET / HTTP/1.1\r\nHost: 127.0.0.1:");
    reveal_strlit("\r\nConnection: close\r\n\r\n");
    reveal_strlit("GET / HTTP/1.1\r");
    reveal_strlit("Host: 127.0.0.1:");
    reveal_strlit("Connection: close\r");
    let first = "GET / HTTP/1.1\r"@;
    let host = "Host: 127.0.0.1:"@ + decimal(port as nat) + seq!['\r'];
    let third = "Connection: close\r"@;
    let bare = seq!['\r'];
    let none = Seq::<char>::empty();
    let tail3 = bare + seq!['\n'] + none;
    let tail2 = third + seq!['\n'] + tail3;
    let tail1 = host + seq!['\n'] + tail2;
    assert(request_text(port) =~= first + seq!['\n'] + tail1);
    lemma_decimal(port as nat);
    assert(!host.contains('\n')) by {
        if host.contains('\n') {
            let i = choose|i: int| 0 <= i < host.len() && host[i] == '\n';
            let k = "Host: 127.0.0.1:"@.len();
            if i >= k && i < k + decimal(port as nat).len() {
                assert(host[i] == decimal(port as nat)[i - k]);
                assert(is_digit(decimal(port as nat)[i - k]));
            }
        }
    }
    assert(!first.contains('\n'));
    assert(!third.contains('\n'));
    lemma_pieces_apart(first, '\n', tail1);
    lemma_pieces_apart(host, '\n', tail2);
    lemma_pieces_apart(third, '\n', tail3);
    lemma_pieces_apart(bare, '\n', none);
    lemma_pieces_one(none, '\n');
    assert(pieces(request_text(port), '\n') =~= seq![first, host, third, bare, none]);
}

} // verus!
