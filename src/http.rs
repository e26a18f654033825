//! The small HTTP layer in front of the WebSocket bridge: splitting a request
//! into lines, reading its request line and headers, deciding between a
//! WebSocket upgrade, the status API and a 400, and laying out responses.
//! Everything works on bytes as read from the socket.

use vstd::prelude::*;
use vstd::utf8::encode_utf8;
use crate::wire::{push_bytes, copy_range, slice_equal};

verus! {

/// `needle` occurs in `hay` at `i`.
pub open spec fn occurs_at(hay: Seq<u8>, needle: Seq<u8>, i: int) -> bool {
    0 <= i && i + needle.len() <= hay.len() && hay.subrange(i, i + needle.len()) == needle
}

/// `i` is the first place where `needle` occurs in `hay`.
pub open spec fn first_at(hay: Seq<u8>, needle: Seq<u8>, i: int) -> bool {
    occurs_at(hay, needle, i) && forall|j: int| 0 <= j < i ==> !occurs_at(hay, needle, j)
}

pub open spec fn contains(hay: Seq<u8>, needle: Seq<u8>) -> bool {
    exists|i: int| occurs_at(hay, needle, i)
}

/// The first place where `needle` occurs in `hay` at or after `start`.
pub fn find_from(hay: &[u8], needle: &[u8], start: usize) -> (r: Option<usize>)
    ensures
        r matches Some(i) ==> start <= i && occurs_at(hay@, needle@, i as int) && forall|j: int|
            start <= j < i ==> !occurs_at(hay@, needle@, j),
        r is None ==> forall|j: int| start <= j ==> !occurs_at(hay@, needle@, j),
{
    if needle.len() > hay.len() || start > hay.len() - needle.len() {
        return None;
    }
    if needle.len() == 0 {
        assert(hay@.subrange(start as int, start as int) =~= needle@);
        return Some(start);
    }
    let last = hay.len() - needle.len();
    let mut i = start;
    while i <= last
        invariant
            last == hay@.len() - needle@.len(),
            needle@.len() > 0,
            hay@.len() <= usize::MAX,
            start <= i,
            forall|j: int| start <= j < i ==> !occurs_at(hay@, needle@, j),
        decreases last + 1 - i,
    {
        let mut k: usize = 0;
        let mut same = true;
        while k < needle.len()
            invariant
                i <= last,
                last == hay@.len() - needle@.len(),
                hay@.len() <= usize::MAX,
                k <= needle@.len(),
                same == forall|m: int| 0 <= m < k ==> hay@[i + m] == needle@[m],
            decreases needle@.len() - k,
        {
            if hay[i + k] != needle[k] {
                same = false;
            }
            k = k + 1;
        }
        if same {
            assert(hay@.subrange(i as int, i + needle@.len()) =~= needle@);
            return Some(i);
        }
        assert(!occurs_at(hay@, needle@, i as int)) by {
            if occurs_at(hay@, needle@, i as int) {
                assert forall|m: int| 0 <= m < needle@.len() implies hay@[i + m] == needle@[m] by {
                    assert(hay@.subrange(i as int, i + needle@.len())[m] == hay@[i + m]);
                }
            }
        }
        i = i + 1;
    }
    None
}

/// The first place where `needle` occurs in `hay`.
pub fn find(hay: &[u8], needle: &[u8]) -> (r: Option<usize>)
    ensures
        r matches Some(i) ==> first_at(hay@, needle@, i as int),
        r is None ==> !contains(hay@, needle@),
{
    find_from(hay, needle, 0)
}

/// The lines of `s` split at each "\r\n".
pub open spec fn lines_spec(s: Seq<u8>) -> Seq<Seq<u8>>
    decreases s.len(),
{
    if exists|i: int| first_at(s, seq![13u8, 10u8], i) {
        let i = choose|i: int| first_at(s, seq![13u8, 10u8], i);
        seq![s.subrange(0, i)] + lines_spec(s.subrange(i + 2, s.len() as int))
    } else {
        seq![s]
    }
}

proof fn lemma_first_unique(hay: Seq<u8>, needle: Seq<u8>, i: int, j: int)
    requires
        first_at(hay, needle, i),
        first_at(hay, needle, j),
    ensures
        i == j,
{
}

/// Splits a request at each "\r\n".
pub fn split_lines(request: &[u8]) -> (r: Vec<Vec<u8>>)
    ensures
        r@.map_values(|l: Vec<u8>| l@) == lines_spec(request@),
{
    let crlf: [u8; 2] = [13u8, 10u8];
    let separator = crlf.as_slice();
    let ghost sep = seq![13u8, 10u8];
    assert(separator@ =~= sep);
    assert(request@.subrange(0, request@.len() as int) =~= request@);
    let total = request.len();
    let mut lines: Vec<Vec<u8>> = Vec::new();
    let mut start: usize = 0;
    loop
        invariant
            separator@ == sep,
            sep == seq![13u8, 10u8],
            total == request@.len(),
            start <= request@.len(),
            lines@.map_values(|l: Vec<u8>| l@) + lines_spec(request@.subrange(start as int, request@.len() as int))
                == lines_spec(request@),
        decreases request@.len() - start,
    {
        let ghost rest = request@.subrange(start as int, request@.len() as int);
        match find_from(request, separator, start) {
            Some(i) => {
                let mut line: Vec<u8> = Vec::new();
                let mut k = start;
                while k < i
                    invariant
                        start <= k <= i,
                        i + 2 <= request@.len(),
                        line@ =~= request@.subrange(start as int, k as int),
                    decreases i - k,
                {
                    line.push(request[k]);
                    k = k + 1;
                }
                proof {
                    let w = (i - start) as int;
                    assert forall|j: int| 0 <= j < w implies !occurs_at(rest, sep, j) by {
                        assert(!occurs_at(request@, sep, start + j));
                        if occurs_at(rest, sep, j) {
                            assert(rest.subrange(j, j + 2) =~= request@.subrange(start + j, start + j + 2));
                        }
                    }
                    assert(rest.subrange(w, w + 2) =~= request@.subrange(i as int, i + 2));
                    assert(first_at(rest, sep, w));
                    let c = choose|c: int| first_at(rest, sep, c);
                    lemma_first_unique(rest, sep, c, w);
                    assert(rest.subrange(0, w) =~= line@);
                    assert(rest.subrange(w + 2, rest.len() as int) =~= request@.subrange(i + 2, request@.len() as int));
                }
                lines.push(line);
                proof {
                    let old_lines = lines@.drop_last();
                    assert(lines@.map_values(|l: Vec<u8>| l@) =~= old_lines.map_values(|l: Vec<u8>| l@).push(line@));
                    assert(seq![line@] + lines_spec(request@.subrange(i + 2, request@.len() as int)) == lines_spec(rest));
                    assert(old_lines.map_values(|l: Vec<u8>| l@).push(line@) + lines_spec(
                        request@.subrange(i + 2, request@.len() as int),
                    ) =~= old_lines.map_values(|l: Vec<u8>| l@) + (seq![line@] + lines_spec(
                        request@.subrange(i + 2, request@.len() as int),
                    )));
                }
                start = i + 2;
            },
            None => {
                let mut line: Vec<u8> = Vec::new();
                let mut k = start;
                while k < request.len()
                    invariant
                        start <= k <= request@.len(),
                        line@ =~= request@.subrange(start as int, k as int),
                    decreases request@.len() - k,
                {
                    line.push(request[k]);
                    k = k + 1;
                }
                proof {
                    assert forall|j: int| !first_at(rest, sep, j) by {
                        if first_at(rest, sep, j) {
                            assert(rest.subrange(j, j + 2) =~= request@.subrange(start + j, start + j + 2));
                            assert(occurs_at(request@, sep, start + j));
                        }
                    }
                    assert(lines_spec(rest) == seq![rest]);
                }
                lines.push(line);
                proof {
                    let old_lines = lines@.drop_last();
                    assert(lines@.map_values(|l: Vec<u8>| l@) =~= old_lines.map_values(|l: Vec<u8>| l@).push(line@));
                    assert(old_lines.map_values(|l: Vec<u8>| l@) + seq![rest] =~= old_lines.map_values(|l: Vec<u8>| l@).push(line@));
                }
                return lines;
            },
        }
    }
}


/// The byte views of some lines.
pub open spec fn lines_view(lines: Seq<Vec<u8>>) -> Seq<Seq<u8>> {
    lines.map_values(|l: Vec<u8>| l@)
}

/// Index of the first line that contains `needle`.
pub open spec fn first_line_with(lines: Seq<Seq<u8>>, needle: Seq<u8>) -> Option<int>
    decreases lines.len(),
{
    if lines.len() == 0 {
        None
    } else {
        match first_line_with(lines.drop_last(), needle) {
            Some(i) => Some(i),
            None => if contains(lines.last(), needle) {
                Some(lines.len() - 1)
            } else {
                None
            },
        }
    }
}

/// Where `needle` first occurs in `hay` (meaningful when it occurs).
pub open spec fn first_index(hay: Seq<u8>, needle: Seq<u8>) -> int {
    choose|i: int| first_at(hay, needle, i)
}

proof fn lemma_first_line_prefix(lines: Seq<Seq<u8>>, needle: Seq<u8>, k: int)
    requires
        0 <= k < lines.len(),
        first_line_with(lines.subrange(0, k), needle) is None,
    ensures
        contains(lines[k], needle) ==> first_line_with(lines.subrange(0, k + 1), needle) == Some(k),
        !contains(lines[k], needle) ==> first_line_with(lines.subrange(0, k + 1), needle) is None,
{
    assert(lines.subrange(0, k + 1).drop_last() =~= lines.subrange(0, k));
}

proof fn lemma_first_line_extends(lines: Seq<Seq<u8>>, needle: Seq<u8>, k: int, i: int)
    requires
        0 <= k <= lines.len(),
        first_line_with(lines.subrange(0, k), needle) == Some(i),
    ensures
        first_line_with(lines, needle) == Some(i),
    decreases lines.len() - k,
{
    if k < lines.len() {
        assert(lines.subrange(0, k + 1).drop_last() =~= lines.subrange(0, k));
        lemma_first_line_extends(lines, needle, k + 1, i);
    } else {
        assert(lines.subrange(0, k) =~= lines);
    }
}

/// The first line containing `needle`, and where in it.
pub fn find_line(lines: &Vec<Vec<u8>>, needle: &[u8]) -> (r: Option<(usize, usize)>)
    ensures
        r matches Some((i, p)) ==> first_line_with(lines_view(lines@), needle@) == Some(i as int) && i
            < lines@.len() && first_at(lines@[i as int]@, needle@, p as int),
        r is None ==> first_line_with(lines_view(lines@), needle@) is None,
{
    let ghost ls = lines_view(lines@);
    let mut k: usize = 0;
    assert(ls.subrange(0, 0) =~= Seq::<Seq<u8>>::empty());
    while k < lines.len()
        invariant
            ls == lines_view(lines@),
            k <= lines@.len(),
            first_line_with(ls.subrange(0, k as int), needle@) is None,
        decreases lines@.len() - k,
    {
        proof {
            lemma_first_line_prefix(ls, needle@, k as int);
        }
        match find(lines[k].as_slice(), needle) {
            Some(p) => {
                proof {
                    lemma_first_line_extends(ls, needle@, k + 1, k as int);
                }
                return Some((k, p));
            },
            None => {},
        }
        k = k + 1;
    }
    assert(ls.subrange(0, lines@.len() as int) =~= ls);
    None
}

/// `line` begins with `name`.
pub open spec fn starts_with(line: Seq<u8>, name: Seq<u8>) -> bool {
    name.len() <= line.len() && line.subrange(0, name.len() as int) == name
}

/// Index of the first line that begins with `name`.
pub open spec fn first_line_starting(lines: Seq<Seq<u8>>, name: Seq<u8>) -> Option<int>
    decreases lines.len(),
{
    if lines.len() == 0 {
        None
    } else {
        match first_line_starting(lines.drop_last(), name) {
            Some(i) => Some(i),
            None => if starts_with(lines.last(), name) {
                Some(lines.len() - 1)
            } else {
                None
            },
        }
    }
}

proof fn lemma_first_starting_prefix(lines: Seq<Seq<u8>>, name: Seq<u8>, k: int)
    requires
        0 <= k < lines.len(),
        first_line_starting(lines.subrange(0, k), name) is None,
    ensures
        starts_with(lines[k], name) ==> first_line_starting(lines.subrange(0, k + 1), name) == Some(k),
        !starts_with(lines[k], name) ==> first_line_starting(lines.subrange(0, k + 1), name) is None,
{
    assert(lines.subrange(0, k + 1).drop_last() =~= lines.subrange(0, k));
}

proof fn lemma_first_starting_extends(lines: Seq<Seq<u8>>, name: Seq<u8>, k: int, i: int)
    requires
        0 <= k <= lines.len(),
        first_line_starting(lines.subrange(0, k), name) == Some(i),
    ensures
        first_line_starting(lines, name) == Some(i),
    decreases lines.len() - k,
{
    if k < lines.len() {
        assert(lines.subrange(0, k + 1).drop_last() =~= lines.subrange(0, k));
        lemma_first_starting_extends(lines, name, k + 1, i);
    } else {
        assert(lines.subrange(0, k) =~= lines);
    }
}

/// The value of header `name` (written with its ": "): the rest of the
/// first line that begins with it.
pub open spec fn header_spec(lines: Seq<Seq<u8>>, name: Seq<u8>) -> Option<Seq<u8>> {
    match first_line_starting(lines, name) {
        Some(i) => Some(lines[i].subrange(name.len() as int, lines[i].len() as int)),
        None => None,
    }
}

/// The value of a header, given as `"Name: "`: the rest of the first line
/// that begins with it.
pub fn get_header(lines: &Vec<Vec<u8>>, name: &[u8]) -> (r: Option<Vec<u8>>)
    ensures
        match r {
            Some(v) => header_spec(lines_view(lines@), name@) == Some(v@),
            None => header_spec(lines_view(lines@), name@) is None,
        },
{
    let ghost ls = lines_view(lines@);
    let mut k: usize = 0;
    assert(ls.subrange(0, 0) =~= Seq::<Seq<u8>>::empty());
    while k < lines.len()
        invariant
            ls == lines_view(lines@),
            k <= lines@.len(),
            first_line_starting(ls.subrange(0, k as int), name@) is None,
        decreases lines@.len() - k,
    {
        proof {
            lemma_first_starting_prefix(ls, name@, k as int);
        }
        let line = lines[k].as_slice();
        assert(ls[k as int] == line@);
        if name.len() <= line.len() {
            let head = copy_range(line, 0, name.len());
            if slice_equal(head.as_slice(), name) {
                proof {
                    lemma_first_starting_extends(ls, name@, k + 1, k as int);
                }
                return Some(copy_range(line, name.len(), line.len()));
            }
        }
        k = k + 1;
    }
    assert(ls.subrange(0, lines@.len() as int) =~= ls);
    None
}

/// The client's `Sec-WebSocket-Key`, empty when it sent none.
pub fn get_websocket_key(lines: &Vec<Vec<u8>>) -> (r: Vec<u8>)
    ensures
        r@ == match header_spec(lines_view(lines@), ws_key_header()) {
            Some(k) => k,
            None => Seq::empty(),
        },
{
    match get_header(lines, "Sec-WebSocket-Key: ".as_bytes()) {
        Some(k) => k,
        None => Vec::new(),
    }
}

/// The HTTP version of a request: the first line holding "HTTP/", from
/// there on; empty when no line holds it.
pub open spec fn version_spec(lines: Seq<Seq<u8>>) -> Seq<u8> {
    let tag = encode_utf8("HTTP/"@);
    match first_line_with(lines, tag) {
        Some(i) => lines[i].subrange(first_index(lines[i], tag), lines[i].len() as int),
        None => Seq::empty(),
    }
}

pub fn get_version(lines: &Vec<Vec<u8>>) -> (r: Vec<u8>)
    ensures
        r@ == version_spec(lines_view(lines@)),
{
    let tag = "HTTP/".as_bytes();
    match find_line(lines, tag) {
        Some((i, p)) => {
            proof {
                let c = first_index(lines@[i as int]@, tag@);
                lemma_first_unique(lines@[i as int]@, tag@, c, p as int);
                assert(lines_view(lines@)[i as int] == lines@[i as int]@);
            }
            copy_range(lines[i].as_slice(), p, lines[i].len())
        },
        None => Vec::new(),
    }
}

/// The method of a request: "GET" or "POST", whichever the first line
/// holding either holds ("GET" first); empty when none does.
pub open spec fn method_spec(lines: Seq<Seq<u8>>) -> Seq<u8>
    decreases lines.len(),
{
    let get = encode_utf8("GET"@);
    let post = encode_utf8("POST"@);
    if lines.len() == 0 {
        Seq::empty()
    } else if contains(lines[0], get) {
        get
    } else if contains(lines[0], post) {
        post
    } else {
        method_spec(lines.drop_first())
    }
}

pub fn get_method(lines: &Vec<Vec<u8>>) -> (r: Vec<u8>)
    ensures
        r@ == method_spec(lines_view(lines@)),
{
    let get = "GET".as_bytes();
    let post = "POST".as_bytes();
    let ghost ls = lines_view(lines@);
    let mut k: usize = 0;
    assert(ls.subrange(0, ls.len() as int) =~= ls);
    while k < lines.len()
        invariant
            ls == lines_view(lines@),
            get@ == encode_utf8("GET"@),
            post@ == encode_utf8("POST"@),
            k <= lines@.len(),
            method_spec(ls) == method_spec(ls.subrange(k as int, ls.len() as int)),
        decreases lines@.len() - k,
    {
        let ghost rest = ls.subrange(k as int, ls.len() as int);
        assert(rest[0] == lines@[k as int]@);
        assert(rest.drop_first() =~= ls.subrange(k + 1, ls.len() as int));
        if find(lines[k].as_slice(), get).is_some() {
            let mut r: Vec<u8> = Vec::new();
            push_bytes(&mut r, get);
            return r;
        }
        if find(lines[k].as_slice(), post).is_some() {
            let mut r: Vec<u8> = Vec::new();
            push_bytes(&mut r, post);
            return r;
        }
        k = k + 1;
    }
    Vec::new()
}

/// The request line's method and target: the bytes of the first line up to
/// its first space, and from there to the next space (or the line's end).
pub open spec fn request_uri_spec(lines: Seq<Seq<u8>>) -> (Seq<u8>, Seq<u8>) {
    if lines.len() == 0 {
        (Seq::empty(), Seq::empty())
    } else {
        let line = lines[0];
        let space = seq![32u8];
        if !contains(line, space) {
            (line, Seq::empty())
        } else {
            let a = first_index(line, space);
            let rest = line.subrange(a + 1, line.len() as int);
            if !contains(rest, space) {
                (line.subrange(0, a), rest)
            } else {
                (line.subrange(0, a), rest.subrange(0, first_index(rest, space)))
            }
        }
    }
}

pub fn get_request_uri(lines: &Vec<Vec<u8>>) -> (r: (Vec<u8>, Vec<u8>))
    ensures
        (r.0@, r.1@) == request_uri_spec(lines_view(lines@)),
{
    if lines.len() == 0 {
        return (Vec::new(), Vec::new());
    }
    let line = &lines[0];
    let ghost lv = line@;
    assert(lines_view(lines@)[0] == lv);
    let space: [u8; 1] = [32u8];
    let sp = space.as_slice();
    assert(sp@ =~= seq![32u8]);
    match find(line.as_slice(), sp) {
        None => {
            let whole = copy_range(line.as_slice(), 0, line.len());
            assert(whole@ =~= lv);
            (whole, Vec::new())
        },
        Some(a) => {
            proof {
                lemma_first_unique(lv, sp@, first_index(lv, sp@), a as int);
            }
            let line_len = line.len();
            let method = copy_range(line.as_slice(), 0, a);
            let rest = copy_range(line.as_slice(), a + 1, line_len);
            match find(rest.as_slice(), sp) {
                None => (method, rest),
                Some(b) => {
                    proof {
                        lemma_first_unique(rest@, sp@, first_index(rest@, sp@), b as int);
                    }
                    let target = copy_range(rest.as_slice(), 0, b);
                    (method, target)
                },
            }
        },
    }
}


/// What a request to the bridge asks for.
#[derive(Clone, Debug)]
pub enum RequestKind {
    /// A WebSocket upgrade, with the client's key.
    Upgrade { key: Vec<u8> },
    /// A plain HTTP request for the status API.
    Api { method: Vec<u8>, uri: Vec<u8> },
    /// A WebSocket request in a version this server does not speak.
    BadRequest,
}

pub open spec fn ws_version_header() -> Seq<u8> {
    encode_utf8("Sec-WebSocket-Version: "@)
}

pub open spec fn ws_key_header() -> Seq<u8> {
    encode_utf8("Sec-WebSocket-Key: "@)
}

/// An HTTP/1.1 GET with `Sec-WebSocket-Version: 13`.
pub open spec fn is_upgrade(lines: Seq<Seq<u8>>) -> bool {
    &&& version_spec(lines) == encode_utf8("HTTP/1.1"@)
    &&& method_spec(lines) == encode_utf8("GET"@)
    &&& header_spec(lines, ws_version_header()) == Some(encode_utf8("13"@))
}

/// Sorts a request: an upgrade when it is an HTTP/1.1 GET with WebSocket
/// version 13; the status API when it names no WebSocket version; else a
/// bad request.
pub fn classify_request(lines: &Vec<Vec<u8>>) -> (r: RequestKind)
    ensures
        ({
            let ls = lines_view(lines@);
            &&& is_upgrade(ls) ==> (r matches RequestKind::Upgrade { key } && key@ == match header_spec(
                ls,
                ws_key_header(),
            ) {
                Some(k) => k,
                None => Seq::empty(),
            })
            &&& (!is_upgrade(ls) && header_spec(ls, ws_version_header()) is None) ==> (r matches RequestKind::Api {
                method,
                uri,
            } && (method@, uri@) == request_uri_spec(ls))
            &&& (!is_upgrade(ls) && header_spec(ls, ws_version_header()) is Some) ==> r is BadRequest
        }),
{
    let version = get_version(lines);
    let method = get_method(lines);
    let ws_version = get_header(lines, "Sec-WebSocket-Version: ".as_bytes());
    let upgrade = slice_equal(version.as_slice(), "HTTP/1.1".as_bytes()) && slice_equal(
        method.as_slice(),
        "GET".as_bytes(),
    ) && match &ws_version {
        Some(v) => slice_equal(v.as_slice(), "13".as_bytes()),
        None => false,
    };
    if upgrade {
        let key = match get_header(lines, "Sec-WebSocket-Key: ".as_bytes()) {
            Some(k) => k,
            None => Vec::new(),
        };
        RequestKind::Upgrade { key }
    } else if ws_version.is_none() {
        let (method, uri) = get_request_uri(lines);
        RequestKind::Api { method, uri }
    } else {
        RequestKind::BadRequest
    }
}

/// Header lines, each ended by "\r\n", then an empty line.
pub open spec fn headers_bytes(headers: Seq<Seq<u8>>) -> Seq<u8>
    decreases headers.len(),
{
    if headers.len() == 0 {
        seq![13u8, 10u8]
    } else {
        headers[0] + seq![13u8, 10u8] + headers_bytes(headers.drop_first())
    }
}

/// Lays out a response head from its lines.
pub fn response_from_headers(http_headers: &Vec<Vec<u8>>) -> (r: Vec<u8>)
    ensures
        r@ == headers_bytes(lines_view(http_headers@)),
{
    let ghost hs = lines_view(http_headers@);
    let mut out: Vec<u8> = Vec::new();
    let mut k: usize = 0;
    assert(hs.subrange(0, hs.len() as int) =~= hs);
    while k < http_headers.len()
        invariant
            hs == lines_view(http_headers@),
            k <= hs.len(),
            out@ + headers_bytes(hs.subrange(k as int, hs.len() as int)) == headers_bytes(hs),
        decreases hs.len() - k,
    {
        let ghost rest = hs.subrange(k as int, hs.len() as int);
        assert(rest.drop_first() =~= hs.subrange(k + 1, hs.len() as int));
        assert(rest[0] == http_headers@[k as int]@);
        let ghost before = out@;
        push_bytes(&mut out, http_headers[k].as_slice());
        out.push(13u8);
        out.push(10u8);
        assert(out@ =~= before + (rest[0] + seq![13u8, 10u8]));
        assert(before + headers_bytes(rest) =~= out@ + headers_bytes(rest.drop_first()));
        k = k + 1;
    }
    assert(hs.subrange(hs.len() as int, hs.len() as int) =~= Seq::<Seq<u8>>::empty());
    out.push(13u8);
    out.push(10u8);
    assert(out@ =~= headers_bytes(hs));
    out
}

/// The decimal digits of `n`.
pub open spec fn decimal(n: nat) -> Seq<u8>
    decreases n,
{
    if n < 10 {
        seq![(48 + n) as u8]
    } else {
        decimal(n / 10) + seq![(48 + n % 10) as u8]
    }
}

pub fn decimal_bytes(n: usize) -> (r: Vec<u8>)
    ensures
        r@ == decimal(n as nat),
    decreases n,
{
    if n < 10 {
        let r: Vec<u8> = vec![(48 + n) as u8];
        assert(r@ =~= decimal(n as nat));
        r
    } else {
        let mut r = decimal_bytes(n / 10);
        r.push((48 + n % 10) as u8);
        r
    }
}

fn bytes_of(s: &str) -> (r: Vec<u8>)
    ensures
        r@ == encode_utf8(s@),
{
    let mut r: Vec<u8> = Vec::new();
    push_bytes(&mut r, s.as_bytes());
    r
}

/// A complete response: status line, length and type headers, an empty
/// line, then the body.
pub open spec fn response_spec(status: Seq<u8>, content_type: Seq<u8>, body: Seq<u8>) -> Seq<u8> {
    headers_bytes(
        seq![status, encode_utf8("Content-length: "@) + decimal(body.len()), encode_utf8("Content-type: "@) + content_type],
    ) + body
}

pub fn response_with_body(status: &str, content_type: &str, body: &[u8]) -> (r: Vec<u8>)
    ensures
        r@ == response_spec(encode_utf8(status@), encode_utf8(content_type@), body@),
{
    let mut headers: Vec<Vec<u8>> = Vec::new();
    headers.push(bytes_of(status));
    let mut length = bytes_of("Content-length: ");
    let digits = decimal_bytes(body.len());
    push_bytes(&mut length, digits.as_slice());
    headers.push(length);
    let mut kind = bytes_of("Content-type: ");
    push_bytes(&mut kind, content_type.as_bytes());
    headers.push(kind);
    let mut out = response_from_headers(&headers);
    assert(lines_view(headers@) =~= seq![
        encode_utf8(status@),
        encode_utf8("Content-length: "@) + decimal(body@.len()),
        encode_utf8("Content-type: "@) + encode_utf8(content_type@),
    ]);
    push_bytes(&mut out, body);
    out
}

/// The 101 response that completes a WebSocket upgrade.
pub fn switching_protocols(accept_key: &String) -> (r: Vec<u8>)
    ensures
        r@ == headers_bytes(
            seq![
                encode_utf8("HTTP/1.1 101 Switching Protocols"@),
                encode_utf8("Upgrade: websocket"@),
                encode_utf8("Connection: Upgrade"@),
                encode_utf8("Sec-WebSocket-Accept: "@) + encode_utf8(accept_key@),
            ],
        ),
{
    let mut headers: Vec<Vec<u8>> = Vec::new();
    headers.push(bytes_of("HTTP/1.1 101 Switching Protocols"));
    headers.push(bytes_of("Upgrade: websocket"));
    headers.push(bytes_of("Connection: Upgrade"));
    let mut accept = bytes_of("Sec-WebSocket-Accept: ");
    push_bytes(&mut accept, accept_key.as_str().as_bytes());
    headers.push(accept);
    assert(lines_view(headers@) =~= seq![
        encode_utf8("HTTP/1.1 101 Switching Protocols"@),
        encode_utf8("Upgrade: websocket"@),
        encode_utf8("Connection: Upgrade"@),
        encode_utf8("Sec-WebSocket-Accept: "@) + encode_utf8(accept_key@),
    ]);
    response_from_headers(&headers)
}

/// The 400 response to a WebSocket request in another version.
pub fn bad_request() -> (r: Vec<u8>)
    ensures
        r@ == response_spec(
            encode_utf8("HTTP/1.1 400 Bad Request"@),
            encode_utf8("text/plain"@),
            encode_utf8("Websocket/HTTP Versions Unsupported"@),
        ),
{
    response_with_body("HTTP/1.1 400 Bad Request", "text/plain", "Websocket/HTTP Versions Unsupported".as_bytes())
}

} // verus!
