//! The read-only status API served next to the WebSocket bridge: routing,
//! pair-key authentication, and the fixed responses.

use vstd::prelude::*;
use vstd::utf8::encode_utf8;
use sha2::Digest;
use crate::wire::slice_equal;
use crate::http::{response_with_body, response_spec, header_spec, lines_view, get_header};

verus! {

/// The persisted configuration: hex SHA-256 digests of paired servers.
#[derive(Clone, Debug, Default)]
pub struct SpifyConfig {
    pub paired_servers: Vec<String>,
}

/// One worker session as the status API lists it.
#[derive(Clone, Debug)]
pub struct WebApiSession {
    pub pid: u32,
    pub ip: String,
    pub ws: String,
    pub ws_secure: bool,
    pub username: String,
    pub logontime: i64,
}

/// Process-wide facts the status API reports: the address the RFB server
/// listens on.
pub struct ApiState {
    pub listening_ip_address: String,
}

impl ApiState {
    pub fn new() -> (r: ApiState)
        ensures
            r.listening_ip_address@ == Seq::<char>::empty(),
    {
        ApiState { listening_ip_address: String::new() }
    }

    pub fn set_listening_ip_address(&mut self, ip: String)
        ensures
            final(self).listening_ip_address@ == ip@,
    {
        self.listening_ip_address = ip;
    }

    pub fn get_listening_ip_address(&self) -> (r: String)
        ensures
            r@ == self.listening_ip_address@,
    {
        self.listening_ip_address.clone()
    }
}

/// A power request.
#[derive(Clone, Copy, Debug, PartialEq, Eq)]
pub enum PowerAction {
    Lock,
    Logoff,
    Shutdown,
    Reboot,
}

/// What a request to the status API names.
#[derive(Clone, Copy, Debug, PartialEq, Eq)]
pub enum ApiRoute {
    Banner,
    Status,
    Sessions,
    Screenshot,
    Power(PowerAction),
    NotFound,
}

pub open spec fn route_spec(method: Seq<u8>, uri: Seq<u8>) -> ApiRoute {
    if method != encode_utf8("GET"@) {
        ApiRoute::NotFound
    } else if uri == encode_utf8("/"@) {
        ApiRoute::Banner
    } else if uri == encode_utf8("/api/status"@) {
        ApiRoute::Status
    } else if uri == encode_utf8("/api/sessions"@) {
        ApiRoute::Sessions
    } else if uri == encode_utf8("/api/screenshot"@) {
        ApiRoute::Screenshot
    } else if uri == encode_utf8("/api/power/lock"@) {
        ApiRoute::Power(PowerAction::Lock)
    } else if uri == encode_utf8("/api/power/logoff"@) {
        ApiRoute::Power(PowerAction::Logoff)
    } else if uri == encode_utf8("/api/power/shutdown"@) {
        ApiRoute::Power(PowerAction::Shutdown)
    } else if uri == encode_utf8("/api/power/reboot"@) {
        ApiRoute::Power(PowerAction::Reboot)
    } else {
        ApiRoute::NotFound
    }
}

/// The route a GET request names; anything else is not found.
pub fn api_route(method: &[u8], uri: &[u8]) -> (r: ApiRoute)
    ensures
        r == route_spec(method@, uri@),
{
    if !slice_equal(method, "GET".as_bytes()) {
        ApiRoute::NotFound
    } else if slice_equal(uri, "/".as_bytes()) {
        ApiRoute::Banner
    } else if slice_equal(uri, "/api/status".as_bytes()) {
        ApiRoute::Status
    } else if slice_equal(uri, "/api/sessions".as_bytes()) {
        ApiRoute::Sessions
    } else if slice_equal(uri, "/api/screenshot".as_bytes()) {
        ApiRoute::Screenshot
    } else if slice_equal(uri, "/api/power/lock".as_bytes()) {
        ApiRoute::Power(PowerAction::Lock)
    } else if slice_equal(uri, "/api/power/logoff".as_bytes()) {
        ApiRoute::Power(PowerAction::Logoff)
    } else if slice_equal(uri, "/api/power/shutdown".as_bytes()) {
        ApiRoute::Power(PowerAction::Shutdown)
    } else if slice_equal(uri, "/api/power/reboot".as_bytes()) {
        ApiRoute::Power(PowerAction::Reboot)
    } else {
        ApiRoute::NotFound
    }
}

/// Every route but the banner and the screenshot needs a valid pair key.
pub open spec fn needs_pairing(route: ApiRoute) -> bool {
    !(route is Banner || route is Screenshot || route is NotFound)
}

pub fn requires_pairkey(route: ApiRoute) -> (r: bool)
    ensures
        r == needs_pairing(route),
{
    match route {
        ApiRoute::Banner | ApiRoute::Screenshot | ApiRoute::NotFound => false,
        _ => true,
    }
}

/// The SHA-256 digest of `data`.
pub uninterp spec fn sha256_of(data: Seq<u8>) -> Seq<u8>;

/// Relies on `sha2::Sha256` (`Digest::new`, `update`, `finalize`): the
/// 32-byte SHA-256 digest of the input.
#[verifier::external_body]
fn sha256_digest(data: &[u8]) -> (r: Vec<u8>)
    ensures
        r@ == sha256_of(data@),
        r@.len() == 32,
{
    let mut hasher = sha2::Sha256::new();
    hasher.update(data);
    hasher.finalize().to_vec()
}

/// An upper-case hexadecimal digit.
pub open spec fn hex_digit(v: u8) -> u8 {
    if v < 10 {
        (48 + v) as u8
    } else {
        (55 + v) as u8
    }
}

/// Upper-case hexadecimal of some bytes, two digits each.
pub open spec fn hex_upper(bytes: Seq<u8>) -> Seq<u8> {
    Seq::new(2 * bytes.len(), |i: int| if i % 2 == 0 { hex_digit(bytes[i / 2] / 16) } else { hex_digit(bytes[i / 2] % 16) })
}

pub open spec fn ascii_lower(b: u8) -> u8 {
    if 65 <= b <= 90 {
        (b + 32) as u8
    } else {
        b
    }
}

pub open spec fn eq_ignore_ascii_case(a: Seq<u8>, b: Seq<u8>) -> bool {
    a.len() == b.len() && forall|i: int| 0 <= i < a.len() ==> ascii_lower(#[trigger] a[i]) == ascii_lower(b[i])
}

/// The byte views of some strings.
pub open spec fn strings_view(s: Seq<String>) -> Seq<Seq<u8>> {
    s.map_values(|x: String| encode_utf8(x@))
}

/// Some paired hash equals the hexadecimal of `digest`, ignoring case.
pub open spec fn digest_paired(digest: Seq<u8>, paired: Seq<Seq<u8>>) -> bool {
    exists|i: int| 0 <= i < paired.len() && eq_ignore_ascii_case(#[trigger] paired[i], hex_upper(digest))
}

fn hex_of(bytes: &[u8]) -> (r: Vec<u8>)
    ensures
        r@ == hex_upper(bytes@),
{
    let mut out: Vec<u8> = Vec::new();
    let mut k: usize = 0;
    while k < bytes.len()
        invariant
            k <= bytes@.len(),
            out@.len() == 2 * k,
            forall|i: int| 0 <= i < 2 * k ==> out@[i] == hex_upper(bytes@)[i],
        decreases bytes@.len() - k,
    {
        let hi = bytes[k] / 16;
        let lo = bytes[k] % 16;
        out.push(if hi < 10 { 48 + hi } else { 55 + hi });
        out.push(if lo < 10 { 48 + lo } else { 55 + lo });
        k = k + 1;
    }
    assert(out@ =~= hex_upper(bytes@));
    out
}

fn ascii_lower_of(b: u8) -> (r: u8)
    ensures
        r == ascii_lower(b),
{
    if 65 <= b && b <= 90 { b + 32 } else { b }
}

pub fn eq_ignore_case(a: &[u8], b: &[u8]) -> (r: bool)
    ensures
        r == eq_ignore_ascii_case(a@, b@),
{
    if a.len() != b.len() {
        return false;
    }
    let mut j: usize = 0;
    while j < a.len()
        invariant
            a@.len() == b@.len(),
            j <= a@.len(),
            forall|i: int| 0 <= i < j ==> ascii_lower(#[trigger] a@[i]) == ascii_lower(b@[i]),
        decreases a@.len() - j,
    {
        if ascii_lower_of(a[j]) != ascii_lower_of(b[j]) {
            return false;
        }
        j = j + 1;
    }
    true
}

/// Whether a digest belongs to a paired server.
pub fn matches_digest(digest: &[u8], paired_servers: &Vec<String>) -> (r: bool)
    ensures
        r == digest_paired(digest@, strings_view(paired_servers@)),
{
    let hex = hex_of(digest);
    let ghost ps = strings_view(paired_servers@);
    let mut k: usize = 0;
    while k < paired_servers.len()
        invariant
            ps == strings_view(paired_servers@),
            hex@ == hex_upper(digest@),
            k <= ps.len(),
            forall|i: int| 0 <= i < k ==> !eq_ignore_ascii_case(#[trigger] ps[i], hex_upper(digest@)),
        decreases ps.len() - k,
    {
        if eq_ignore_case(paired_servers[k].as_str().as_bytes(), hex.as_slice()) {
            assert(ps[k as int] == encode_utf8(paired_servers@[k as int]@));
            return true;
        }
        k = k + 1;
    }
    false
}

/// Whether the raw pair key `hash` hashes to a paired server's digest.
pub fn server(hash: &[u8], config: &SpifyConfig) -> (r: bool)
    ensures
        r == digest_paired(sha256_of(hash@), strings_view(config.paired_servers@)),
{
    let digest = sha256_digest(hash);
    matches_digest(digest.as_slice(), &config.paired_servers)
}

pub open spec fn pairkey_header() -> Seq<u8> {
    encode_utf8("pairkey: "@)
}

/// Whether a request carries a `pairkey` header of a paired server.
pub fn server_from_headers(lines: &Vec<Vec<u8>>, config: &SpifyConfig) -> (r: bool)
    ensures
        r == match header_spec(lines_view(lines@), pairkey_header()) {
            Some(key) => digest_paired(sha256_of(key), strings_view(config.paired_servers@)),
            None => false,
        },
{
    match get_header(lines, "pairkey: ".as_bytes()) {
        Some(key) => server(key.as_slice(), config),
        None => false,
    }
}

/// Whether a request carries the pair key of a paired server.
pub open spec fn pairkey_authorized(lines: Seq<Seq<u8>>, paired: Seq<Seq<u8>>) -> bool {
    match header_spec(lines, pairkey_header()) {
        Some(key) => digest_paired(sha256_of(key), paired),
        None => false,
    }
}

/// How the status API answers a request: a finished response, or the route
/// whose data only the caller can fetch (host status, sessions, a capture,
/// a power action).
#[derive(Clone, Debug)]
pub enum ApiAnswer {
    Ready(Vec<u8>),
    Status,
    Sessions,
    Screenshot,
    Power(PowerAction),
}

/// Routes a status API request: a route that needs pairing without a valid
/// pair key gets 401; the banner and unknown routes are answered here.
pub fn api_answer(lines: &Vec<Vec<u8>>, method: &[u8], uri: &[u8], config: &SpifyConfig) -> (r: ApiAnswer)
    ensures
        ({
            let route = route_spec(method@, uri@);
            let authorized = pairkey_authorized(lines_view(lines@), strings_view(config.paired_servers@));
            &&& (needs_pairing(route) && !authorized) ==> (r matches ApiAnswer::Ready(b) && b@ == response_spec(
                encode_utf8("HTTP/1.1 401 Unauthorized"@),
                encode_utf8("text/plain"@),
                encode_utf8("Unauthorized"@),
            ))
            &&& (!needs_pairing(route) || authorized) ==> match route {
                ApiRoute::Banner => r matches ApiAnswer::Ready(b) && b@ == response_spec(
                    encode_utf8("HTTP/1.1 200 OK"@),
                    encode_utf8("text/html"@),
                    banner_body(),
                ),
                ApiRoute::NotFound => r matches ApiAnswer::Ready(b) && b@ == response_spec(
                    encode_utf8("HTTP/1.1 404 Not Found"@),
                    encode_utf8("text/plain"@),
                    uri@ + encode_utf8(" was not found"@),
                ),
                ApiRoute::Status => r is Status,
                ApiRoute::Sessions => r is Sessions,
                ApiRoute::Screenshot => r is Screenshot,
                ApiRoute::Power(p) => r == ApiAnswer::Power(p),
            }
        }),
{
    let route = api_route(method, uri);
    if requires_pairkey(route) && !server_from_headers(lines, config) {
        return ApiAnswer::Ready(unauthorized_response());
    }
    match route {
        ApiRoute::Banner => ApiAnswer::Ready(banner_response()),
        ApiRoute::NotFound => ApiAnswer::Ready(not_found_response(uri)),
        ApiRoute::Status => ApiAnswer::Status,
        ApiRoute::Sessions => ApiAnswer::Sessions,
        ApiRoute::Screenshot => ApiAnswer::Screenshot,
        ApiRoute::Power(p) => ApiAnswer::Power(p),
    }
}

/// A 200 response carrying a JSON body.
pub fn json_response(body: &[u8]) -> (r: Vec<u8>)
    ensures
        r@ == response_spec(encode_utf8("HTTP/1.1 200 OK"@), encode_utf8("application/json"@), body@),
{
    response_with_body("HTTP/1.1 200 OK", "application/json", body)
}

pub open spec fn banner_body() -> Seq<u8> {
    encode_utf8("<h1>SpifyRFB Websocket Service</h1><p>Apps like noVNC can interpret this page</p>"@)
}

/// The HTML banner at "/".
pub fn banner_response() -> (r: Vec<u8>)
    ensures
        r@ == response_spec(encode_utf8("HTTP/1.1 200 OK"@), encode_utf8("text/html"@), banner_body()),
{
    response_with_body(
        "HTTP/1.1 200 OK",
        "text/html",
        "<h1>SpifyRFB Websocket Service</h1><p>Apps like noVNC can interpret this page</p>".as_bytes(),
    )
}

/// 404 for an unknown route.
pub fn not_found_response(uri: &[u8]) -> (r: Vec<u8>)
    ensures
        r@ == response_spec(
            encode_utf8("HTTP/1.1 404 Not Found"@),
            encode_utf8("text/plain"@),
            uri@ + encode_utf8(" was not found"@),
        ),
{
    let mut body: Vec<u8> = Vec::new();
    crate::wire::push_bytes(&mut body, uri);
    crate::wire::push_bytes(&mut body, " was not found".as_bytes());
    response_with_body("HTTP/1.1 404 Not Found", "text/plain", body.as_slice())
}

/// 401 for a request without a valid pair key.
pub fn unauthorized_response() -> (r: Vec<u8>)
    ensures
        r@ == response_spec(
            encode_utf8("HTTP/1.1 401 Unauthorized"@),
            encode_utf8("text/plain"@),
            encode_utf8("Unauthorized"@),
        ),
{
    response_with_body("HTTP/1.1 401 Unauthorized", "text/plain", "Unauthorized".as_bytes())
}

/// 200 with `true` or `false`, the outcome of a power request.
pub fn power_response(status: bool) -> (r: Vec<u8>)
    ensures
        status ==> r@ == response_spec(encode_utf8("HTTP/1.1 200 OK"@), encode_utf8("text/plain"@), encode_utf8("true"@)),
        !status ==> r@ == response_spec(encode_utf8("HTTP/1.1 200 OK"@), encode_utf8("text/plain"@), encode_utf8("false"@)),
{
    if status {
        response_with_body("HTTP/1.1 200 OK", "text/plain", "true".as_bytes())
    } else {
        response_with_body("HTTP/1.1 200 OK", "text/plain", "false".as_bytes())
    }
}


/// The PNG file (8-bit RGBA) of a `width` x `height` image.
pub uninterp spec fn png_of(width: u32, height: u32, rgba: Seq<u8>) -> Seq<u8>;

/// Relies on `png::Encoder` (8-bit `Rgba`, `write_header`,
/// `write_image_data`, `Writer::finish`) writing into a vector: the PNG of
/// the image. With a vector to write to, the encoder fails only on a zero
/// width or height (`write_header`) or a buffer of the wrong size
/// (`write_image_data`).
#[verifier::external_body]
fn encode_png(width: u16, height: u16, rgba: &[u8]) -> (r: Option<Vec<u8>>)
    ensures
        r matches Some(b) ==> b@ == png_of(width as u32, height as u32, rgba@),
        (width > 0 && height > 0 && rgba@.len() == 4 * width * height) ==> r is Some,
        !(width > 0 && height > 0) ==> r is None,
{
    let mut out: Vec<u8> = Vec::new();
    let mut encoder = png::Encoder::new(&mut out, width as u32, height as u32);
    encoder.set_color(png::ColorType::Rgba);
    encoder.set_depth(png::BitDepth::Eight);
    let written = encoder.write_header().and_then(|mut w| w.write_image_data(rgba).and_then(|_| w.finish()));
    match written {
        Ok(()) => Some(out),
        Err(_) => None,
    }
}

/// Captured BGRA pixels as opaque RGBA.
pub open spec fn rgba_spec(bgra: Seq<u8>) -> Seq<u8> {
    Seq::new(
        bgra.len(),
        |i: int|
            if i % 4 == 0 {
                bgra[i + 2]
            } else if i % 4 == 2 {
                bgra[i - 2]
            } else if i % 4 == 3 {
                255u8
            } else {
                bgra[i]
            },
    )
}

pub fn bgra_to_rgba(bgra: &Vec<u8>) -> (r: Vec<u8>)
    requires
        bgra@.len() % 4 == 0,
    ensures
        r@ == rgba_spec(bgra@),
{
    let mut out: Vec<u8> = Vec::with_capacity(bgra.len());
    let mut i: usize = 0;
    while i < bgra.len()
        invariant
            bgra@.len() % 4 == 0,
            i <= bgra@.len(),
            i % 4 == 0,
            out@ =~= rgba_spec(bgra@).subrange(0, i as int),
        decreases bgra@.len() - i,
    {
        out.push(bgra[i + 2]);
        out.push(bgra[i + 1]);
        out.push(bgra[i]);
        out.push(255u8);
        i = i + 4;
    }
    out
}

/// The screenshot response: a PNG of the captured screen, or a 500 for an
/// empty screen, which PNG cannot hold.
pub fn screenshot_response(width: u16, height: u16, captured: &Vec<u8>) -> (r: Vec<u8>)
    requires
        captured@.len() == 4 * width * height,
    ensures
        width > 0 && height > 0 ==> r@ == response_spec(
            encode_utf8("HTTP/1.1 200 OK"@),
            encode_utf8("image/png"@),
            png_of(width as u32, height as u32, rgba_spec(captured@)),
        ),
        !(width > 0 && height > 0) ==> r@ == response_spec(
            encode_utf8("HTTP/1.1 500 Internal Server Error"@),
            encode_utf8("text/plain"@),
            encode_utf8("Screenshot Failed"@),
        ),
{
    assert(4 * width * height == 4 * (width * height)) by (nonlinear_arith);
    let rgba = bgra_to_rgba(captured);
    match encode_png(width, height, rgba.as_slice()) {
        Some(png) => response_with_body("HTTP/1.1 200 OK", "image/png", png.as_slice()),
        None => response_with_body("HTTP/1.1 500 Internal Server Error", "text/plain", "Screenshot Failed".as_bytes()),
    }
}

} // verus!
