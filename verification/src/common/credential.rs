//! API credentials and the ES256 JSON Web Tokens signed with them.

use crate::string::{chars_of, push_decimal, push_str, spec_trim, string_from_chars, trimmed,
    all_whitespace, decimal_digits, trims_to_empty};
use aws_lc_rs::error::{KeyRejected, Unspecified};
use aws_lc_rs::signature::{EcdsaKeyPair, ECDSA_P256_SHA256_FIXED_SIGNING};
use base64::Engine;
use pem::PemError;
use std::time::SystemTimeError;
use vstd::prelude::*;
use vstd::utf8::{decode_utf8, encode_utf8, is_char_boundary};

verus! {

#[verifier::external_type_specification]
#[verifier::external_body]
pub struct ExEcdsaKeyPair(EcdsaKeyPair);

#[verifier::external_type_specification]
#[verifier::external_body]
pub struct ExKeyRejected(KeyRejected);

#[verifier::external_type_specification]
#[verifier::external_body]
pub struct ExUnspecified(Unspecified);

#[verifier::external_type_specification]
#[verifier::external_body]
pub struct ExPemError(PemError);

#[verifier::external_type_specification]
#[verifier::external_body]
pub struct ExSystemTimeError(SystemTimeError);

/// Environment variable holding the API key name.
pub const COINBASE_API_KEY_ENV: &'static str = "COINBASE_API_KEY";

/// Environment variable holding the PEM-encoded API secret.
pub const COINBASE_API_SECRET_ENV: &'static str = "COINBASE_API_SECRET";

/// Issuer claim of the tokens.
pub const JWT_ISSUER: &'static str = "cdp";

/// Lifetime of a token, in seconds.
pub const JWT_EXPIRY_SECS: u64 = 120;

/// Opening of a token header, up to the key identifier.
pub const JWT_HEADER_OPEN: &'static str = "{\"alg\":\"ES256\",\"kid\":";

/// Header text between the key identifier and the nonce.
pub const JWT_HEADER_NONCE: &'static str = ",\"nonce\":";

/// Closing of a token header, after the nonce.
pub const JWT_HEADER_CLOSE: &'static str = ",\"typ\":\"JWT\"}";

/// Opening of a token payload, up to the expiry time.
pub const JWT_PAYLOAD_OPEN: &'static str = "{\"exp\":";

/// Payload text between the expiry time and the issuer.
pub const JWT_PAYLOAD_ISS: &'static str = ",\"iss\":";

/// Payload text between the issuer and the not-before time.
pub const JWT_PAYLOAD_NBF: &'static str = ",\"nbf\":";

/// Payload text between the not-before time and the subject.
pub const JWT_PAYLOAD_SUB: &'static str = ",\"sub\":";

/// Payload text before the URI claim.
pub const JWT_PAYLOAD_URI: &'static str = ",\"uri\":";

/// Closing of a token payload.
pub const JWT_PAYLOAD_CLOSE: &'static str = "}";

/// Why credentials could not be had or a token could not be made.
#[derive(Debug, Clone, Copy, PartialEq, Eq, Structural)]
pub enum AuthError {
    /// No API key was given and none is set in the environment.
    MissingApiKey,
    /// No API secret was given and none is set in the environment.
    MissingApiSecret,
    /// The system clock reads before the Unix epoch.
    SystemTime,
    /// No random nonce could be drawn.
    Nonce,
    /// The clock is so far ahead that the expiry time does not fit.
    TimeOutOfRange,
    /// The secret is not PEM.
    InvalidPem,
    /// The PEM contents are not an EC P-256 private key.
    InvalidKey,
    /// Signing failed.
    Signing,
    /// The client has no credential to sign with.
    NoCredentials,
}

/// The character of the URL-safe base64 alphabet for the 6-bit value `v`: `A`-`Z`,
/// `a`-`z`, `0`-`9`, `-`, `_`.
pub open spec fn base64url_char(v: int) -> char {
    if v < 26 {
        (65 + v) as char
    } else if v < 52 {
        (97 + v - 26) as char
    } else if v < 62 {
        (48 + v - 52) as char
    } else if v == 62 {
        '-'
    } else {
        '_'
    }
}

/// URL-safe base64 without padding: each group of three bytes gives four characters of
/// six bits each; a last group of one or two bytes gives two or three characters, the
/// missing low bits being zero.
pub open spec fn base64url(data: Seq<u8>) -> Seq<char>
    decreases data.len(),
{
    if data.len() == 0 {
        Seq::empty()
    } else {
        let b0 = data[0] as int;
        let b1 = if data.len() > 1 { data[1] as int } else { 0 };
        let b2 = if data.len() > 2 { data[2] as int } else { 0 };
        let c0 = base64url_char(b0 / 4);
        let c1 = base64url_char((b0 % 4) * 16 + b1 / 16);
        let c2 = base64url_char((b1 % 16) * 4 + b2 / 64);
        let c3 = base64url_char(b2 % 64);
        if data.len() == 1 {
            seq![c0, c1]
        } else if data.len() == 2 {
            seq![c0, c1, c2]
        } else {
            seq![c0, c1, c2, c3] + base64url(data.skip(3))
        }
    }
}

/// Calls `URL_SAFE_NO_PAD.encode` of the `base64` crate: URL-safe alphabet, no padding.
#[verifier::external_body]
fn base64url_encode(data: &[u8]) -> (r: String)
    ensures
        r@ == base64url(data@),
{
    base64::engine::general_purpose::URL_SAFE_NO_PAD.encode(data)
}

/// How `serde_json` writes the character `c` inside a string: `"` and `\` behind a
/// backslash, backspace, tab, line feed, form feed and carriage return as `\b`, `\t`,
/// `\n`, `\f`, `\r`, other control characters below U+0020 as `\u00` and two lowercase
/// hex digits, every other character as itself.
pub open spec fn json_escape(c: char) -> Seq<char> {
    if c == '"' {
        seq!['\\', '"']
    } else if c == '\\' {
        seq!['\\', '\\']
    } else if c == '\u{8}' {
        seq!['\\', 'b']
    } else if c == '\t' {
        seq!['\\', 't']
    } else if c == '\n' {
        seq!['\\', 'n']
    } else if c == '\u{c}' {
        seq!['\\', 'f']
    } else if c == '\r' {
        seq!['\\', 'r']
    } else if (c as u32) < 32 {
        seq!['\\', 'u', '0', '0', hex_digit((c as int) / 16), hex_digit((c as int) % 16)]
    } else {
        seq![c]
    }
}

/// The characters of `s`, each written as `json_escape` says.
pub open spec fn json_escaped(s: Seq<char>) -> Seq<char>
    decreases s.len(),
{
    if s.len() == 0 {
        Seq::empty()
    } else {
        json_escaped(s.drop_last()) + json_escape(s.last())
    }
}

/// What `serde_json` renders for the JSON string `s`: a quote, `s` escaped, a quote.
pub open spec fn json_string(s: Seq<char>) -> Seq<char> {
    seq!['"'] + json_escaped(s) + seq!['"']
}

/// Calls `Display` of `serde_json::Value::String`: the text is `json_string`.
#[verifier::external_body]
pub(crate) fn json_string_text(s: &str) -> (r: String)
    ensures
        r@ == json_string(s@),
{
    serde_json::Value::String(s.to_owned()).to_string()
}

/// The binary contents that `pem::parse` finds in `input`, or `None` where it fails.
pub uninterp spec fn pem_contents(input: Seq<u8>) -> Option<Seq<u8>>;

/// Calls `pem::parse` on the UTF-8 bytes of `input` and takes `Pem::contents`: it
/// succeeds exactly where `pem_contents` has contents, and gives them.
#[verifier::external_body]
fn parse_pem_contents(input: &str) -> (r: Result<Vec<u8>, PemError>)
    ensures
        r is Ok <==> pem_contents(encode_utf8(input@)) is Some,
        r matches Ok(v) ==> pem_contents(encode_utf8(input@)) == Some(v@),
{
    match pem::parse(input) {
        Ok(p) => Ok(p.contents().to_vec()),
        Err(e) => Err(e),
    }
}

/// Whether `EcdsaKeyPair::from_private_key_der` accepts `der` as a P-256 key.
pub uninterp spec fn ec_key_accepted(der: Seq<u8>) -> bool;

/// A key pair loaded by `load_ec_key`, hence for ECDSA P-256 with SHA-256 and fixed-length
/// (`r || s`) signatures, together with the DER bytes it was loaded from. Its fields are
/// private to this module and only `load_ec_key` builds one.
pub struct P256SigningKey {
    key: EcdsaKeyPair,
    der: Vec<u8>,
}

impl P256SigningKey {
    /// The DER bytes (SEC1 or PKCS#8) the key was loaded from.
    pub closed spec fn der_view(&self) -> Seq<u8> {
        self.der@
    }
}

/// Calls `EcdsaKeyPair::from_private_key_der` with `ECDSA_P256_SHA256_FIXED_SIGNING`
/// (SEC1 or PKCS#8 DER): it succeeds exactly where `ec_key_accepted` holds, and the key
/// keeps the bytes it was loaded from.
#[verifier::external_body]
fn load_ec_key(der: &[u8]) -> (r: Result<P256SigningKey, KeyRejected>)
    ensures
        r is Ok <==> ec_key_accepted(der@),
        r matches Ok(k) ==> k.der_view() == der@,
{
    match EcdsaKeyPair::from_private_key_der(&ECDSA_P256_SHA256_FIXED_SIGNING, der) {
        Ok(key) => Ok(P256SigningKey { key, der: der.to_vec() }),
        Err(e) => Err(e),
    }
}

/// Whether `sig` is a valid ECDSA P-256 / SHA-256 signature, in the fixed 64-byte `r || s`
/// format, of `message` under the public key of the private key whose DER bytes are `der`.
pub uninterp spec fn es256_signs(der: Seq<u8>, message: Seq<u8>, sig: Seq<u8>) -> bool;

/// Calls `EcdsaKeyPair::sign` with the system random source on a key loaded for
/// `ECDSA_P256_SHA256_FIXED_SIGNING`. The signature bytes are random; what is stated holds of
/// every outcome: a signature is 64 bytes (`r` and `s` as two 32-byte numbers) and is an
/// ES256 signature of `message` under the key.
#[verifier::external_body]
fn sign_es256(key: &P256SigningKey, message: &[u8]) -> (r: Result<Vec<u8>, Unspecified>)
    ensures
        r matches Ok(s) ==> s@.len() == 64 && es256_signs(key.der_view(), message@, s@),
{
    let rng = aws_lc_rs::rand::SystemRandom::new();
    match key.key.sign(&rng, message) {
        Ok(sig) => Ok(sig.as_ref().to_vec()),
        Err(e) => Err(e),
    }
}

/// Calls `aws_lc_rs::rand::fill`: the bytes are random, and nothing is stated of them.
#[verifier::external_body]
fn fill_random(dest: &mut [u8; 16]) -> (r: Result<(), Unspecified>)
{
    aws_lc_rs::rand::fill(dest)
}

/// Reads the system clock as whole seconds since the Unix epoch (an error when it reads
/// before the epoch). Nothing is stated of the reading.
#[verifier::external_body]
fn unix_time_secs() -> (r: Result<u64, SystemTimeError>)
{
    match std::time::SystemTime::now().duration_since(std::time::UNIX_EPOCH) {
        Ok(d) => Ok(d.as_secs()),
        Err(e) => Err(e),
    }
}

/// What `Debug` of `str` renders for `s`: `s` quoted, with quotes, backslashes and
/// non-printable characters escaped.
pub uninterp spec fn debug_str(s: Seq<char>) -> Seq<char>;

/// Calls `Debug` of `str` (through `format!("{:?}")`): the rendering is named `debug_str`.
#[verifier::external_body]
fn debug_quoted(s: &str) -> (r: String)
    ensures
        r@ == debug_str(s@),
{
    format!("{:?}", s)
}

/// The lowercase hexadecimal digit of `d < 16`.
pub open spec fn hex_digit(d: int) -> char {
    if d < 10 {
        (48 + d) as char
    } else {
        (87 + d) as char
    }
}

/// Lowercase hexadecimal text of `b`, two digits per byte.
pub open spec fn hex_text(b: Seq<u8>) -> Seq<char>
    decreases b.len(),
{
    if b.len() == 0 {
        Seq::empty()
    } else {
        hex_text(b.drop_last()) + seq![hex_digit((b.last() / 16) as int), hex_digit((b.last() % 16) as int)]
    }
}

fn hex_char(d: u8) -> (c: char)
    requires
        d < 16,
    ensures
        c == hex_digit(d as int),
{
    if d < 10 {
        (48 + d) as char
    } else {
        (87 + d) as char
    }
}

/// Encodes bytes as lowercase hexadecimal text.
pub fn hex_encode(bytes: &[u8]) -> (s: String)
    ensures
        s@ == hex_text(bytes@),
{
    let mut out: Vec<char> = Vec::new();
    let mut i: usize = 0;
    while i < bytes.len()
        invariant
            i <= bytes.len(),
            out@ == hex_text(bytes@.take(i as int)),
        decreases bytes.len() - i,
    {
        let b = bytes[i];
        out.push(hex_char(b / 16));
        out.push(hex_char(b % 16));
        proof {
            assert(bytes@.take(i + 1).drop_last() =~= bytes@.take(i as int));
            assert(bytes@.take(i + 1).last() == b);
            assert(out@ =~= hex_text(bytes@.take(i + 1)));
        }
        i += 1;
    }
    proof {
        assert(bytes@.take(bytes@.len() as int) =~= bytes@);
    }
    string_from_chars(&out)
}

/// The header of a token: ES256, key identifier `api_key`, nonce `nonce_hex`.
pub open spec fn header_json(api_key: Seq<char>, nonce_hex: Seq<char>) -> Seq<char> {
    JWT_HEADER_OPEN@ + json_string(api_key) + JWT_HEADER_NONCE@ + json_string(nonce_hex)
        + JWT_HEADER_CLOSE@
}

/// The payload of a token issued at `now` for `api_key`, with a URI claim when given.
pub open spec fn payload_json(api_key: Seq<char>, now: u64, uri: Option<Seq<char>>) -> Seq<char> {
    JWT_PAYLOAD_OPEN@ + decimal_digits((now + JWT_EXPIRY_SECS) as nat) + JWT_PAYLOAD_ISS@
        + json_string(JWT_ISSUER@) + JWT_PAYLOAD_NBF@ + decimal_digits(now as nat)
        + JWT_PAYLOAD_SUB@ + json_string(api_key) + match uri {
        Some(u) => JWT_PAYLOAD_URI@ + json_string(u),
        None => Seq::empty(),
    } + JWT_PAYLOAD_CLOSE@
}

/// The signed part of a token: header and payload, each base64url-encoded, joined by a dot.
pub open spec fn signing_input_text(api_key: Seq<char>, uri: Option<Seq<char>>, now: u64, nonce: Seq<u8>) -> Seq<char> {
    base64url(encode_utf8(header_json(api_key, hex_text(nonce)))) + seq!['.'] + base64url(
        encode_utf8(payload_json(api_key, now, uri)),
    )
}

/// A whole token: the signed part, a dot, and the base64url signature.
pub open spec fn jwt_text(
    api_key: Seq<char>,
    uri: Option<Seq<char>>,
    now: u64,
    nonce: Seq<u8>,
    signature: Seq<u8>,
) -> Seq<char> {
    signing_input_text(api_key, uri, now, nonce) + seq!['.'] + base64url(signature)
}

/// `t` is a token of `api_key` for `uri`, issued at `now` with `nonce`, whose signature is a
/// 64-byte ES256 signature of the UTF-8 bytes of its signed part under the key `der`.
pub open spec fn signed_token(
    t: Seq<char>,
    der: Seq<u8>,
    api_key: Seq<char>,
    uri: Option<Seq<char>>,
    now: u64,
    nonce: Seq<u8>,
) -> bool {
    exists|sig: Seq<u8>|
        sig.len() == 64 && es256_signs(
            der,
            encode_utf8(signing_input_text(api_key, uri, now, nonce)),
            sig,
        ) && t == #[trigger] jwt_text(api_key, uri, now, nonce, sig)
}

/// `t` is a token of `api_key` for `uri`, signed as `signed_token` says with the key `der`,
/// issued at some time `now` whose expiry fits, with some 16-byte nonce.
pub open spec fn issued_token(t: Seq<char>, der: Seq<u8>, api_key: Seq<char>, uri: Option<Seq<char>>) -> bool {
    exists|now: u64, nonce: Seq<u8>|
        now + JWT_EXPIRY_SECS <= u64::MAX && nonce.len() == 16 && #[trigger] signed_token(
            t,
            der,
            api_key,
            uri,
            now,
            nonce,
        )
}

/// The characters of an optional string.
pub open spec fn opt_chars(o: Option<&str>) -> Option<Seq<char>> {
    match o {
        Some(s) => Some(s@),
        None => None,
    }
}

/// Appends a JSON string.
fn push_json_string(out: &mut Vec<char>, s: &str)
    ensures
        final(out)@ == old(out)@ + json_string(s@),
{
    let j = json_string_text(s);
    push_str(out, j.as_str());
}

/// The header of a token for `api_key` with nonce `nonce_hex`.
pub fn jwt_header(api_key: &str, nonce_hex: &str) -> (s: String)
    ensures
        s@ == header_json(api_key@, nonce_hex@),
{
    let mut out: Vec<char> = Vec::new();
    push_str(&mut out, JWT_HEADER_OPEN);
    push_json_string(&mut out, api_key);
    push_str(&mut out, JWT_HEADER_NONCE);
    push_json_string(&mut out, nonce_hex);
    push_str(&mut out, JWT_HEADER_CLOSE);
    proof {
        assert(out@ =~= header_json(api_key@, nonce_hex@));
    }
    string_from_chars(&out)
}

/// The payload of a token for `api_key` issued at `now`, with a URI claim when given.
pub fn jwt_payload(api_key: &str, now: u64, uri: Option<&str>) -> (s: String)
    requires
        now + JWT_EXPIRY_SECS <= u64::MAX,
    ensures
        s@ == payload_json(api_key@, now, opt_chars(uri)),
{
    let mut out: Vec<char> = Vec::new();
    push_str(&mut out, JWT_PAYLOAD_OPEN);
    push_decimal(&mut out, now + JWT_EXPIRY_SECS);
    push_str(&mut out, JWT_PAYLOAD_ISS);
    push_json_string(&mut out, JWT_ISSUER);
    push_str(&mut out, JWT_PAYLOAD_NBF);
    push_decimal(&mut out, now);
    push_str(&mut out, JWT_PAYLOAD_SUB);
    push_json_string(&mut out, api_key);
    let ghost before_uri = out@;
    match uri {
        Some(u) => {
            push_str(&mut out, JWT_PAYLOAD_URI);
            push_json_string(&mut out, u);
        },
        None => {},
    }
    push_str(&mut out, JWT_PAYLOAD_CLOSE);
    proof {
        assert(out@ =~= payload_json(api_key@, now, opt_chars(uri)));
    }
    string_from_chars(&out)
}

/// The signed part of a token for `api_key` issued at `now` with `nonce`.
pub fn jwt_signing_input(api_key: &str, uri: Option<&str>, now: u64, nonce: &[u8]) -> (s: String)
    requires
        now + JWT_EXPIRY_SECS <= u64::MAX,
    ensures
        s@ == signing_input_text(api_key@, opt_chars(uri), now, nonce@),
{
    let nonce_hex = hex_encode(nonce);
    let header = jwt_header(api_key, nonce_hex.as_str());
    let payload = jwt_payload(api_key, now, uri);
    let header_b64 = base64url_encode(header.as_str().as_bytes());
    let payload_b64 = base64url_encode(payload.as_str().as_bytes());
    let mut out: Vec<char> = Vec::new();
    push_str(&mut out, header_b64.as_str());
    out.push('.');
    push_str(&mut out, payload_b64.as_str());
    proof {
        assert(out@ =~= signing_input_text(api_key@, opt_chars(uri), now, nonce@));
    }
    string_from_chars(&out)
}

/// A token: the signed part, a dot, and the base64url signature.
pub fn jwt_with_signature(signing_input: &str, signature: &[u8]) -> (s: String)
    ensures
        s@ == signing_input@ + seq!['.'] + base64url(signature@),
{
    let sig_b64 = base64url_encode(signature);
    let mut out: Vec<char> = Vec::new();
    push_str(&mut out, signing_input);
    out.push('.');
    push_str(&mut out, sig_b64.as_str());
    proof {
        assert(out@ =~= signing_input@ + seq!['.'] + base64url(signature@));
    }
    string_from_chars(&out)
}

/// The value to use: the given one unless it is absent or blank, else the environment's.
pub open spec fn pick_value(given: Option<Seq<char>>, env: Option<Seq<char>>) -> Option<Seq<char>> {
    match given {
        Some(s) => if all_whitespace(s) {
            env
        } else {
            Some(s)
        },
        None => env,
    }
}

/// The characters of an optional string.
pub open spec fn opt_string_chars(o: Option<String>) -> Option<Seq<char>> {
    match o {
        Some(s) => Some(s@),
        None => None,
    }
}

/// The given value unless it is absent or blank, else the environment's.
fn pick(given: Option<&str>, env: Option<String>) -> (r: Option<String>)
    ensures
        opt_string_chars(r) == pick_value(opt_chars(given), opt_string_chars(env)),
{
    match given {
        Some(s) => if trims_to_empty(s) {
            env
        } else {
            Some(s.to_owned())
        },
        None => env,
    }
}

/// The first `min(8, len)` bytes of `key`, as text.
pub open spec fn key_prefix(key: Seq<char>) -> Seq<char> {
    let bytes = encode_utf8(key);
    let n = if bytes.len() < 8 {
        bytes.len() as int
    } else {
        8
    };
    decode_utf8(bytes.subrange(0, n))
}

/// The first `min(8, len)` bytes of `key` lie on a character boundary.
pub open spec fn key_prefix_on_boundary(key: Seq<char>) -> bool {
    let bytes = encode_utf8(key);
    is_char_boundary(bytes, if bytes.len() < 8 {
        bytes.len() as int
    } else {
        8
    })
}

/// What a token failure with error `e` says of the secret: `InvalidPem` that the trimmed
/// secret is not PEM, `InvalidKey` that its contents are no accepted key, `Signing` that the
/// key was loaded; clock and nonce failures say nothing of it. No other error comes.
pub open spec fn jwt_failure_cause(secret: Seq<char>, e: AuthError) -> bool {
    let pem = pem_contents(encode_utf8(spec_trim(secret)));
    match e {
        AuthError::SystemTime => true,
        AuthError::Nonce => true,
        AuthError::TimeOutOfRange => true,
        AuthError::InvalidPem => pem is None,
        AuthError::InvalidKey => pem matches Some(der) && !ec_key_accepted(der),
        AuthError::Signing => pem matches Some(der) && ec_key_accepted(der),
        _ => false,
    }
}

/// An API key name and its PEM-encoded EC private key.
pub struct CoinbaseCredential {
    api_key: String,
    api_secret: String,
}

impl Clone for CoinbaseCredential {
    fn clone(&self) -> (c: Self)
        ensures
            c.key_view() == self.key_view(),
            c.secret_view() == self.secret_view(),
    {
        CoinbaseCredential { api_key: self.api_key.clone(), api_secret: self.api_secret.clone() }
    }
}

impl CoinbaseCredential {
    /// The API key name.
    pub closed spec fn key_view(&self) -> Seq<char> {
        self.api_key@
    }

    /// The PEM-encoded API secret.
    pub closed spec fn secret_view(&self) -> Seq<char> {
        self.api_secret@
    }

    /// Creates a credential.
    pub fn new(api_key: String, api_secret: String) -> (c: CoinbaseCredential)
        ensures
            c.key_view() == api_key@,
            c.secret_view() == api_secret@,
    {
        CoinbaseCredential { api_key, api_secret }
    }

    /// Resolves a credential from the given values, a blank one counting as absent, or
    /// else from the environment's values (`env_api_key`, `env_api_secret`, read by the
    /// caller from `COINBASE_API_KEY` and `COINBASE_API_SECRET`). The key is resolved first.
    pub fn resolve(
        api_key: Option<&str>,
        api_secret: Option<&str>,
        env_api_key: Option<String>,
        env_api_secret: Option<String>,
    ) -> (r: Result<CoinbaseCredential, AuthError>)
        ensures
            ({
                let key = pick_value(opt_chars(api_key), opt_string_chars(env_api_key));
                let secret = pick_value(opt_chars(api_secret), opt_string_chars(env_api_secret));
                &&& key is None ==> r == Err::<CoinbaseCredential, AuthError>(AuthError::MissingApiKey)
                &&& key is Some && secret is None ==> r == Err::<CoinbaseCredential, AuthError>(
                    AuthError::MissingApiSecret,
                )
                &&& key is Some && secret is Some ==> (r matches Ok(c) && c.key_view() == key->0
                    && c.secret_view() == secret->0)
            }),
    {
        let key = match pick(api_key, env_api_key) {
            Some(k) => k,
            None => return Err(AuthError::MissingApiKey),
        };
        let secret = match pick(api_secret, env_api_secret) {
            Some(s) => s,
            None => return Err(AuthError::MissingApiSecret),
        };
        Ok(CoinbaseCredential::new(key, secret))
    }

    /// The API key name.
    pub fn api_key(&self) -> (k: &str)
        ensures
            k@ == self.key_view(),
    {
        self.api_key.as_str()
    }

    /// The PEM-encoded API secret.
    pub fn api_secret(&self) -> (s: &str)
        ensures
            s@ == self.secret_view(),
    {
        self.api_secret.as_str()
    }

    /// A token for a REST request; `uri` is `"{METHOD} {host}{path}"`, e.g.
    /// `"GET api.coinbase.com/api/v3/brokerage/accounts"`.
    pub fn build_rest_jwt(&self, uri: &str) -> (r: Result<String, AuthError>)
        ensures
            r matches Ok(t) ==> (pem_contents(encode_utf8(spec_trim(self.secret_view())))
                matches Some(der) && ec_key_accepted(der) && issued_token(
                t@,
                der,
                self.key_view(),
                Some(uri@),
            )),
            r matches Err(e) ==> jwt_failure_cause(self.secret_view(), e),
    {
        self.build_jwt(Some(uri))
    }

    /// A token for the WebSocket, without a URI claim.
    pub fn build_ws_jwt(&self) -> (r: Result<String, AuthError>)
        ensures
            r matches Ok(t) ==> (pem_contents(encode_utf8(spec_trim(self.secret_view())))
                matches Some(der) && ec_key_accepted(der) && issued_token(
                t@,
                der,
                self.key_view(),
                None,
            )),
            r matches Err(e) ==> jwt_failure_cause(self.secret_view(), e),
    {
        self.build_jwt(None)
    }

    /// An ES256 token signed with the key in the secret: issued now, valid for
    /// `JWT_EXPIRY_SECS`, with a random 16-byte nonce. It fails when the clock reads before
    /// the epoch, no nonce can be drawn, the secret is not a PEM P-256 key, or signing fails.
    fn build_jwt(&self, uri: Option<&str>) -> (r: Result<String, AuthError>)
        ensures
            r matches Ok(t) ==> (pem_contents(encode_utf8(spec_trim(self.secret_view())))
                matches Some(der) && ec_key_accepted(der) && issued_token(
                t@,
                der,
                self.key_view(),
                opt_chars(uri),
            )),
            r matches Err(e) ==> jwt_failure_cause(self.secret_view(), e),
    {
        let now = match unix_time_secs() {
            Ok(t) => t,
            Err(_) => return Err(AuthError::SystemTime),
        };
        let mut nonce = [0u8; 16];
        match fill_random(&mut nonce) {
            Ok(()) => {},
            Err(_) => return Err(AuthError::Nonce),
        }
        let token = self.jwt_after_clock(uri, now, nonce.as_slice());
        proof {
            if token is Ok {
                let t = token->Ok_0;
                let der = pem_contents(encode_utf8(spec_trim(self.secret_view()))).unwrap();
                assert(signed_token(t@, der, self.key_view(), opt_chars(uri), now, nonce@));
                assert(nonce@.len() == 16);
            }
        }
        token
    }

    /// A token issued at `now` with `nonce`, signed with the key in the secret. It fails
    /// with `TimeOutOfRange` exactly when the expiry time does not fit, else with
    /// `InvalidPem` when the trimmed secret is not PEM, with `InvalidKey` when its contents
    /// are not an accepted P-256 key, and otherwise only when signing fails.
    pub fn jwt_after_clock(&self, uri: Option<&str>, now: u64, nonce: &[u8]) -> (r: Result<
        String,
        AuthError,
    >)
        ensures
            now > u64::MAX - JWT_EXPIRY_SECS <==> r == Err::<String, AuthError>(
                AuthError::TimeOutOfRange,
            ),
            now <= u64::MAX - JWT_EXPIRY_SECS && pem_contents(
                encode_utf8(spec_trim(self.secret_view())),
            ) is None ==> r == Err::<String, AuthError>(AuthError::InvalidPem),
            now <= u64::MAX - JWT_EXPIRY_SECS ==> (pem_contents(
                encode_utf8(spec_trim(self.secret_view())),
            ) matches Some(der) && !ec_key_accepted(der) ==> r == Err::<String, AuthError>(
                AuthError::InvalidKey,
            )),
            now <= u64::MAX - JWT_EXPIRY_SECS ==> (pem_contents(
                encode_utf8(spec_trim(self.secret_view())),
            ) matches Some(der) && ec_key_accepted(der) ==> (r is Ok || r == Err::<
                String,
                AuthError,
            >(AuthError::Signing))),
            r matches Ok(t) ==> (pem_contents(encode_utf8(spec_trim(self.secret_view())))
                matches Some(der) && ec_key_accepted(der) && signed_token(
                t@,
                der,
                self.key_view(),
                opt_chars(uri),
                now,
                nonce@,
            )),
    {
        if now > u64::MAX - JWT_EXPIRY_SECS {
            return Err(AuthError::TimeOutOfRange);
        }
        let signing_input = jwt_signing_input(self.api_key.as_str(), uri, now, nonce);
        let secret = trimmed(self.api_secret.as_str());
        let der = match parse_pem_contents(secret.as_str()) {
            Ok(d) => d,
            Err(_) => return Err(AuthError::InvalidPem),
        };
        let key = match load_ec_key(der.as_slice()) {
            Ok(k) => k,
            Err(_) => return Err(AuthError::InvalidKey),
        };
        let sig = match sign_es256(&key, signing_input.as_str().as_bytes()) {
            Ok(s) => s,
            Err(_) => return Err(AuthError::Signing),
        };
        let token = jwt_with_signature(signing_input.as_str(), sig.as_slice());
        proof {
            assert(token@ == jwt_text(self.key_view(), opt_chars(uri), now, nonce@, sig@));
            assert(signed_token(token@, der@, self.key_view(), opt_chars(uri), now, nonce@));
        }
        Ok(token)
    }

    /// Whether the first `min(8, len)` bytes of the key end on a character boundary, as
    /// `debug_string` and `display_string` need.
    pub fn key_prefix_is_on_boundary(&self) -> (b: bool)
        ensures
            b == key_prefix_on_boundary(self.key_view()),
    {
        let key = self.api_key.as_str();
        let len = key.as_bytes().len();
        let n = if len < 8 {
            len
        } else {
            8
        };
        key.is_char_boundary(n)
    }

    /// `CoinbaseCredential { api_key: "<first 8 bytes of the key>...", api_secret:
    /// "***redacted***" }`, the strings rendered as `Debug` renders them: the secret is
    /// never shown.
    pub fn debug_string(&self) -> (s: String)
        requires
            key_prefix_on_boundary(self.key_view()),
        ensures
            s@ == "CoinbaseCredential { api_key: "@ + debug_str(key_prefix(self.key_view()) + "..."@)
                + ", api_secret: "@ + debug_str("***redacted***"@) + " }"@,
    {
        let key = self.api_key.as_str();
        let len = key.as_bytes().len();
        let n = if len < 8 {
            len
        } else {
            8
        };
        let (prefix, _) = key.split_at(n);
        proof {
            vstd::utf8::encode_utf8_decode_utf8(prefix@);
        }
        let mut shown: Vec<char> = Vec::new();
        push_str(&mut shown, prefix);
        push_str(&mut shown, "...");
        let shown = string_from_chars(&shown);
        let mut out: Vec<char> = Vec::new();
        push_str(&mut out, "CoinbaseCredential { api_key: ");
        push_str(&mut out, debug_quoted(shown.as_str()).as_str());
        push_str(&mut out, ", api_secret: ");
        push_str(&mut out, debug_quoted("***redacted***").as_str());
        push_str(&mut out, " }");
        string_from_chars(&out)
    }

    /// `"CoinbaseCredential(<first 8 bytes of the key>...)"`: the secret is never shown.
    pub fn display_string(&self) -> (s: String)
        requires
            key_prefix_on_boundary(self.key_view()),
        ensures
            s@ == seq!['C', 'o', 'i', 'n', 'b', 'a', 's', 'e', 'C', 'r', 'e', 'd', 'e', 'n', 't', 'i',
                'a', 'l', '('] + key_prefix(self.key_view()) + seq!['.', '.', '.', ')'],
    {
        let key = self.api_key.as_str();
        let len = key.as_bytes().len();
        let n = if len < 8 {
            len
        } else {
            8
        };
        let (prefix, _) = key.split_at(n);
        proof {
            vstd::utf8::encode_utf8_decode_utf8(prefix@);
        }
        let mut out: Vec<char> = Vec::new();
        push_str(&mut out, "CoinbaseCredential(");
        push_str(&mut out, prefix);
        push_str(&mut out, "...)");
        proof {
            reveal_strlit("CoinbaseCredential(");
            reveal_strlit("...)");
            assert(out@ =~= seq!['C', 'o', 'i', 'n', 'b', 'a', 's', 'e', 'C', 'r', 'e', 'd', 'e', 'n',
                't', 'i', 'a', 'l', '('] + key_prefix(self.key_view()) + seq!['.', '.', '.', ')']);
        }
        string_from_chars(&out)
    }
}

} // verus!
