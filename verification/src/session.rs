//! Session persistence: what is saved and loaded, and the text form of the
//! DPAPI-protected password.

use vstd::prelude::*;
use vstd::string::*;
use vstd::utf8::{decode_utf8, encode_utf8, encode_utf8_decode_utf8, valid_utf8};
use crate::models::{SavedConnectionDto, opt_view};
use crate::text::push_text;
use base64::Engine;

verus! {

/// A saved connection as the UI uses it: the password is in clear text.
#[derive(Debug, Clone)]
pub struct LoadedSession {
    pub host: String,
    pub port: u16,
    pub username: String,
    pub password: Option<String>,
}

/// Mathematical model of a loaded session.
pub struct SessionView {
    pub host: Seq<char>,
    pub port: u16,
    pub username: Seq<char>,
    pub password: Option<Seq<char>>,
}

impl View for LoadedSession {
    type V = SessionView;

    open spec fn view(&self) -> SessionView {
        SessionView {
            host: self.host@,
            port: self.port,
            username: self.username@,
            password: opt_view(self.password),
        }
    }
}

/// Mathematical model of the saved record.
pub struct SavedView {
    pub host: Seq<char>,
    pub port: u16,
    pub username: Seq<char>,
    pub password_protected: Option<Seq<char>>,
}

impl View for SavedConnectionDto {
    type V = SavedView;

    open spec fn view(&self) -> SavedView {
        SavedView {
            host: self.host@,
            port: self.port,
            username: self.username@,
            password_protected: opt_view(self.password_protected),
        }
    }
}

/// The session a saved record gives, with the password recovered from it
/// (`None` when there was none or it could not be recovered); port 0 means 22.
pub open spec fn loaded_session_of(saved: SavedView, password: Option<Seq<char>>) -> SessionView {
    SessionView {
        host: saved.host,
        port: if saved.port > 0 { saved.port } else { 22 },
        username: saved.username,
        password,
    }
}

pub fn loaded_session(saved: SavedConnectionDto, password: Option<String>) -> (r: LoadedSession)
    ensures
        r@ == loaded_session_of(saved@, opt_view(password)),
{
    LoadedSession {
        host: saved.host,
        port: if saved.port > 0 { saved.port } else { 22 },
        username: saved.username,
        password,
    }
}

/// The password that gets protected and saved: only a non-empty one.
pub open spec fn password_to_save_of(password: Option<Seq<char>>) -> Option<Seq<char>> {
    match password {
        Some(p) => if p.len() > 0 { Some(p) } else { None },
        None => None,
    }
}

pub fn password_to_save<'a>(password: Option<&'a str>) -> (r: Option<&'a str>)
    ensures
        match r {
            Some(p) => password_to_save_of(match password {
                Some(q) => Some(q@),
                None => None,
            }) == Some(p@),
            None => password_to_save_of(match password {
                Some(q) => Some(q@),
                None => None,
            }) is None,
        },
{
    match password {
        Some(p) => if p.is_empty() { None } else { Some(p) },
        None => None,
    }
}

/// The record written for a connection.
pub open spec fn saved_record_of(
    host: Seq<char>,
    port: u16,
    username: Seq<char>,
    password_protected: Option<Seq<char>>,
) -> SavedView {
    SavedView { host, port, username, password_protected }
}

pub fn saved_record(host: &str, port: u16, username: &str, password_protected: Option<String>) -> (r: SavedConnectionDto)
    ensures
        r@ == saved_record_of(host@, port, username@, opt_view(password_protected)),
{
    SavedConnectionDto {
        host: host.to_owned(),
        port,
        username: username.to_owned(),
        password_protected,
    }
}

/// What is read back of what was written: host and user as saved, the port
/// (22 for a saved 0), and the password that was recovered.
pub proof fn lemma_session_read_back(
    host: Seq<char>,
    port: u16,
    username: Seq<char>,
    protected: Option<Seq<char>>,
    recovered: Option<Seq<char>>,
)
    ensures
        loaded_session_of(saved_record_of(host, port, username, protected), recovered) == (SessionView {
            host,
            port: if port == 0 { 22 } else { port },
            username,
            password: recovered,
        }),
{
}

/// Character of a 6-bit value in the standard base64 alphabet.
pub open spec fn base64_char(v: nat) -> char {
    if v < 26 {
        (65 + v) as char
    } else if v < 52 {
        (97 + v - 26) as char
    } else if v < 62 {
        (48 + v - 52) as char
    } else if v == 62 {
        '+'
    } else {
        '/'
    }
}

/// Standard base64 with `=` padding (RFC 4648): each 3 bytes become 4 characters.
pub open spec fn base64_encoded(b: Seq<u8>) -> Seq<char>
    decreases b.len(),
{
    if b.len() == 0 {
        Seq::empty()
    } else if b.len() == 1 {
        seq![base64_char((b[0] / 4) as nat), base64_char(((b[0] % 4) * 16) as nat), '=', '=']
    } else if b.len() == 2 {
        seq![
            base64_char((b[0] / 4) as nat),
            base64_char(((b[0] % 4) * 16 + b[1] / 16) as nat),
            base64_char(((b[1] % 16) * 4) as nat),
            '=',
        ]
    } else {
        seq![
            base64_char((b[0] / 4) as nat),
            base64_char(((b[0] % 4) * 16 + b[1] / 16) as nat),
            base64_char(((b[1] % 16) * 4 + b[2] / 64) as nat),
            base64_char((b[2] % 64) as nat),
        ] + base64_encoded(b.skip(3))
    }
}

proof fn lemma_base64_char(x: nat, y: nat)
    requires
        x < 64,
        y < 64,
    ensures
        base64_char(x) != '=',
        base64_char(x) == base64_char(y) ==> x == y,
{
}

proof fn lemma_base64_shape(a: Seq<u8>)
    ensures
        a.len() == 0 ==> base64_encoded(a).len() == 0,
        a.len() > 0 ==> ({
            let e = base64_encoded(a);
            &&& e.len() >= 4
            &&& e[0] == base64_char((a[0] / 4) as nat)
            &&& (a.len() == 1 <==> e[2] == '=')
            &&& (a.len() == 2 <==> (e[2] != '=' && e[3] == '='))
            &&& a.len() == 1 ==> e[1] == base64_char(((a[0] % 4) * 16) as nat)
            &&& a.len() >= 2 ==> e[1] == base64_char(((a[0] % 4) * 16 + a[1] / 16) as nat)
            &&& a.len() == 2 ==> e[2] == base64_char(((a[1] % 16) * 4) as nat)
            &&& a.len() >= 3 ==> e[2] == base64_char(((a[1] % 16) * 4 + a[2] / 64) as nat)
            &&& a.len() >= 3 ==> e[3] == base64_char((a[2] % 64) as nat)
            &&& a.len() >= 3 ==> e.skip(4) == base64_encoded(a.skip(3))
        }),
{
    if a.len() > 0 {
        lemma_base64_char((a[0] / 4) as nat, 0);
        if a.len() >= 2 {
            lemma_base64_char(((a[0] % 4) * 16 + a[1] / 16) as nat, 0);
            lemma_base64_char(((a[1] % 16) * 4) as nat, 0);
        }
        if a.len() >= 3 {
            lemma_base64_char(((a[1] % 16) * 4 + a[2] / 64) as nat, 0);
            lemma_base64_char((a[2] % 64) as nat, 0);
            let e = base64_encoded(a);
            assert(e.skip(4) =~= base64_encoded(a.skip(3)));
        }
    }
}

/// Different bytes have different standard base64 texts.
proof fn lemma_base64_injective(a: Seq<u8>, b: Seq<u8>)
    requires
        base64_encoded(a) == base64_encoded(b),
    ensures
        a == b,
    decreases a.len(),
{
    lemma_base64_shape(a);
    lemma_base64_shape(b);
    if a.len() > 0 {
        let e = base64_encoded(a);
        lemma_base64_char((a[0] / 4) as nat, (b[0] / 4) as nat);
        if a.len() == 1 {
            lemma_base64_char(((a[0] % 4) * 16) as nat, ((b[0] % 4) * 16) as nat);
        } else {
            lemma_base64_char(((a[0] % 4) * 16 + a[1] / 16) as nat, ((b[0] % 4) * 16 + b[1] / 16) as nat);
            if a.len() == 2 {
                lemma_base64_char(((a[1] % 16) * 4) as nat, ((b[1] % 16) * 4) as nat);
            } else {
                lemma_base64_char(
                    ((a[1] % 16) * 4 + a[2] / 64) as nat,
                    ((b[1] % 16) * 4 + b[2] / 64) as nat,
                );
                lemma_base64_char((a[2] % 64) as nat, (b[2] % 64) as nat);
                lemma_base64_injective(a.skip(3), b.skip(3));
                assert(a =~= a.take(3) + a.skip(3));
                assert(b =~= b.take(3) + b.skip(3));
                assert(a.take(3) =~= b.take(3));
            }
        }
        assert(a =~= b);
    }
}

/// The encoded length of `n` bytes fits in `usize`, so encoding does not panic.
pub open spec fn base64_len_fits(n: usize) -> bool {
    (n / 3) * 4 + (if n % 3 > 0 { 4int } else { 0int }) <= usize::MAX
}

/// The bytes whose standard base64 text (with canonical padding) is `text`, if any.
pub open spec fn base64_decoded(text: Seq<char>) -> Option<Seq<u8>> {
    if exists|b: Seq<u8>| #[trigger] base64_encoded(b) == text {
        Some(choose|b: Seq<u8>| #[trigger] base64_encoded(b) == text)
    } else {
        None
    }
}

/// Decoding the text of some bytes gives those bytes back.
pub proof fn lemma_base64_decodes_encoded(b: Seq<u8>)
    ensures
        base64_decoded(base64_encoded(b)) == Some(b),
{
    let t = base64_encoded(b);
    let c = choose|c: Seq<u8>| #[trigger] base64_encoded(c) == t;
    lemma_base64_injective(c, b);
}

/// `STANDARD.encode`: standard base64 with padding.
#[verifier::external_body]
fn base64_encode(bytes: &[u8]) -> (r: String)
    requires
        base64_len_fits(bytes@.len() as usize),
    ensures
        r@ == base64_encoded(bytes@),
{
    base64::engine::general_purpose::STANDARD.encode(bytes)
}

/// `STANDARD.decode`, with the error turned into its message: it accepts exactly
/// the standard base64 texts with canonical padding and zero trailing bits, that
/// is the texts `base64_encoded` gives, and returns the bytes they encode.
#[verifier::external_body]
fn base64_decode(text: &str) -> (r: Result<Vec<u8>, String>)
    ensures
        r is Ok <==> (exists|b: Seq<u8>| #[trigger] base64_encoded(b) == text@),
        r matches Ok(v) ==> base64_encoded(v@) == text@,
{
    match base64::engine::general_purpose::STANDARD.decode(text) {
        Ok(v) => Ok(v),
        Err(e) => Err(e.to_string()),
    }
}

/// `String::from_utf8`, with the error turned into its message: succeeds exactly
/// on valid UTF-8, and the string holds those bytes.
#[verifier::external_body]
fn string_from_utf8(bytes: Vec<u8>) -> (r: Result<String, String>)
    ensures
        r is Ok <==> valid_utf8(bytes@),
        r matches Ok(s) ==> encode_utf8(s@) == bytes@,
{
    match String::from_utf8(bytes) {
        Ok(s) => Ok(s),
        Err(e) => Err(e.to_string()),
    }
}

/// Text form of the DPAPI-protected bytes, as saved in the session file.
pub fn protected_to_text(cipher: &[u8]) -> (r: String)
    requires
        base64_len_fits(cipher@.len() as usize),
    ensures
        r@ == base64_encoded(cipher@),
        base64_decoded(r@) == Some(cipher@),
{
    let r = base64_encode(cipher);
    proof {
        lemma_base64_decodes_encoded(cipher@);
    }
    r
}

/// Whether `e` is `prefix` followed by some detail.
pub open spec fn starts_with(e: Seq<char>, prefix: Seq<char>) -> bool {
    prefix.len() <= e.len() && e.take(prefix.len() as int) == prefix
}

/// The protected bytes from their saved text.
pub fn text_to_protected(text: &str) -> (r: Result<Vec<u8>, String>)
    ensures
        match base64_decoded(text@) {
            Some(b) => r matches Ok(v) && v@ == b,
            None => r matches Err(e) && starts_with(e@, "base64 decode failed: "@),
        },
{
    match base64_decode(text) {
        Ok(v) => {
            proof {
                lemma_base64_decodes_encoded(v@);
            }
            Ok(v)
        },
        Err(detail) => {
            let mut e = "base64 decode failed: ".to_owned();
            push_text(&mut e, detail.as_str());
            assert(e@.take("base64 decode failed: "@.len() as int) =~= "base64 decode failed: "@);
            Err(e)
        },
    }
}

/// The password from the bytes that DPAPI unprotected.
pub fn unprotected_to_text(plain: Vec<u8>) -> (r: Result<String, String>)
    ensures
        valid_utf8(plain@) ==> (r matches Ok(s) && s@ == decode_utf8(plain@)),
        !valid_utf8(plain@) ==> (r matches Err(e) && starts_with(e@, "utf8 decode failed: "@)),
{
    match string_from_utf8(plain) {
        Ok(s) => {
            proof {
                encode_utf8_decode_utf8(s@);
            }
            Ok(s)
        },
        Err(detail) => {
            let mut e = "utf8 decode failed: ".to_owned();
            push_text(&mut e, detail.as_str());
            assert(e@.take("utf8 decode failed: "@.len() as int) =~= "utf8 decode failed: "@);
            Err(e)
        },
    }
}

/// The message where DPAPI does not exist.
pub fn dpapi_unavailable() -> (r: String)
    ensures
        r@ == "DPAPI is only available on Windows"@,
{
    "DPAPI is only available on Windows".to_owned()
}

} // verus!
