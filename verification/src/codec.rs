//! Platform callback codec: signature verification and envelope
//! encryption.
//!
//! A callback's signature is the lowercase hex SHA-1 of the
//! lexicographically sorted concatenation of timestamp, nonce, shared
//! token, and ciphertext. The envelope is a block of 16 random bytes, the
//! big-endian length of the text, the text, and the receiver id,
//! encrypted with AES-256-GCM under the assistant's key. The raw
//! primitives (SHA-1, AES, base64, randomness) are relied upon through
//! the trusted items in this file; the sorting, framing and checking
//! around them is verified.
use vstd::prelude::*;
use vstd::string::*;
use aes_gcm::aead::{Aead, AeadCore, KeyInit, OsRng};
use aes_gcm::{Aes256Gcm, Key, Nonce};
use base64::Engine;
use sha1::{Digest, Sha1};
use crate::strutil::str_eq;

verus! {

/// Digest of a byte string under SHA-1. The digest is a function of the
/// input alone; its value is not stated here.
pub uninterp spec fn sha1_of(input: Seq<u8>) -> Seq<u8>;

/// AES-256-GCM ciphertext for a key, nonce and plaintext; a function of
/// the three alone.
pub uninterp spec fn aead_ct_of(key: Seq<u8>, nonce: Seq<u8>, pt: Seq<u8>) -> Seq<u8>;

/// AES-256-GCM decryption under a key and nonce: the plaintext for a
/// well-formed ciphertext, `None` for a forged or damaged one.
pub uninterp spec fn aead_pt_of(key: Seq<u8>, nonce: Seq<u8>, ct: Seq<u8>) -> Option<Seq<u8>>;

/// Standard base64 encoding of a byte string.
pub uninterp spec fn b64_of(input: Seq<u8>) -> Seq<char>;

/// Standard base64 decoding: the bytes for a well-formed encoding, `None`
/// otherwise.
pub uninterp spec fn b64_decode_of(s: Seq<char>) -> Option<Seq<u8>>;

/// Relies on sha1::Sha1::digest: a 20-byte digest determined by the input
/// bytes alone.
#[verifier::external_body]
fn sha1_digest(input: &Vec<u8>) -> (r: Vec<u8>)
    ensures
        r@ == sha1_of(input@),
        r@.len() == 20,
{
    Sha1::digest(input.as_slice()).to_vec()
}

/// Relies on base16ct::lower::encode_string: two lowercase hex digits per
/// byte, most significant first.
#[verifier::external_body]
fn hex_lower(b: &Vec<u8>) -> (r: String)
    ensures
        r@ == spec_hex_lower(b@),
{
    base16ct::lower::encode_string(b.as_slice())
}

/// Relies on base64::engine::general_purpose::STANDARD.encode, and on
/// decode inverting encode.
#[verifier::external_body]
fn b64_encode(b: &Vec<u8>) -> (r: String)
    ensures
        r@ == b64_of(b@),
        b64_decode_of(r@) == Some(b@),
{
    base64::engine::general_purpose::STANDARD.encode(b.as_slice())
}

/// Relies on base64::engine::general_purpose::STANDARD.decode: succeeds
/// exactly on well-formed standard base64.
#[verifier::external_body]
fn b64_decode(s: &str) -> (r: Option<Vec<u8>>)
    ensures
        match r {
            Some(v) => b64_decode_of(s@) == Some(v@),
            None => b64_decode_of(s@) is None,
        },
{
    base64::engine::general_purpose::STANDARD.decode(s).ok()
}

/// Relies on aes_gcm::Aes256Gcm together with aead::Aead::encrypt, and on
/// AEAD correctness: decrypting the produced ciphertext under the same
/// key and nonce yields the plaintext back. Its source refuses only a
/// plaintext beyond 2^36 bytes, so within that bound it succeeds.
#[verifier::external_body]
fn aes256gcm_encrypt(key: &Vec<u8>, nonce: &Vec<u8>, pt: &Vec<u8>) -> (r: Option<Vec<u8>>)
    requires
        key@.len() == 32,
        nonce@.len() == 12,
    ensures
        pt@.len() <= 0x10_0000_0000 ==> r is Some,
        match r {
            Some(ct) => ct@ == aead_ct_of(key@, nonce@, pt@) && aead_pt_of(key@, nonce@, ct@)
                == Some(pt@),
            None => true,
        },
{
    let cipher = Aes256Gcm::new(Key::<Aes256Gcm>::from_slice(key.as_slice()));
    cipher.encrypt(Nonce::from_slice(nonce.as_slice()), pt.as_slice()).ok()
}

/// Relies on aes_gcm::Aes256Gcm together with aead::Aead::decrypt:
/// succeeds exactly on authentic ciphertexts for the key and nonce.
#[verifier::external_body]
fn aes256gcm_decrypt(key: &Vec<u8>, nonce: &Vec<u8>, ct: &Vec<u8>) -> (r: Option<Vec<u8>>)
    requires
        key@.len() == 32,
        nonce@.len() == 12,
    ensures
        match r {
            Some(pt) => aead_pt_of(key@, nonce@, ct@) == Some(pt@),
            None => aead_pt_of(key@, nonce@, ct@) is None,
        },
{
    let cipher = Aes256Gcm::new(Key::<Aes256Gcm>::from_slice(key.as_slice()));
    cipher.decrypt(Nonce::from_slice(nonce.as_slice()), ct.as_slice()).ok()
}

/// Relies on rand::random: 16 bytes; nothing is known of their values.
#[verifier::external_body]
fn random_bytes16() -> (r: Vec<u8>)
    ensures
        r@.len() == 16,
{
    rand::random::<[u8; 16]>().to_vec()
}

/// Relies on aead::AeadCore::generate_nonce with OsRng: 12 bytes; nothing
/// is known of their values.
#[verifier::external_body]
fn generate_nonce_bytes() -> (r: Vec<u8>)
    ensures
        r@.len() == 12,
{
    Aes256Gcm::generate_nonce(&mut OsRng).to_vec()
}

/// Relies on String::from_utf8: succeeds exactly on valid UTF-8, keeping
/// the bytes.
#[verifier::external_body]
fn string_from_utf8(v: Vec<u8>) -> (r: Option<String>)
    ensures
        match r {
            Some(s) => vstd::utf8::valid_utf8(v@) && s@ == vstd::utf8::decode_utf8(v@)
                && vstd::utf8::encode_utf8(s@) == v@,
            None => !vstd::utf8::valid_utf8(v@),
        },
{
    String::from_utf8(v).ok()
}

/// Lowercase hex digit for a value below 16.
pub open spec fn spec_hex_digit(d: int) -> char {
    if d < 10 {
        crate::numfmt::spec_digit(d)
    } else if d == 10 {
        'a'
    } else if d == 11 {
        'b'
    } else if d == 12 {
        'c'
    } else if d == 13 {
        'd'
    } else if d == 14 {
        'e'
    } else {
        'f'
    }
}

/// Lowercase hex encoding: two digits per byte, most significant first.
pub open spec fn spec_hex_lower(b: Seq<u8>) -> Seq<char>
    decreases b.len(),
{
    if b.len() == 0 {
        Seq::empty()
    } else {
        spec_hex_lower(b.drop_last()) + seq![
            spec_hex_digit(b.last() as int / 16),
            spec_hex_digit(b.last() as int % 16),
        ]
    }
}

/// `a` is at or before `b` in lexicographic character order.
pub open spec fn lex_le(a: Seq<char>, b: Seq<char>) -> bool
    decreases a.len(),
{
    if a.len() == 0 {
        true
    } else if b.len() == 0 {
        false
    } else if a[0] == b[0] {
        lex_le(a.subrange(1, a.len() as int), b.subrange(1, b.len() as int))
    } else {
        (a[0] as u32) < (b[0] as u32)
    }
}

/// Compares two strings lexicographically by characters.
#[verifier::loop_isolation(false)]
pub fn str_lex_le(a: &str, b: &str) -> (r: bool)
    ensures
        r == lex_le(a@, b@),
    decreases a@.len(),
{
    let la = a.unicode_len();
    let lb = b.unicode_len();
    if la == 0 {
        return true;
    }
    if lb == 0 {
        return false;
    }
    let ca = a.get_char(0);
    let cb = b.get_char(0);
    if ca == cb {
        let ra = a.substring_char(1, la);
        let rb = b.substring_char(1, lb);
        str_lex_le(ra, rb)
    } else {
        (ca as u32) < (cb as u32)
    }
}

/// Insertion of a string into a sorted run, before the first entry it
/// does not follow.
pub open spec fn spec_insert_sorted(s: Seq<Seq<char>>, x: Seq<char>) -> Seq<Seq<char>>
    decreases s.len(),
{
    if s.len() == 0 {
        seq![x]
    } else if lex_le(x, s[0]) {
        seq![x] + s
    } else {
        seq![s[0]] + spec_insert_sorted(s.subrange(1, s.len() as int), x)
    }
}

/// The four signature parts in sorted order.
pub open spec fn spec_sort4(
    a: Seq<char>,
    b: Seq<char>,
    c: Seq<char>,
    d: Seq<char>,
) -> Seq<Seq<char>> {
    spec_insert_sorted(
        spec_insert_sorted(spec_insert_sorted(spec_insert_sorted(Seq::empty(), a), b), c),
        d,
    )
}

/// Concatenation of a run of strings.
pub open spec fn spec_concat_all(s: Seq<Seq<char>>) -> Seq<char>
    decreases s.len(),
{
    if s.len() == 0 {
        Seq::empty()
    } else {
        s[0] + spec_concat_all(s.subrange(1, s.len() as int))
    }
}

/// The platform's signature of a callback: lowercase hex SHA-1 of the
/// sorted concatenation of timestamp, nonce, shared token, and message.
pub open spec fn spec_signature(
    timestamp: Seq<char>,
    nonce: Seq<char>,
    token: Seq<char>,
    msg: Seq<char>,
) -> Seq<char> {
    spec_hex_lower(sha1_of(vstd::utf8::encode_utf8(spec_concat_all(spec_sort4(timestamp, nonce, token, msg)))))
}

/// Inserts a string into a sorted vector of strings.
#[verifier::loop_isolation(false)]
fn insert_sorted(v: &mut Vec<String>, x: &str)
    ensures
        final(v).deep_view() == spec_insert_sorted(old(v).deep_view(), x@),
{
    let ghost dv = old(v).deep_view();
    let n = v.len();
    let mut pos: usize = 0;
    proof {
        assert(dv.subrange(0, n as int) =~~= dv);
        assert(dv.subrange(0, 0) + spec_insert_sorted(dv.subrange(0, n as int), x@)
            =~~= spec_insert_sorted(dv, x@));
    }
    while pos < n && !str_lex_le(x, v[pos].as_str())
        invariant
            0 <= pos <= n,
            *v == *old(v),
            spec_insert_sorted(dv, x@) == dv.subrange(0, pos as int) + spec_insert_sorted(
                dv.subrange(pos as int, n as int),
                x@,
            ),
        decreases n - pos,
    {
        proof {
            assert(v.deep_view()[pos as int] == v@[pos as int]@);
            let tailp = dv.subrange(pos as int, n as int);
            assert(tailp[0] == dv[pos as int]);
            assert(tailp.subrange(1, tailp.len() as int) =~~= dv.subrange(pos + 1, n as int));
            assert(dv.subrange(0, pos as int) + (seq![dv[pos as int]] + spec_insert_sorted(
                dv.subrange(pos + 1, n as int),
                x@,
            )) =~~= dv.subrange(0, pos + 1) + spec_insert_sorted(
                dv.subrange(pos + 1, n as int),
                x@,
            ));
        }
        pos += 1;
    }
    proof {
        if pos < n {
            assert(v.deep_view()[pos as int] == v@[pos as int]@);
            let tailp = dv.subrange(pos as int, n as int);
            assert(tailp[0] == dv[pos as int]);
        }
    }
    v.insert(pos, x.to_owned());
    proof {
        assert(v.deep_view() =~~= spec_insert_sorted(dv, x@)) by {
            assert forall|i: int| 0 <= i < v@.len() implies v.deep_view()[i] == v@[i]@ by {}
            if pos == n {
                assert(spec_insert_sorted(dv.subrange(n as int, n as int), x@) =~~= seq![x@]);
            }
        }
    }
}

/// Builds the sorted concatenation of the four signature parts.
fn sorted_concat(a: &str, b: &str, c: &str, d: &str) -> (r: String)
    ensures
        r@ == spec_concat_all(spec_sort4(a@, b@, c@, d@)),
{
    let mut v: Vec<String> = Vec::new();
    insert_sorted(&mut v, a);
    insert_sorted(&mut v, b);
    insert_sorted(&mut v, c);
    insert_sorted(&mut v, d);
    let mut r = String::new();
    let ghost dv = v.deep_view();
    let n = v.len();
    let mut i: usize = 0;
    proof {
        assert(dv.subrange(0, n as int) =~~= dv);
        assert(r@ + spec_concat_all(dv.subrange(0, n as int)) =~= spec_concat_all(dv));
    }
    while i < n
        invariant
            0 <= i <= n,
            n == v@.len(),
            dv == v.deep_view(),
            r@ + spec_concat_all(dv.subrange(i as int, n as int)) == spec_concat_all(dv),
        decreases n - i,
    {
        proof {
            assert(v.deep_view()[i as int] == v@[i as int]@);
            assert(dv.subrange(i as int, n as int).subrange(
                1,
                dv.subrange(i as int, n as int).len() as int,
            ) =~~= dv.subrange(i + 1, n as int));
        }
        r.append(v[i].as_str());
        i += 1;
    }
    proof {
        assert(spec_concat_all(dv.subrange(n as int, n as int)) == Seq::<char>::empty());
        assert(r@ =~= spec_concat_all(dv));
    }
    r
}

/// Big-endian four-byte rendering of a length below 2^32.
pub open spec fn spec_be32(n: int) -> Seq<u8> {
    seq![
        (n / 0x1000000) as u8,
        (n / 0x10000 % 256) as u8,
        (n / 0x100 % 256) as u8,
        (n % 256) as u8,
    ]
}

/// Value of four big-endian bytes.
pub open spec fn spec_be32val(b: Seq<u8>) -> int {
    b[0] * 0x1000000 + b[1] * 0x10000 + b[2] * 0x100 + b[3]
}

pub proof fn lemma_be32_roundtrip(n: int)
    requires
        0 <= n < 0x100000000,
    ensures
        spec_be32val(spec_be32(n)) == n,
{
    assert((n / 0x1000000) * 0x1000000 + (n / 0x10000 % 256) * 0x10000 + (n / 0x100 % 256) * 0x100
        + n % 256 == n) by (nonlinear_arith)
        requires
            0 <= n < 0x100000000,
    ;
    assert(n / 0x1000000 < 256) by (nonlinear_arith)
        requires
            0 <= n < 0x100000000,
    ;
}

/// An envelope's plaintext block: 16 bytes of padding, the big-endian
/// length of the text, the text, and the receiver id.
pub open spec fn spec_frame(prefix: Seq<u8>, text: Seq<u8>, rid: Seq<u8>) -> Seq<u8> {
    prefix + spec_be32(text.len() as int) + text + rid
}

/// Reading an envelope block back: the text whose length the four bytes
/// after the padding give, and the receiver id after it.
pub open spec fn spec_unframe(block: Seq<u8>) -> Option<(Seq<u8>, Seq<u8>)> {
    if block.len() >= 20 && 20 + spec_be32val(block.subrange(16, 20)) <= block.len() {
        let msg_len = spec_be32val(block.subrange(16, 20));
        Some(
            (
                block.subrange(20, 20 + msg_len),
                block.subrange(20 + msg_len, block.len() as int),
            ),
        )
    } else {
        None
    }
}

/// Framing a text and receiver id behind 16 bytes of padding reads back
/// to exactly that text and receiver id.
pub proof fn lemma_frame_roundtrip(prefix: Seq<u8>, text: Seq<u8>, rid: Seq<u8>)
    requires
        prefix.len() == 16,
        text.len() < 0x100000000,
    ensures
        spec_unframe(spec_frame(prefix, text, rid)) == Some((text, rid)),
{
    let block = spec_frame(prefix, text, rid);
    lemma_be32_roundtrip(text.len() as int);
    assert(block.subrange(16, 20) =~= spec_be32(text.len() as int));
    assert(block.subrange(20, 20 + text.len() as int) =~= text);
    assert(block.subrange(20 + text.len() as int, block.len() as int) =~= rid);
}

/// Copies the byte range `[a, b)`.
#[verifier::loop_isolation(false)]
fn bytes_range(v: &Vec<u8>, a: usize, b: usize) -> (r: Vec<u8>)
    requires
        a <= b <= v@.len(),
    ensures
        r@ == v@.subrange(a as int, b as int),
{
    let mut r: Vec<u8> = Vec::new();
    let mut i: usize = a;
    while i < b
        invariant
            a <= i <= b,
            r@ =~= v@.subrange(a as int, i as int),
        decreases b - i,
    {
        r.push(v[i]);
        proof {
            assert(r@ =~= v@.subrange(a as int, i + 1));
        }
        i += 1;
    }
    proof {
        assert(r@ =~= v@.subrange(a as int, b as int));
    }
    r
}

/// An envelope's decrypted content: the message text and the receiver id.
#[derive(Debug)]
pub struct CryptoSource {
    pub text: String,
    pub receive_id: String,
}

impl PartialEq for CryptoSource {
    fn eq(&self, other: &Self) -> (r: bool) {
        self.text == other.text && self.receive_id == other.receive_id
    }
}

impl vstd::std_specs::cmp::PartialEqSpecImpl for CryptoSource {
    open spec fn obeys_eq_spec() -> bool {
        true
    }

    open spec fn eq_spec(&self, other: &Self) -> bool {
        self.text@ == other.text@ && self.receive_id@ == other.receive_id@
    }
}

/// The envelope could not be decrypted: damaged base64, a wrong nonce, a
/// forged or corrupted ciphertext, a broken frame, or text that is not
/// UTF-8.
#[derive(Debug, PartialEq, Eq, Structural, Clone, Copy)]
pub struct DecryptError;

/// What decrypting an envelope under a key yields: the text and receiver
/// id when every stage reads back, nothing otherwise.
pub open spec fn spec_decrypt(key: Seq<u8>, encoded: Seq<char>, nonce_b64: Seq<char>) -> Option<
    (Seq<char>, Seq<char>),
> {
    match b64_decode_of(encoded) {
        None => None,
        Some(ct) => match b64_decode_of(nonce_b64) {
            None => None,
            Some(nonce) => if nonce.len() != 12 {
                None
            } else {
                match aead_pt_of(key, nonce, ct) {
                    None => None,
                    Some(block) => match spec_unframe(block) {
                        None => None,
                        Some((tb, rb)) => if vstd::utf8::valid_utf8(tb) && vstd::utf8::valid_utf8(
                            rb,
                        ) {
                            Some((vstd::utf8::decode_utf8(tb), vstd::utf8::decode_utf8(rb)))
                        } else {
                            None
                        },
                    },
                }
            },
        },
    }
}

/// Envelope encryption and decryption under one assistant's symmetric
/// key.
#[derive(Debug)]
pub struct CryptoAgent {
    pub key: Vec<u8>,
}

impl CryptoAgent {
    /// The key has the 32 bytes AES-256 asks for.
    pub open spec fn wf(&self) -> bool {
        self.key@.len() == 32
    }

    /// Builds an agent from the raw key text, whose UTF-8 bytes are the
    /// key.
    pub fn new(key: &str) -> (r: CryptoAgent)
        requires
            key.spec_bytes().len() == 32,
        ensures
            r.wf(),
            r.key@ == key.spec_bytes(),
    {
        CryptoAgent { key: key.as_bytes_vec() }
    }

    /// Builds an agent from the base64-encoded key of the configuration.
    pub fn from_b64_key(encoded: &str) -> (r: Option<CryptoAgent>)
        ensures
            match r {
                Some(a) => a.wf() && b64_decode_of(encoded@) == Some(a.key@),
                None => b64_decode_of(encoded@) is None || (b64_decode_of(encoded@) matches Some(k)
                    && k.len() != 32),
            },
    {
        match b64_decode(encoded) {
            None => None,
            Some(k) => {
                if k.len() == 32 {
                    Some(CryptoAgent { key: k })
                } else {
                    None
                }
            },
        }
    }

    /// Encrypts a text and receiver id into a base64 ciphertext and
    /// nonce; within the length bounds this always succeeds, and
    /// decrypting what it returns yields the input back.
    pub fn encrypt(&self, input: &CryptoSource) -> (r: Option<(String, String)>)
        requires
            self.wf(),
            vstd::utf8::encode_utf8(input.text@).len() < 0x100000000,
            vstd::utf8::encode_utf8(input.receive_id@).len() < 0x100000000,
        ensures
            r is Some,
            match r {
                Some((ct_b64, nonce_b64)) => spec_decrypt(self.key@, ct_b64@, nonce_b64@) == Some(
                    (input.text@, input.receive_id@),
                ),
                None => true,
            },
    {
        let tb = input.text.as_str().as_bytes_vec();
        let rb = input.receive_id.as_str().as_bytes_vec();
        let text_len: u32 = tb.len() as u32;
        let mut block = random_bytes16();
        let ghost prefix = block@;
        block.push((text_len / 0x1000000) as u8);
        block.push((text_len / 0x10000 % 256) as u8);
        block.push((text_len / 0x100 % 256) as u8);
        block.push((text_len % 256) as u8);
        let mut tb2 = tb;
        let mut rb2 = rb;
        block.append(&mut tb2);
        block.append(&mut rb2);
        proof {
            assert(block@ =~= spec_frame(
                prefix,
                vstd::utf8::encode_utf8(input.text@),
                vstd::utf8::encode_utf8(input.receive_id@),
            ));
        }
        let nonce = generate_nonce_bytes();
        let ct = match aes256gcm_encrypt(&self.key, &nonce, &block) {
            None => {
                return None;
            },
            Some(c) => c,
        };
        let ct_b64 = b64_encode(&ct);
        let nonce_b64 = b64_encode(&nonce);
        proof {
            lemma_frame_roundtrip(prefix, vstd::utf8::encode_utf8(input.text@), vstd::utf8::encode_utf8(input.receive_id@));
            vstd::utf8::encode_utf8_valid_utf8(input.text@);
            vstd::utf8::encode_utf8_valid_utf8(input.receive_id@);
            vstd::utf8::encode_utf8_decode_utf8(input.text@);
            vstd::utf8::encode_utf8_decode_utf8(input.receive_id@);
        }
        Some((ct_b64, nonce_b64))
    }

    /// Decrypts a base64 ciphertext and nonce back into the text and
    /// receiver id.
    pub fn decrypt(&self, encoded: &str, nonce: &str) -> (r: Result<CryptoSource, DecryptError>)
        requires
            self.wf(),
        ensures
            match r {
                Ok(cs) => spec_decrypt(self.key@, encoded@, nonce@) == Some(
                    (cs.text@, cs.receive_id@),
                ),
                Err(_) => spec_decrypt(self.key@, encoded@, nonce@) is None,
            },
    {
        let ct = match b64_decode(encoded) {
            None => {
                return Err(DecryptError);
            },
            Some(v) => v,
        };
        let nb = match b64_decode(nonce) {
            None => {
                return Err(DecryptError);
            },
            Some(v) => v,
        };
        if nb.len() != 12 {
            return Err(DecryptError);
        }
        let block = match aes256gcm_decrypt(&self.key, &nb, &ct) {
            None => {
                return Err(DecryptError);
            },
            Some(v) => v,
        };
        if block.len() < 20 {
            return Err(DecryptError);
        }
        let b0 = block[16] as u64;
        let b1 = block[17] as u64;
        let b2 = block[18] as u64;
        let b3 = block[19] as u64;
        let msg_len: u64 = b0 * 0x1000000 + b1 * 0x10000 + b2 * 0x100 + b3;
        proof {
            assert(block@.subrange(16, 20) =~= seq![block@[16], block@[17], block@[18], block@[19]]);
            assert(spec_be32val(block@.subrange(16, 20)) == msg_len);
        }
        if msg_len > (block.len() - 20) as u64 {
            return Err(DecryptError);
        }
        let ml = msg_len as usize;
        let tb = bytes_range(&block, 20, 20 + ml);
        let rb = bytes_range(&block, 20 + ml, block.len());
        let text = match string_from_utf8(tb) {
            None => {
                return Err(DecryptError);
            },
            Some(s) => s,
        };
        let receive_id = match string_from_utf8(rb) {
            None => {
                return Err(DecryptError);
            },
            Some(s) => s,
        };
        Ok(CryptoSource { text, receive_id })
    }
}

/// Verifies a platform signature over a timestamp, nonce and message
/// under the shared token.
pub fn check_signature(signature: &str, timestamp: &str, nonce: &str, token: &str, msg: &str) -> (r:
    bool)
    ensures
        r == (signature@ == spec_signature(timestamp@, nonce@, token@, msg@)),
{
    let concat = sorted_concat(timestamp, nonce, token, msg);
    let bytes = concat.as_str().as_bytes_vec();
    let digest = sha1_digest(&bytes);
    let expected = hex_lower(&digest);
    str_eq(signature, expected.as_str())
}

/// Computes the platform signature of a callback, as `check_signature`
/// expects it.
pub fn generate_signature(timestamp: &str, nonce: &str, token: &str, msg: &str) -> (r: String)
    ensures
        r@ == spec_signature(timestamp@, nonce@, token@, msg@),
{
    let concat = sorted_concat(timestamp, nonce, token, msg);
    let bytes = concat.as_str().as_bytes_vec();
    let digest = sha1_digest(&bytes);
    hex_lower(&digest)
}

} // verus!
