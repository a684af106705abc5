//! Compression, packet encryption and message signing.
//!
//! Packets are sealed with AES-256-GCM under a key derived from a shared
//! secret by SHA-256; a sealed packet is the random 12-byte nonce followed by
//! the ciphertext and its tag. Signatures are the lower-case hex form of
//! HMAC-SHA256.
use vstd::prelude::*;
use vstd::utf8::encode_utf8;
use aes_gcm::aead::{Aead, KeyInit};
use aes_gcm::{Aes256Gcm, Nonce};
use flate2::read::GzDecoder;
use flate2::write::GzEncoder;
use flate2::Compression;
use hmac::{Hmac, Mac};
use rand::RngCore;
use sha2::{Digest, Sha256};
use std::io::{Read, Write};
use crate::error::{Error, Result};
use crate::text::{cat2, push_char, has_prefix};

verus! {

/// The gzip stream that flate2 writes for `data` at the default level.
pub uninterp spec fn gzip(data: Seq<u8>) -> Seq<u8>;

/// The SHA-256 digest of `data`.
pub uninterp spec fn sha256(data: Seq<u8>) -> Seq<u8>;

/// The HMAC-SHA256 tag of `msg` under `key`.
pub uninterp spec fn hmac_sha256(key: Seq<u8>, msg: Seq<u8>) -> Seq<u8>;

/// The AES-256-GCM ciphertext, tag appended, of `plaintext` under `key` and
/// `nonce`, with no associated data.
pub uninterp spec fn aes256gcm_seal(key: Seq<u8>, nonce: Seq<u8>, plaintext: Seq<u8>) -> Seq<u8>;

/// The longest plaintext AES-GCM seals: 2^36 bytes.
pub const AES_GCM_MAX_PLAINTEXT: u64 = 68719476736;

/// How a gzip compression failed: while writing the data, or while
/// finishing the stream. Each carries the I/O error's text.
#[derive(Debug)]
pub enum GzipFailure {
    Write(String),
    Finish(String),
}

/// `GzEncoder` over a `Vec` at `Compression::default()`: writes `data` and
/// finishes the stream. Writing into a `Vec` does not fail, so it gives the
/// gzip stream of `data`, which holds at least the 10-byte header and the
/// 8-byte trailer.
#[verifier::external_body]
fn gzip_encode(data: &[u8]) -> (r: core::result::Result<Vec<u8>, GzipFailure>)
    ensures
        r is Ok,
        r matches Ok(v) ==> v@ == gzip(data@) && v@.len() >= 18,
{
    let mut encoder = GzEncoder::new(Vec::new(), Compression::default());
    if let Err(e) = encoder.write_all(data) {
        return Err(GzipFailure::Write(e.to_string()));
    }
    encoder.finish().map_err(|e| GzipFailure::Finish(e.to_string()))
}

/// `GzDecoder::read_to_end`: the bytes that the gzip stream `data` holds.
/// A stream that flate2 wrote is read back to the data it was written from;
/// what other input gives is left open.
#[verifier::external_body]
fn gzip_decode(data: &[u8]) -> (r: core::result::Result<Vec<u8>, String>)
    ensures
        r is Ok || forall|x: Seq<u8>| #[trigger] gzip(x) != data@,
        r matches Ok(v) ==> forall|x: Seq<u8>| #[trigger] gzip(x) == data@ ==> v@ == x,
{
    let mut decoder = GzDecoder::new(data);
    let mut result = Vec::new();
    match decoder.read_to_end(&mut result) {
        Ok(_) => Ok(result),
        Err(e) => Err(e.to_string()),
    }
}

/// `Sha256::digest`: the 32-byte digest of `data`.
#[verifier::external_body]
fn sha256_digest(data: &[u8]) -> (d: Vec<u8>)
    ensures
        d@ == sha256(data@),
        d@.len() == 32,
{
    Sha256::digest(data).to_vec()
}

/// `Hmac::<Sha256>`: the 32-byte tag of `msg` under `key` (HMAC takes a key
/// of any length).
#[verifier::external_body]
fn hmac_sha256_tag(key: &[u8], msg: &[u8]) -> (t: Vec<u8>)
    ensures
        t@ == hmac_sha256(key@, msg@),
        t@.len() == 32,
{
    let mut mac = <Hmac<Sha256> as Mac>::new_from_slice(key).expect("HMAC accepts any key length");
    mac.update(msg);
    mac.finalize().into_bytes().to_vec()
}

/// `rand::thread_rng().fill_bytes`: twelve random bytes.
#[verifier::external_body]
fn random_nonce() -> (n: Vec<u8>)
    ensures
        n@.len() == 12,
{
    let mut bytes = [0u8; 12];
    rand::thread_rng().fill_bytes(&mut bytes);
    bytes.to_vec()
}

/// `Aes256Gcm::encrypt` under a 32-byte key and a 12-byte nonce. It fails
/// exactly when the plaintext is over 2^36 bytes, with the text of
/// `aead::Error`; else it gives the ciphertext, 16 bytes longer than the
/// plaintext.
#[verifier::external_body]
fn aes_seal(key: &[u8], nonce: &[u8], data: &[u8]) -> (r: core::result::Result<Vec<u8>, String>)
    requires
        key@.len() == 32,
        nonce@.len() == 12,
    ensures
        r is Ok <==> data@.len() <= AES_GCM_MAX_PLAINTEXT,
        r matches Ok(v) ==> v@ == aes256gcm_seal(key@, nonce@, data@) && v@.len() == data@.len()
            + 16,
        r matches Err(s) ==> s@ == "aead::Error"@,
{
    match Aes256Gcm::new_from_slice(key) {
        Ok(cipher) => cipher.encrypt(Nonce::from_slice(nonce), data).map_err(|e| e.to_string()),
        Err(e) => Err(e.to_string()),
    }
}

/// `Aes256Gcm::decrypt` under a 32-byte key and a 12-byte nonce. A
/// ciphertext that sealing a plaintext under the same key and nonce gave
/// opens to that plaintext; when it fails, it does so with the text of
/// `aead::Error`. Which other input is refused is left open.
#[verifier::external_body]
fn aes_open(key: &[u8], nonce: &[u8], data: &[u8]) -> (r: core::result::Result<Vec<u8>, String>)
    requires
        key@.len() == 32,
        nonce@.len() == 12,
    ensures
        r is Ok || forall|pt: Seq<u8>|
            pt.len() <= AES_GCM_MAX_PLAINTEXT ==> #[trigger] aes256gcm_seal(key@, nonce@, pt)
                != data@,
        r matches Ok(v) ==> forall|pt: Seq<u8>|
            pt.len() <= AES_GCM_MAX_PLAINTEXT && #[trigger] aes256gcm_seal(key@, nonce@, pt)
                == data@ ==> v@ == pt,
        r matches Err(s) ==> s@ == "aead::Error"@,
{
    match Aes256Gcm::new_from_slice(key) {
        Ok(cipher) => cipher.decrypt(Nonce::from_slice(nonce), data).map_err(|e| e.to_string()),
        Err(e) => Err(e.to_string()),
    }
}

/// The key that a secret stands for: the SHA-256 digest of its UTF-8 bytes.
pub open spec fn derived_key(secret: Seq<char>) -> Seq<u8> {
    sha256(encode_utf8(secret))
}

/// `packet` is `data` sealed under `secret`: a 12-byte nonce, then the
/// AES-256-GCM ciphertext of `data` under the secret's key and that nonce.
pub open spec fn sealed_under(secret: Seq<char>, data: Seq<u8>, packet: Seq<u8>) -> bool {
    packet.len() >= 12 && packet.skip(12) == aes256gcm_seal(
        derived_key(secret),
        packet.take(12),
        data,
    )
}

/// `packet` opens under `secret` to `pt`: the secret is set, `pt` is within
/// the cipher's limit, and the packet is `pt` sealed under the secret. On
/// such a packet `PacketCipher::decrypt` gives back `pt`.
pub open spec fn packet_opens(secret: Seq<char>, packet: Seq<u8>, pt: Seq<u8>) -> bool {
    secret.len() > 0 && pt.len() <= AES_GCM_MAX_PLAINTEXT && sealed_under(secret, pt, packet)
}

/// The lower-case hex digit of `d < 16`.
pub open spec fn hex_digit(d: nat) -> char {
    if d < 10 {
        (('0' as u32) + d) as char
    } else {
        (('a' as u32) + d - 10) as char
    }
}

/// The lower-case hex form of `data`, two digits a byte.
pub open spec fn hex_of(data: Seq<u8>) -> Seq<char>
    decreases data.len(),
{
    if data.len() == 0 {
        Seq::empty()
    } else {
        hex_of(data.drop_last()) + seq![
            hex_digit((data.last() / 16) as nat),
            hex_digit((data.last() % 16) as nat),
        ]
    }
}

/// The signature of `message` under `token`: the hex form of the HMAC-SHA256
/// of the message's UTF-8 bytes keyed by the token's.
pub open spec fn signature_of(token: Seq<char>, message: Seq<char>) -> Seq<char> {
    hex_of(hmac_sha256(encode_utf8(token), encode_utf8(message)))
}

proof fn lemma_hex_len(data: Seq<u8>)
    ensures
        hex_of(data).len() == 2 * data.len(),
    decreases data.len(),
{
    if data.len() > 0 {
        lemma_hex_len(data.drop_last());
    }
}

/// The hex digit character of `d < 16`.
fn hex_char(d: u8) -> (c: char)
    requires
        d < 16,
    ensures
        c == hex_digit(d as nat),
{
    if d < 10 {
        (0x30u8 + d) as char
    } else {
        (0x57u8 + d) as char
    }
}

/// The lower-case hex form of `data`, two digits a byte.
pub fn hex_encode(data: &[u8]) -> (s: String)
    ensures
        s@ == hex_of(data@),
{
    let mut s = String::new();
    let mut i: usize = 0;
    while i < data.len()
        invariant
            i <= data.len(),
            s@ == hex_of(data@.take(i as int)),
        decreases data.len() - i,
    {
        let b = data[i];
        push_char(&mut s, hex_char(b / 16));
        push_char(&mut s, hex_char(b % 16));
        assert(data@.take(i + 1).drop_last() =~= data@.take(i as int));
        i = i + 1;
    }
    assert(data@.take(i as int) =~= data@);
    s
}

/// The 32-byte key for `secret`.
fn derive_key(secret: &str) -> (key: Vec<u8>)
    ensures
        key@ == derived_key(secret@),
        key@.len() == 32,
{
    sha256_digest(secret.as_bytes())
}

/// Gzip compression.
#[derive(Debug)]
pub struct Compressor;

/// Sealing and opening of packets under a shared secret.
#[derive(Debug)]
pub struct PacketCipher;

/// Signing with HMAC-SHA256.
#[derive(Debug)]
pub struct AuthSigner;

impl Compressor {
    /// The gzip stream of `data`; compressing into memory always succeeds,
    /// and the stream is never empty.
    pub fn compress(data: &[u8]) -> (r: Result<Vec<u8>>)
        ensures
            r is Ok,
            r matches Ok(v) ==> v@ == gzip(data@) && v@.len() >= 18,
    {
        match gzip_encode(data) {
            Ok(v) => Ok(v),
            Err(GzipFailure::Write(t)) => {
                let m = cat2("Compression failed: ", t.as_str());
                proof {
                    reveal_strlit("Compression failed: ");
                    assert(m@.take("Compression failed: "@.len() as int) =~= "Compression failed: "@);
                }
                Err(Error::Transport(m))
            },
            Err(GzipFailure::Finish(t)) => {
                let m = cat2("Compression finish failed: ", t.as_str());
                proof {
                    assert(m@.take("Compression finish failed: "@.len() as int)
                        =~= "Compression finish failed: "@);
                }
                Err(Error::Transport(m))
            },
        }
    }

    /// The data that the gzip stream `data` holds. A stream that `compress`
    /// gave is read back to the data it was made from.
    pub fn decompress(data: &[u8]) -> (r: Result<Vec<u8>>)
        ensures
            forall|x: Seq<u8>| #[trigger] gzip(x) == data@ ==> (r matches Ok(v) && v@ == x),
            r matches Err(e) ==> (e matches Error::Transport(m) && has_prefix(
                m@,
                "Decompression failed: "@,
            )),
    {
        match gzip_decode(data) {
            Ok(v) => Ok(v),
            Err(t) => {
                let m = cat2("Decompression failed: ", t.as_str());
                proof {
                    assert(m@.take("Decompression failed: "@.len() as int) =~= "Decompression failed: "@);
                }
                Err(Error::Transport(m))
            },
        }
    }
}

/// The error text for an empty secret.
pub open spec fn empty_secret_message() -> Seq<char> {
    "encryption secret cannot be empty"@
}

/// The error text for a packet shorter than its nonce.
pub open spec fn short_packet_message() -> Seq<char> {
    "encrypted payload too short"@
}

/// Seals `data` under `key` with a fresh nonce: the nonce, then the
/// ciphertext.
fn seal_with_key(key: &Vec<u8>, data: &[u8]) -> (r: Result<Vec<u8>>)
    requires
        key@.len() == 32,
    ensures
        r is Ok <==> data@.len() <= AES_GCM_MAX_PLAINTEXT,
        r matches Ok(p) ==> p@.len() == 12 + data@.len() + 16 && p@.skip(12) == aes256gcm_seal(
            key@,
            p@.take(12),
            data@,
        ),
        r matches Err(e) ==> (e matches Error::Transport(m) && m@ == "encrypt failed: aead::Error"@),
{
    let nonce = random_nonce();
    match aes_seal(key.as_slice(), nonce.as_slice(), data) {
        Ok(ct) => {
            let mut out: Vec<u8> = Vec::new();
            let mut head = nonce.clone();
            let mut body = ct;
            out.append(&mut head);
            out.append(&mut body);
            assert(out@.take(12) =~= nonce@);
            assert(out@.skip(12) =~= aes256gcm_seal(key@, nonce@, data@));
            Ok(out)
        },
        Err(t) => {
            let m = cat2("encrypt failed: ", t.as_str());
            proof {
                reveal_strlit("encrypt failed: ");
                reveal_strlit("aead::Error");
                reveal_strlit("encrypt failed: aead::Error");
                assert(m@ =~= "encrypt failed: aead::Error"@);
            }
            Err(Error::Transport(m))
        },
    }
}

/// Opens `packet` under `key`: its first 12 bytes are the nonce.
fn open_with_key(key: &Vec<u8>, packet: &[u8]) -> (r: Result<Vec<u8>>)
    requires
        key@.len() == 32,
        packet@.len() >= 12,
    ensures
        forall|pt: Seq<u8>|
            pt.len() <= AES_GCM_MAX_PLAINTEXT && #[trigger] aes256gcm_seal(key@, packet@.take(12), pt)
                == packet@.skip(12) ==> (r matches Ok(v) && v@ == pt),
        r matches Err(e) ==> (e matches Error::Transport(m) && m@ == "decrypt failed: aead::Error"@),
{
    let nonce = vstd::slice::slice_subrange(packet, 0, 12);
    let body = vstd::slice::slice_subrange(packet, 12, packet.len());
    assert(nonce@ == packet@.take(12));
    assert(body@ == packet@.skip(12));
    match aes_open(key.as_slice(), nonce, body) {
        Ok(v) => Ok(v),
        Err(t) => {
            let m = cat2("decrypt failed: ", t.as_str());
            proof {
                reveal_strlit("decrypt failed: ");
                reveal_strlit("aead::Error");
                reveal_strlit("decrypt failed: aead::Error");
                assert(m@ =~= "decrypt failed: aead::Error"@);
            }
            Err(Error::Transport(m))
        },
    }
}

impl PacketCipher {
    /// Seals `data` under `secret` with a fresh random nonce. Fails on an
    /// empty secret, and on data over the AES-GCM limit.
    pub fn encrypt(data: &[u8], secret: &str) -> (r: Result<Vec<u8>>)
        ensures
            secret@.len() == 0 ==> (r matches Err(e) && e matches Error::Transport(m) && m@
                == empty_secret_message()),
            secret@.len() > 0 ==> (r is Ok <==> data@.len() <= AES_GCM_MAX_PLAINTEXT),
            secret@.len() > 0 && data@.len() > AES_GCM_MAX_PLAINTEXT ==> (r matches Err(e)
                && e matches Error::Transport(m) && m@ == "encrypt failed: aead::Error"@),
            r matches Ok(p) ==> p@.len() == 12 + data@.len() + 16 && sealed_under(
                secret@,
                data@,
                p@,
            ),
            r matches Ok(p) ==> packet_opens(secret@, p@, data@),
    {
        if secret.is_empty() {
            return Err(Error::Transport(String::from_str("encryption secret cannot be empty")));
        }
        let key = derive_key(secret);
        seal_with_key(&key, data)
    }

    /// Opens a packet sealed under `secret`. Fails on an empty secret, on a
    /// packet shorter than its nonce, and when the packet does not open.
    /// A packet that `encrypt` sealed under the same secret opens to the
    /// data it sealed.
    pub fn decrypt(data: &[u8], secret: &str) -> (r: Result<Vec<u8>>)
        ensures
            secret@.len() == 0 ==> (r matches Err(e) && e matches Error::Transport(m) && m@
                == empty_secret_message()),
            secret@.len() > 0 && data@.len() < 12 ==> (r matches Err(e) && e matches Error::Transport(m)
                && m@ == short_packet_message()),
            secret@.len() > 0 ==> forall|pt: Seq<u8>|
                pt.len() <= AES_GCM_MAX_PLAINTEXT && #[trigger] sealed_under(secret@, pt, data@) ==> (
                r matches Ok(v) && v@ == pt),
            r matches Err(e) ==> (e matches Error::Transport(m) && (m@ == empty_secret_message() || m@
                == short_packet_message() || m@ == "decrypt failed: aead::Error"@)),
            forall|pt: Seq<u8>| #[trigger] packet_opens(secret@, data@, pt) ==> (r matches Ok(v) && v@ == pt),
    {
        if secret.is_empty() {
            return Err(Error::Transport(String::from_str("encryption secret cannot be empty")));
        }
        if data.len() < 12 {
            return Err(Error::Transport(String::from_str("encrypted payload too short")));
        }
        let key = derive_key(secret);
        open_with_key(&key, data)
    }
}

impl AuthSigner {
    /// The signature of `message` under `token`: the hex form of
    /// HMAC-SHA256(token, message), 64 characters.
    pub fn sign(token: &str, message: &str) -> (s: String)
        ensures
            s@ == signature_of(token@, message@),
            s@.len() == 64,
    {
        let tag = hmac_sha256_tag(token.as_bytes(), message.as_bytes());
        proof {
            lemma_hex_len(tag@);
        }
        hex_encode(tag.as_slice())
    }

    /// `signature_hex` is the signature of `message` under `token`. The
    /// bytes are compared without stopping at the first difference.
    pub fn verify(token: &str, message: &str, signature_hex: &str) -> (r: bool)
        ensures
            r == (signature_hex@ == signature_of(token@, message@)),
    {
        let expected = Self::sign(token, message);
        let a = expected.as_str().as_bytes();
        let b = signature_hex.as_bytes();
        proof {
            vstd::utf8::encode_utf8_decode_utf8(expected@);
            vstd::utf8::encode_utf8_decode_utf8(signature_hex@);
        }
        if a.len() != b.len() {
            return false;
        }
        let mut diff: u8 = 0;
        let mut i: usize = 0;
        while i < a.len()
            invariant
                i <= a.len() == b.len(),
                (diff == 0) == (forall|k: int| 0 <= k < i ==> a@[k] == b@[k]),
            decreases a.len() - i,
        {
            let x = a[i];
            let y = b[i];
            let d0 = diff;
            diff = diff | (x ^ y);
            assert((d0 | (x ^ y)) == 0 <==> (d0 == 0 && x == y)) by (bit_vector);
            i = i + 1;
        }
        if diff == 0 {
            assert(a@ =~= b@);
        }
        diff == 0
    }
}

/// A packet cipher for one session: the key is derived from the secret once
/// and kept, so that sealing and opening do not hash the secret again.
#[derive(Debug)]
pub struct SessionCipher {
    key: Vec<u8>,
}

impl SessionCipher {
    /// The kept key is a 32-byte AES-256 key.
    #[verifier::type_invariant]
    spec fn key_is_aes256(&self) -> bool {
        self.key@.len() == 32
    }

    /// The secret's key, derived once.
    pub closed spec fn key(&self) -> Seq<u8> {
        self.key@
    }

    /// A cipher for `secret`.
    pub fn new(secret: &str) -> (c: Self)
        ensures
            c.key() == derived_key(secret@),
    {
        SessionCipher { key: derive_key(secret) }
    }

    /// Seals `data` with a fresh random nonce.
    pub fn encrypt(&self, data: &[u8]) -> (r: Result<Vec<u8>>)
        ensures
            r is Ok <==> data@.len() <= AES_GCM_MAX_PLAINTEXT,
            r matches Ok(p) ==> p@.len() == 12 + data@.len() + 16 && p@.skip(12) == aes256gcm_seal(
                self.key(),
                p@.take(12),
                data@,
            ),
            r matches Err(e) ==> (e matches Error::Transport(m) && m@ == "encrypt failed: aead::Error"@),
    {
        proof {
            use_type_invariant(self);
        }
        seal_with_key(&self.key, data)
    }

    /// Opens a packet; its first 12 bytes are the nonce.
    pub fn decrypt(&self, data: &[u8]) -> (r: Result<Vec<u8>>)
        ensures
            data@.len() < 12 ==> (r matches Err(e) && e matches Error::Transport(m) && m@
                == short_packet_message()),
            data@.len() >= 12 ==> forall|pt: Seq<u8>|
                pt.len() <= AES_GCM_MAX_PLAINTEXT && #[trigger] aes256gcm_seal(
                    self.key(),
                    data@.take(12),
                    pt,
                ) == data@.skip(12) ==> (r matches Ok(v) && v@ == pt),
            r matches Err(e) ==> (e matches Error::Transport(m) && (m@ == short_packet_message() || m@
                == "decrypt failed: aead::Error"@)),
    {
        proof {
            use_type_invariant(self);
        }
        if data.len() < 12 {
            return Err(Error::Transport(String::from_str("encrypted payload too short")));
        }
        open_with_key(&self.key, data)
    }
}

/// Law: a packet that `PacketCipher::encrypt` made from `data` under
/// `secret` (its result being nonce, ciphertext and tag, sealed under the
/// secret, for a set secret and data within the limit) opens under the same
/// secret to `data`, which `PacketCipher::decrypt` then gives back.
pub proof fn law_packet_roundtrip(secret: Seq<char>, data: Seq<u8>, packet: Seq<u8>)
    requires
        secret.len() > 0,
        data.len() <= AES_GCM_MAX_PLAINTEXT,
        packet.len() == 12 + data.len() + 16,
        sealed_under(secret, data, packet),
    ensures
        packet_opens(secret, packet, data),
{
}

/// Law: what a session cipher made for `secret` seals is sealed under
/// `secret`, so `PacketCipher::decrypt` with the same secret opens it.
pub proof fn law_session_packets_open_with_secret(
    c: SessionCipher,
    secret: Seq<char>,
    data: Seq<u8>,
    packet: Seq<u8>,
)
    requires
        c.key() == derived_key(secret),
        packet.len() >= 12,
        packet.skip(12) == aes256gcm_seal(c.key(), packet.take(12), data),
    ensures
        sealed_under(secret, data, packet),
{
}

} // verus!
