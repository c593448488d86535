use vstd::prelude::*;
use vstd::string::StringSliceAdditionalSpecFns;
use vstd::string::StrSliceExecFns;
use crate::security::input::{chars_of, push_char, append_str};

verus! {

broadcast use vstd::string::group_string_axioms;

/// Seconds for which a CAPTCHA token stays valid.
pub const CAPTCHA_EXPIRY: u64 = 300;

/// What `base64`'s URL-safe, unpadded engine encodes `data` to.
pub uninterp spec fn base64url_encode(data: Seq<u8>) -> Seq<char>;

/// What `base64`'s URL-safe, unpadded engine decodes `text` to, `None` when
/// it is not valid URL-safe unpadded base64.
pub uninterp spec fn base64url_decode(text: Seq<char>) -> Option<Seq<u8>>;

/// `base64::Engine::encode` with `URL_SAFE_NO_PAD`. Decoding its output gives
/// the input back.
#[verifier::external_body]
fn base64url_encode_bytes(data: &[u8]) -> (res: String)
    ensures
        res@ == base64url_encode(data@),
        base64url_decode(res@) == Some(data@),
{
    base64::Engine::encode(&base64::engine::general_purpose::URL_SAFE_NO_PAD, data)
}

/// `base64::Engine::decode` with `URL_SAFE_NO_PAD`; `None` on a decode error.
#[verifier::external_body]
fn base64url_decode_text(text: &str) -> (res: Option<Vec<u8>>)
    ensures
        match res {
            Some(v) => base64url_decode(text@) == Some(v@),
            None => base64url_decode(text@) is None,
        },
{
    match base64::Engine::decode(&base64::engine::general_purpose::URL_SAFE_NO_PAD, text) {
        Ok(v) => Some(v),
        Err(_) => None,
    }
}

/// What AES-256-GCM (`aes_gcm::Aes256Gcm` keyed by `key`) encrypts `plaintext`
/// to under `nonce`, with the tag appended; `None` when it refuses.
pub uninterp spec fn aes256gcm_encrypt(key: Seq<u8>, nonce: Seq<u8>, plaintext: Seq<u8>) -> Option<Seq<u8>>;

/// What AES-256-GCM keyed by `key` decrypts `ciphertext` to under `nonce`;
/// `None` when authentication fails.
pub uninterp spec fn aes256gcm_decrypt(key: Seq<u8>, nonce: Seq<u8>, ciphertext: Seq<u8>) -> Option<Seq<u8>>;

/// `Aes256Gcm::new_from_slice(key)` then `Aead::encrypt`. For a 32-byte key
/// it refuses only plaintexts over 2^36 bytes, and what it produces decrypts
/// to the plaintext under the same key and nonce.
#[verifier::external_body]
fn aes_encrypt(key: &[u8], nonce: &[u8], plaintext: &[u8]) -> (res: Option<Vec<u8>>)
    requires
        nonce@.len() == 12,
    ensures
        match res {
            Some(c) => aes256gcm_encrypt(key@, nonce@, plaintext@) == Some(c@),
            None => aes256gcm_encrypt(key@, nonce@, plaintext@) is None,
        },
        key@.len() == 32 && plaintext@.len() <= 0x10_0000_0000 ==> res is Some,
        res matches Some(c) ==> aes256gcm_decrypt(key@, nonce@, c@) == Some(plaintext@),
{
    match <aes_gcm::Aes256Gcm as aes_gcm::KeyInit>::new_from_slice(key) {
        Ok(cipher) => aes_gcm::aead::Aead::encrypt(&cipher, aes_gcm::Nonce::from_slice(nonce), plaintext).ok(),
        Err(_) => None,
    }
}

/// `Aes256Gcm::new_from_slice(key)` then `Aead::decrypt`; `None` when the
/// key is refused or authentication fails.
#[verifier::external_body]
fn aes_decrypt(key: &[u8], nonce: &[u8], ciphertext: &[u8]) -> (res: Option<Vec<u8>>)
    requires
        nonce@.len() == 12,
    ensures
        match res {
            Some(p) => aes256gcm_decrypt(key@, nonce@, ciphertext@) == Some(p@),
            None => aes256gcm_decrypt(key@, nonce@, ciphertext@) is None,
        },
{
    match <aes_gcm::Aes256Gcm as aes_gcm::KeyInit>::new_from_slice(key) {
        Ok(cipher) => aes_gcm::aead::Aead::decrypt(&cipher, aes_gcm::Nonce::from_slice(nonce), ciphertext).ok(),
        Err(_) => None,
    }
}

/// `serde_json::to_vec` of the object `{k1: v1, k2: v2}` (a string field, then
/// an unsigned number field).
pub uninterp spec fn json_object_bytes(k1: Seq<char>, v1: Seq<char>, k2: Seq<char>, v2: u64) -> Seq<u8>;

/// `serde_json::from_slice` of `bytes` as a JSON value, read as an object with a
/// string field `k1` and an unsigned number field `k2`; `None` when it is not.
pub uninterp spec fn json_read_fields(bytes: Seq<u8>, k1: Seq<char>, k2: Seq<char>) -> Option<(Seq<char>, u64)>;

/// Serializes `{k1: v1, k2: v2}` with `serde_json::to_vec`. Reading the two
/// fields of its output gives them back. Its output is compact: braces, a
/// colon after each key, a comma, six quotes, at most 20 digits, and each
/// character of the strings in at most 6 bytes (4 of UTF-8, or an escape of
/// at most 6).
#[verifier::external_body]
fn json_object_to_bytes(k1: &str, v1: &str, k2: &str, v2: u64) -> (res: Vec<u8>)
    ensures
        res@ == json_object_bytes(k1@, v1@, k2@, v2),
        k1@ != k2@ ==> json_read_fields(res@, k1@, k2@) == Some((v1@, v2)),
        res@.len() <= 6 * (k1@.len() + v1@.len() + k2@.len()) + 31,
{
    let mut object = serde_json::Map::new();
    object.insert(k1.to_string(), serde_json::Value::String(v1.to_string()));
    object.insert(k2.to_string(), serde_json::Value::from(v2));
    serde_json::to_vec(&serde_json::Value::Object(object)).unwrap_or_default()
}

/// Parses `bytes` with `serde_json::from_slice` and reads the string field
/// `k1` and the unsigned number field `k2`.
#[verifier::external_body]
fn json_fields_from_bytes(bytes: &[u8], k1: &str, k2: &str) -> (res: Option<(String, u64)>)
    ensures
        match res {
            Some((a, b)) => json_read_fields(bytes@, k1@, k2@) == Some((a@, b)),
            None => json_read_fields(bytes@, k1@, k2@) is None,
        },
{
    match serde_json::from_slice::<serde_json::Value>(bytes) {
        Ok(value) => match (value.get(k1).and_then(|v| v.as_str()), value.get(k2).and_then(|v| v.as_u64())) {
            (Some(a), Some(b)) => Some((a.to_string(), b)),
            _ => None,
        },
        Err(_) => None,
    }
}

/// What `str::to_uppercase` maps `s` to.
pub uninterp spec fn unicode_uppercase(s: Seq<char>) -> Seq<char>;

/// `s` with the ASCII letters a-z made uppercase.
pub open spec fn ascii_uppercase(s: Seq<char>) -> Seq<char> {
    Seq::new(
        s.len(),
        |i: int|
            if 'a' <= s[i] && s[i] <= 'z' {
                ((s[i] as u32) - 32) as char
            } else {
                s[i]
            },
    )
}

/// `str::to_uppercase`. On ASCII text it only turns a-z into A-Z.
#[verifier::external_body]
fn to_uppercase(s: &str) -> (res: String)
    ensures
        res@ == unicode_uppercase(s@),
        (forall|i: int| 0 <= i < s@.len() ==> (#[trigger] s@[i] as u32) < 128) ==> res@ == ascii_uppercase(s@),
{
    s.to_uppercase()
}

/// `rand::Rng::gen_range(0..n)` on the thread's generator: some index below `n`.
#[verifier::external_body]
fn random_index(n: usize) -> (i: usize)
    requires
        n > 0,
    ensures
        i < n,
{
    rand::Rng::gen_range(&mut rand::thread_rng(), 0..n)
}

/// `AeadCore::generate_nonce` for AES-256-GCM from the operating system's
/// generator: 12 random bytes.
#[verifier::external_body]
fn random_nonce() -> (nonce: Vec<u8>)
    ensures
        nonce@.len() == 12,
{
    <aes_gcm::Aes256Gcm as aes_gcm::AeadCore>::generate_nonce(&mut rand::rngs::OsRng).to_vec()
}

/// The characters CAPTCHA answers are drawn from: letters and digits that
/// cannot be mistaken for one another.
pub open spec fn captcha_alphabet() -> Seq<char> {
    "ABCDEFGHJKLMNPQRSTUVWXYZ23456789"@
}

/// The SVG that shows `answer`.
pub open spec fn captcha_svg(answer: Seq<char>) -> Seq<char> {
    SVG_PREFIX@ + answer + SVG_SUFFIX@
}

/// The text of a CAPTCHA image before the answer.
pub const SVG_PREFIX: &'static str = "<svg width=\"200\" height=\"80\" xmlns=\"http://www.w3.org/2000/svg\" style=\"background:#f0f0f0; border-radius:4px;\">\n            <text x=\"50%\" y=\"50%\" dominant-baseline=\"middle\" text-anchor=\"middle\" font-family=\"monospace\" font-size=\"30\" fill=\"red\" letter-spacing=\"5\">";

/// The text of a CAPTCHA image after the answer.
pub const SVG_SUFFIX: &'static str = "</text>\n            <line x1=\"0\" y1=\"0\" x2=\"200\" y2=\"80\" stroke=\"black\" stroke-opacity=\"0.1\" stroke-width=\"2\"/>\n            <line x1=\"200\" y1=\"0\" x2=\"0\" y2=\"80\" stroke=\"black\" stroke-opacity=\"0.1\" stroke-width=\"2\"/>\n           </svg>";

/// The key derived from a secret: its first 32 bytes, zero-padded to 32.
pub open spec fn derive_key(secret: Seq<u8>) -> Seq<u8> {
    Seq::new(32, |i: int| if i < secret.len() { secret[i] } else { 0u8 })
}

/// Whether `token` is a CAPTCHA token, sealed under `key`, that `answer`
/// solves at time `now` (seconds since the Unix epoch): it decodes, holds a
/// 12-byte nonce and a ciphertext that opens, carries the expected answer and
/// an expiry not before `now`, and the expected answer is `answer` in
/// uppercase.
pub open spec fn spec_token_accepts(key: Seq<u8>, token: Seq<char>, answer: Seq<char>, now: u64) -> bool {
    match base64url_decode(token) {
        None => false,
        Some(data) => data.len() >= 12 && match aes256gcm_decrypt(key, data.take(12), data.skip(12)) {
            None => false,
            Some(plain) => match json_read_fields(plain, "answer"@, "exp"@) {
                None => false,
                Some((expected, exp)) => now <= exp && expected == unicode_uppercase(answer),
            },
        },
    }
}

/// The token that seals `answer`, expiring at `exp`, under `key` and `nonce`:
/// the nonce followed by the ciphertext, in URL-safe base64.
pub open spec fn spec_sealed_token(key: Seq<u8>, nonce: Seq<u8>, answer: Seq<char>, exp: u64) -> Option<Seq<char>> {
    match aes256gcm_encrypt(key, nonce, json_object_bytes("answer"@, answer, "exp"@, exp)) {
        Some(c) => Some(base64url_encode(nonce + c)),
        None => None,
    }
}

/// A freshly issued CAPTCHA: the image, the sealed token and the colour to read.
pub struct CaptchaResponse {
    pub svg: String,
    pub token: String,
    pub target_color: String,
}

/// A stateless CAPTCHA service: the answer travels inside the token, sealed
/// with AES-256-GCM under a key derived from the server secret.
pub struct CaptchaService {
    key: Vec<u8>,
}

fn copy_bytes(src: &Vec<u8>, from: usize, to: usize) -> (out: Vec<u8>)
    requires
        from <= to <= src.len(),
    ensures
        out@ == src@.subrange(from as int, to as int),
{
    let mut out: Vec<u8> = Vec::new();
    let mut i = from;
    while i < to
        invariant
            from <= i <= to <= src.len(),
            out@ == src@.subrange(from as int, i as int),
        decreases to - i,
    {
        out.push(src[i]);
        i = i + 1;
        assert(out@ =~= src@.subrange(from as int, i as int));
    }
    out
}

impl CaptchaService {
    /// The service always holds an AES-256 key: 32 bytes.
    #[verifier::type_invariant]
    spec fn key_is_aes256(self) -> bool {
        self.key@.len() == 32
    }

    /// The key the service seals tokens with.
    pub closed spec fn key(&self) -> Seq<u8> {
        self.key@
    }

    /// A service keyed by `secret`: its first 32 bytes, zero-padded.
    pub fn new(secret: &str) -> (s: CaptchaService)
        ensures
            s.key() == derive_key(secret.spec_bytes()),
    {
        let bytes = secret.as_bytes();
        let mut key: Vec<u8> = Vec::new();
        let mut i: usize = 0;
        while i < 32
            invariant
                bytes@ == secret.spec_bytes(),
                0 <= i <= 32,
                key@ == derive_key(secret.spec_bytes()).take(i as int),
            decreases 32 - i,
        {
            if i < bytes.len() {
                key.push(bytes[i]);
            } else {
                key.push(0u8);
            }
            i = i + 1;
            assert(key@ =~= derive_key(secret.spec_bytes()).take(i as int));
        }
        assert(derive_key(secret.spec_bytes()).take(32) =~= derive_key(secret.spec_bytes()));
        CaptchaService { key }
    }

    /// Whether `answer` solves the CAPTCHA sealed in `token` at time `now`
    /// (seconds since the Unix epoch): the token must open under this
    /// service's key, must not have expired, and its answer must equal
    /// `answer` in uppercase.
    pub fn verify_token(&self, token: &str, answer: &str, now: u64) -> (ok: bool)
        ensures
            ok == spec_token_accepts(self.key(), token@, answer@, now),
    {
        let data = match base64url_decode_text(token) {
            Some(d) => d,
            None => return false,
        };
        if data.len() < 12 {
            return false;
        }
        let nonce = copy_bytes(&data, 0, 12);
        let ciphertext = copy_bytes(&data, 12, data.len());
        assert(nonce@ =~= data@.take(12));
        assert(ciphertext@ =~= data@.skip(12));
        let plaintext = match aes_decrypt(self.key.as_slice(), nonce.as_slice(), ciphertext.as_slice()) {
            Some(p) => p,
            None => return false,
        };
        let (expected, exp) = match json_fields_from_bytes(plaintext.as_slice(), "answer", "exp") {
            Some(fields) => fields,
            None => return false,
        };
        if now > exp {
            return false;
        }
        expected == to_uppercase(answer)
    }

    /// Issues a CAPTCHA for `answer` at time `now`, sealed under `nonce`: the
    /// image shows the answer, and the token is accepted exactly for answers
    /// whose uppercase is `answer`, until `now + CAPTCHA_EXPIRY`. `None` when
    /// encryption refuses the payload.
    pub fn issue_captcha(&self, answer: &str, now: u64, nonce: &Vec<u8>) -> (res: Option<CaptchaResponse>)
        requires
            nonce@.len() == 12,
            now <= u64::MAX - CAPTCHA_EXPIRY,
        ensures
            match res {
                Some(r) => {
                    &&& Some(r.token@) == spec_sealed_token(self.key(), nonce@, answer@, (now + CAPTCHA_EXPIRY) as u64)
                    &&& r.svg@ == captcha_svg(answer@)
                    &&& r.target_color@ == "RED"@
                    &&& forall|a: Seq<char>, t: u64|
                        spec_token_accepts(self.key(), r.token@, a, t) == (t <= now + CAPTCHA_EXPIRY
                            && answer@ == unicode_uppercase(a))
                },
                None => spec_sealed_token(self.key(), nonce@, answer@, (now + CAPTCHA_EXPIRY) as u64) is None,
            },
            answer@.len() <= 0x1000_0000 ==> res is Some,
    {
        proof {
            use_type_invariant(self);
        }
        let exp = now + CAPTCHA_EXPIRY;
        let payload = json_object_to_bytes("answer", answer, "exp", exp);
        proof {
            reveal_strlit("answer");
            reveal_strlit("exp");
            assert("answer"@ != "exp"@) by {
                assert("answer"@.len() != "exp"@.len());
            }
        }
        let ciphertext = match aes_encrypt(self.key.as_slice(), nonce.as_slice(), payload.as_slice()) {
            Some(c) => c,
            None => return None,
        };
        let mut framed: Vec<u8> = copy_bytes(nonce, 0, 12);
        let mut i: usize = 0;
        assert(nonce@.subrange(0, 12) =~= nonce@);
        while i < ciphertext.len()
            invariant
                0 <= i <= ciphertext.len(),
                framed@ == nonce@ + ciphertext@.take(i as int),
            decreases ciphertext.len() - i,
        {
            framed.push(ciphertext[i]);
            i = i + 1;
            assert(framed@ =~= nonce@ + ciphertext@.take(i as int));
        }
        assert(ciphertext@.take(ciphertext.len() as int) =~= ciphertext@);
        let token = base64url_encode_bytes(framed.as_slice());
        proof {
            let data = framed@;
            assert(data.take(12) =~= nonce@);
            assert(data.skip(12) =~= ciphertext@);
        }
        let mut svg = String::new();
        append_str(&mut svg, SVG_PREFIX);
        append_str(&mut svg, answer);
        append_str(&mut svg, SVG_SUFFIX);
        Some(CaptchaResponse { svg, token, target_color: "RED".to_string() })
    }

    /// Generates a CAPTCHA at time `now`: five characters drawn at random from
    /// the CAPTCHA alphabet, shown in the image, to be read in red, and sealed
    /// with their expiry under a random 12-byte nonce.
    pub fn generate_captcha(&self, now: u64) -> (res: Option<CaptchaResponse>)
        requires
            now <= u64::MAX - CAPTCHA_EXPIRY,
        ensures
            res is Some,
            res matches Some(r) ==> exists|answer: Seq<char>|
                {
                    &&& answer.len() == 5
                    &&& forall|i: int| 0 <= i < 5 ==> captcha_alphabet().contains(#[trigger] answer[i])
                    &&& r.svg@ == captcha_svg(answer)
                    &&& r.target_color@ == "RED"@
                    &&& exists|nonce: Seq<u8>|
                        nonce.len() == 12 && Some(r.token@) == #[trigger] spec_sealed_token(
                            self.key(),
                            nonce,
                            answer,
                            (now + CAPTCHA_EXPIRY) as u64,
                        )
                    &&& forall|a: Seq<char>, t: u64|
                        spec_token_accepts(self.key(), r.token@, a, t) == (t <= now + CAPTCHA_EXPIRY
                            && answer == unicode_uppercase(a))
                },
    {
        let alphabet = "ABCDEFGHJKLMNPQRSTUVWXYZ23456789";
        proof {
            reveal_strlit("ABCDEFGHJKLMNPQRSTUVWXYZ23456789");
        }
        let mut answer = String::new();
        let mut k: usize = 0;
        while k < 5
            invariant
                alphabet@ == captcha_alphabet(),
                alphabet@.len() == 32,
                0 <= k <= 5,
                answer@.len() == k,
                forall|i: int| 0 <= i < k ==> captcha_alphabet().contains(#[trigger] answer@[i]),
            decreases 5 - k,
        {
            let idx = random_index(32);
            let c = alphabet.get_char(idx);
            let ghost before = answer@;
            push_char(&mut answer, c);
            proof {
                assert(captcha_alphabet()[idx as int] == c);
                assert forall|i: int| 0 <= i < k + 1 implies captcha_alphabet().contains(#[trigger] answer@[i]) by {
                    if i < k {
                        assert(answer@[i] == before[i]);
                    } else {
                        assert(answer@[i] == c);
                    }
                }
            }
            k = k + 1;
        }
        let nonce = random_nonce();
        let res = self.issue_captcha(answer.as_str(), now, &nonce);
        proof {
            if let Some(r) = &res {
                assert(nonce@.len() == 12 && Some(r.token@) == spec_sealed_token(
                    self.key(),
                    nonce@,
                    answer@,
                    (now + CAPTCHA_EXPIRY) as u64,
                ));
            }
        }
        res
    }
}

} // verus!
