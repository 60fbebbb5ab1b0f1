//! Encodings the elective system uses: Base64 (RFC 4648, standard alphabet,
//! canonical padding), the AES password envelope of the login form, and the
//! captcha image carried as a data URL.
use vstd::prelude::*;
use base64::Engine;
use cipher::{BlockEncryptMut, KeyInit};
use crate::failure::{simple_failure, Failure, FailureKind};
use crate::text::{chars_of, decimal_of_u128, int_decimal, owned, string_of};

verus! {

// ---------------------------------------------------------------------------
// Base64
// ---------------------------------------------------------------------------

/// The character for a six-bit group in the standard alphabet.
pub open spec fn b64_char(i: int) -> char {
    if i < 26 {
        (i + 'A' as int) as char
    } else if i < 52 {
        (i - 26 + 'a' as int) as char
    } else if i < 62 {
        (i - 52 + '0' as int) as char
    } else if i == 62 {
        '+'
    } else {
        '/'
    }
}

/// The standard Base64 text of `data`, padded with `=` to whole quads.
pub open spec fn base64_spec(data: Seq<u8>) -> Seq<char>
    decreases data.len(),
{
    if data.len() == 0 {
        Seq::empty()
    } else if data.len() == 1 {
        let b0 = data[0] as int;
        seq![b64_char(b0 / 4), b64_char((b0 % 4) * 16), '=', '=']
    } else if data.len() == 2 {
        let b0 = data[0] as int;
        let b1 = data[1] as int;
        seq![b64_char(b0 / 4), b64_char((b0 % 4) * 16 + b1 / 16), b64_char((b1 % 16) * 4), '=']
    } else {
        let b0 = data[0] as int;
        let b1 = data[1] as int;
        let b2 = data[2] as int;
        seq![b64_char(b0 / 4), b64_char((b0 % 4) * 16 + b1 / 16), b64_char((b1 % 16) * 4 + b2 / 64), b64_char(b2 % 64)]
            + base64_spec(data.subrange(3, data.len() as int))
    }
}

/// Wraps `base64::Engine::encode` of the `STANDARD` engine: the padded
/// standard-alphabet text of `data`.
#[verifier::external_body]
fn base64_encode(data: &[u8]) -> (r: String)
    ensures
        r@ == base64_spec(data@),
{
    base64::engine::general_purpose::STANDARD.encode(data)
}

/// Wraps `base64::Engine::decode` of the `STANDARD` engine, which accepts
/// exactly the canonical padded encodings: it gives the bytes whose encoding
/// is `text`, and fails where no bytes encode to `text`. The error's text is
/// the crate's own description.
#[verifier::external_body]
fn base64_decode(text: &str) -> (r: Result<Vec<u8>, String>)
    ensures
        match r {
            Ok(v) => base64_spec(v@) == text@,
            Err(_) => forall|v: Seq<u8>| base64_spec(v) != text@,
        },
{
    match base64::engine::general_purpose::STANDARD.decode(text.as_bytes()) {
        Ok(v) => Ok(v),
        Err(e) => Err(e.to_string()),
    }
}

/// The padded standard Base64 text of `data`.
pub fn encode_base64(data: &[u8]) -> (r: String)
    ensures
        r@ == base64_spec(data@),
{
    base64_encode(data)
}

// ---------------------------------------------------------------------------
// The password envelope
// ---------------------------------------------------------------------------

/// The number of bytes of `c` in UTF-8.
pub open spec fn utf8_char_len(c: char) -> nat {
    if (c as u32) < 0x80 { 1 } else if (c as u32) < 0x800 { 2 } else if (c as u32) < 0x10000 { 3 } else { 4 }
}

/// The number of bytes of `s` in UTF-8 (what `str::len` returns).
pub open spec fn utf8_len(s: Seq<char>) -> nat
    decreases s.len(),
{
    if s.len() == 0 { 0 } else { utf8_len(s.drop_last()) + utf8_char_len(s.last()) }
}

/// AES-128 in ECB mode with PKCS#7 padding, over the UTF-8 bytes of the
/// key and of the plaintext.
pub uninterp spec fn aes128_ecb_pkcs7(key: Seq<char>, plaintext: Seq<char>) -> Seq<u8>;

/// Wraps `ecb::Encryptor::<aes::Aes128>::new_from_slice` and
/// `encrypt_padded_vec_mut::<Pkcs7>`: the ciphertext, whose length is the
/// plaintext's rounded up past the next multiple of 16 (PKCS#7 always pads).
#[verifier::external_body]
fn aes128_ecb_encrypt(key: &str, plaintext: &str) -> (r: Vec<u8>)
    requires
        utf8_len(key@) == 16,
    ensures
        r@ == aes128_ecb_pkcs7(key@, plaintext@),
        r@.len() == (utf8_len(plaintext@) / 16 + 1) * 16,
{
    match ecb::Encryptor::<aes::Aes128>::new_from_slice(key.as_bytes()) {
        Ok(enc) => enc.encrypt_padded_vec_mut::<cipher::block_padding::Pkcs7>(plaintext.as_bytes()),
        Err(_) => Vec::new(),
    }
}

fn byte_len(s: &str) -> (r: u128)
    ensures
        r == utf8_len(s@),
{
    let v = chars_of(s);
    let mut n: u128 = 0;
    let mut i: usize = 0;
    while i < v.len()
        invariant
            i <= v.len(),
            v@ == s@,
            n == utf8_len(v@.take(i as int)),
            n <= 4 * i,
        decreases v.len() - i,
    {
        assert(v@.take(i + 1).drop_last() == v@.take(i as int));
        let c = v[i] as u32;
        let w: u128 = if c < 0x80 { 1 } else if c < 0x800 { 2 } else if c < 0x10000 { 3 } else { 4 };
        n = n + w;
        i += 1;
    }
    assert(v@.take(v.len() as int) == v@);
    n
}

/// The message when the page offers a key of the wrong size.
pub open spec fn key_length_message(len: nat) -> Seq<char> {
    "AES 密钥长度异常："@ + int_decimal(len as int) + "，预期 16"@
}

/// The login form's password: Base64 of the AES envelope under `key`; an
/// error where the key is not 16 bytes long.
pub fn encrypt_password(password: &str, key: &str) -> (r: Result<String, Failure>)
    ensures
        match r {
            Ok(s) => utf8_len(key@) == 16 && s@ == base64_spec(aes128_ecb_pkcs7(key@, password@)),
            Err(e) => utf8_len(key@) != 16 && e@ == simple_failure(FailureKind::Other, key_length_message(utf8_len(key@))),
        },
{
    let len = byte_len(key);
    if len != 16 {
        let mut text = owned("AES 密钥长度异常：");
        let count = decimal_of_u128(len);
        crate::text::append_str(&mut text, count.as_str());
        crate::text::append_str(&mut text, "，预期 16");
        return Err(Failure::of_kind(FailureKind::Other, text));
    }
    let encrypted = aes128_ecb_encrypt(key, password);
    Ok(base64_encode(encrypted.as_slice()))
}

// ---------------------------------------------------------------------------
// Captcha images and answers
// ---------------------------------------------------------------------------

/// The part of a data URL after its first comma; the whole text where
/// there is none.
pub open spec fn data_url_payload(s: Seq<char>) -> Seq<char> {
    if exists|i: int| 0 <= i < s.len() && s[i] == ',' {
        let i = choose|i: int| 0 <= i < s.len() && s[i] == ',' && forall|j: int| 0 <= j < i ==> s[j] != ',';
        s.subrange(i + 1, s.len() as int)
    } else {
        s
    }
}

pub open spec fn invalid_image_message() -> Seq<char> {
    "验证码图片不是有效的 Base64"@
}

/// The image bytes of a captcha data URL: the Base64 after the first comma.
pub fn decode_data_url(data_url: &str) -> (r: Result<Vec<u8>, Failure>)
    ensures
        match r {
            Ok(v) => base64_spec(v@) == data_url_payload(data_url@),
            Err(e) => (forall|v: Seq<u8>| base64_spec(v) != data_url_payload(data_url@))
                && e@.kind == FailureKind::Other
                && e@.messages.len() == 2
                && e@.messages[0] == invalid_image_message(),
        },
{
    let v = chars_of(data_url);
    let mut i: usize = 0;
    while i < v.len() && v[i] != ','
        invariant
            i <= v.len(),
            v@ == data_url@,
            forall|j: int| 0 <= j < i ==> v@[j] != ',',
        decreases v.len() - i,
    {
        i += 1;
    }
    let payload: String = if i < v.len() {
        let mut rest: Vec<char> = Vec::new();
        let mut k: usize = i + 1;
        while k < v.len()
            invariant
                i + 1 <= k <= v.len(),
                rest@ == v@.subrange(i + 1, k as int),
            decreases v.len() - k,
        {
            rest.push(v[k]);
            assert(v@.subrange(i + 1, k + 1) == v@.subrange(i + 1, k as int).push(v@[k as int]));
            k += 1;
        }
        proof {
            let s = data_url@;
            assert(s[i as int] == ',');
            let c = choose|c: int| 0 <= c < s.len() && s[c] == ',' && forall|j: int| 0 <= j < c ==> s[j] != ',';
            assert(c == i) by {
                if c < i {
                    assert(s[c] != ',');
                } else if c > i {
                    assert(s[i as int] != ',');
                }
            }
        }
        string_of(rest.as_slice())
    } else {
        string_of(v.as_slice())
    };
    match base64_decode(payload.as_str()) {
        Ok(bytes) => Ok(bytes),
        Err(detail) => Err(Failure::of_kind(FailureKind::Other, detail).context(owned("验证码图片不是有效的 Base64"))),
    }
}

pub open spec fn is_ascii_alnum(c: char) -> bool {
    ('0' <= c <= '9') || ('a' <= c <= 'z') || ('A' <= c <= 'Z')
}

/// The ASCII letters and digits of `s`, in order.
pub open spec fn alnum_only(s: Seq<char>) -> Seq<char>
    decreases s.len(),
{
    if s.len() == 0 {
        s
    } else if is_ascii_alnum(s.last()) {
        alnum_only(s.drop_last()).push(s.last())
    } else {
        alnum_only(s.drop_last())
    }
}

/// At most the first eight characters of `s`.
pub open spec fn first_eight(s: Seq<char>) -> Seq<char> {
    if s.len() <= 8 { s } else { s.take(8) }
}

pub open spec fn no_answer_message() -> Seq<char> {
    "Rust ddddocr 未识别出验证码"@
}

/// The captcha answer from what the recogniser read: its ASCII letters and
/// digits, at most eight; an error where there are none.
pub fn captcha_answer(raw: &str) -> (r: Result<String, Failure>)
    ensures
        match r {
            Ok(s) => alnum_only(raw@).len() > 0 && s@ == first_eight(alnum_only(raw@)),
            Err(e) => alnum_only(raw@).len() == 0 && e@ == simple_failure(FailureKind::Other, no_answer_message()),
        },
{
    let v = chars_of(raw);
    let mut kept: Vec<char> = Vec::new();
    let mut i: usize = 0;
    while i < v.len()
        invariant
            i <= v.len(),
            v@ == raw@,
            kept@ == alnum_only(v@.take(i as int)),
        decreases v.len() - i,
    {
        assert(v@.take(i + 1).drop_last() == v@.take(i as int));
        let c = v[i];
        if ('0' <= c && c <= '9') || ('a' <= c && c <= 'z') || ('A' <= c && c <= 'Z') {
            kept.push(c);
        }
        i += 1;
    }
    assert(v@.take(v.len() as int) == v@);
    if kept.len() == 0 {
        return Err(Failure::msg("Rust ddddocr 未识别出验证码"));
    }
    let mut answer: Vec<char> = Vec::new();
    let mut k: usize = 0;
    while k < kept.len() && k < 8
        invariant
            k <= kept.len(),
            k <= 8,
            answer@ == kept@.take(k as int),
        decreases kept.len() - k,
    {
        answer.push(kept[k]);
        assert(kept@.take(k + 1) == kept@.take(k as int).push(kept@[k as int]));
        k += 1;
    }
    assert(answer@ == first_eight(kept@)) by {
        if kept.len() <= 8 {
            assert(kept@.take(k as int) == kept@);
        }
    }
    Ok(string_of(answer.as_slice()))
}

} // verus!
