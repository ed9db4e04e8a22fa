//! Identifiers, keys and checksums.
use crate::client::CursorClient;
use sha2::{Digest, Sha256};
use uuid::Uuid;
use vstd::prelude::*;
use vstd::string::*;
use vstd::utf8::*;

verus! {

/// The SHA-256 digest of `data`.
pub uninterp spec fn sha256_digest(data: Seq<u8>) -> Seq<u8>;

/// Runs `sha2::Sha256` over `data`. Taken on trust: the digest depends on `data` alone
/// and is 32 bytes long.
#[verifier::external_body]
fn sha256(data: &[u8]) -> (digest: Vec<u8>)
    ensures
        digest@ == sha256_digest(data@),
        digest@.len() == 32,
{
    let mut hasher = Sha256::new();
    hasher.update(data);
    hasher.finalize().to_vec()
}

/// Whether `c` is a lower-case hexadecimal digit.
pub open spec fn is_hex_digit(c: char) -> bool {
    ('0' <= c && c <= '9') || ('a' <= c && c <= 'f')
}

/// Whether `s` is a random UUID as text: 32 lower-case hexadecimal digits in groups of
/// 8, 4, 4, 4 and 12 with hyphens between, the version digit 4, and the variant digit
/// one of 8, 9, a and b.
pub open spec fn is_random_uuid(s: Seq<char>) -> bool {
    &&& s.len() == 36
    &&& s[8] == '-' && s[13] == '-' && s[18] == '-' && s[23] == '-'
    &&& s[14] == '4'
    &&& s[19] == '8' || s[19] == '9' || s[19] == 'a' || s[19] == 'b'
    &&& forall|i: int|
        0 <= i < 36 && i != 8 && i != 13 && i != 18 && i != 23 ==> is_hex_digit(#[trigger] s[i])
}

/// `uuid::Uuid::new_v4` as text. Taken on trust: the form of the text. Which of the
/// texts of that form comes out is left to the system's source of random numbers; where
/// the system has none to give, the call panics.
#[verifier::external_body]
pub(crate) fn random_uuid() -> (text: String)
    ensures
        is_random_uuid(text@),
{
    Uuid::new_v4().to_string()
}

/// The offset from UTC, in seconds, as text: `+hh:mm`, with `:ss` where the seconds
/// are not zero.
pub open spec fn utc_offset_text(offset: int) -> Seq<char> {
    let size = if offset < 0 {
        -offset
    } else {
        offset
    };
    let sign = if offset < 0 {
        '-'
    } else {
        '+'
    };
    let minutes = seq![sign] + two_digits(size / 3600) + seq![':'] + two_digits(size / 60 % 60);
    if size % 60 == 0 {
        minutes
    } else {
        minutes + seq![':'] + two_digits(size % 60)
    }
}

/// A number below 100 in two decimal digits.
pub open spec fn two_digits(n: int) -> Seq<char> {
    seq![(0x30 + n / 10) as char, (0x30 + n % 10) as char]
}

/// Whether `s` is the text of an offset of less than a day.
pub open spec fn is_utc_offset_text(s: Seq<char>) -> bool {
    exists|offset: int| -86_400 < offset < 86_400 && s == #[trigger] utc_offset_text(offset)
}

/// `chrono::Local::now()` formatted with `%Z`. Taken on trust: the text is that of an
/// offset of less than a day. Which offset depends on the time and on the machine's time
/// zone; where its clock stands before 1970, or its zone is configured a day or more
/// from UTC or gives no local time for the moment, the call panics.
#[verifier::external_body]
fn local_offset() -> (text: String)
    ensures
        is_utc_offset_text(text@),
{
    chrono::Local::now().format("%Z").to_string()
}

/// The hexadecimal digit for a number below 16.
pub open spec fn hex_digit(n: int) -> char {
    "0123456789abcdef"@[n]
}

/// Some bytes in lower-case hexadecimal, two digits each.
pub open spec fn lower_hex(data: Seq<u8>) -> Seq<char> {
    Seq::new(
        2 * data.len(),
        |i: int|
            hex_digit(
                if i % 2 == 0 {
                    data[i / 2] as int / 16
                } else {
                    data[i / 2] as int % 16
                },
            ),
    )
}

/// The SHA-256 digest of some bytes, in lower-case hexadecimal.
pub open spec fn digest_text(data: Seq<u8>) -> Seq<char> {
    lower_hex(sha256_digest(data))
}

/// The value of the checksum header for a body.
pub open spec fn checksum_text(data: Seq<u8>) -> Seq<char> {
    "TPn75BGq"@ + digest_text(data)
}

/// The key made from a random text.
pub open spec fn client_key_text(random: Seq<char>) -> Seq<char> {
    digest_text(encode_utf8(random))
}

/// The file-sync key made from a random text.
pub open spec fn fs_client_key_text(random: Seq<char>) -> Seq<char> {
    digest_text(encode_utf8("fs-"@) + encode_utf8(random))
}

/// Whether `s` is 64 lower-case hexadecimal digits.
pub open spec fn is_digest_text(s: Seq<char>) -> bool {
    s.len() == 64 && forall|i: int| 0 <= i < 64 ==> is_hex_digit(#[trigger] s[i])
}

proof fn lemma_hex_digit(n: int)
    requires
        0 <= n < 16,
    ensures
        is_hex_digit(hex_digit(n)),
        forall|m: int| 0 <= m < 16 && hex_digit(m) == hex_digit(n) ==> m == n,
        "0123456789abcdef"@.len() == 16,
{
    reveal_strlit("0123456789abcdef");
}

/// The hexadecimal text of some bytes has two digits for each of them, and different
/// bytes have different texts.
pub proof fn law_lower_hex(a: Seq<u8>, b: Seq<u8>)
    ensures
        lower_hex(a).len() == 2 * a.len(),
        forall|i: int| 0 <= i < lower_hex(a).len() ==> is_hex_digit(#[trigger] lower_hex(a)[i]),
        lower_hex(a) == lower_hex(b) ==> a == b,
{
    assert forall|i: int| 0 <= i < lower_hex(a).len() implies is_hex_digit(
        #[trigger] lower_hex(a)[i],
    ) by {
        lemma_hex_digit(a[i / 2] as int / 16);
        lemma_hex_digit(a[i / 2] as int % 16);
    }
    if lower_hex(a) == lower_hex(b) {
        assert(lower_hex(b).len() == 2 * b.len());
        assert forall|i: int| 0 <= i < a.len() implies a[i] == b[i] by {
            let x = a[i] as int;
            let y = b[i] as int;
            assert(lower_hex(a)[2 * i] == lower_hex(b)[2 * i]);
            assert(lower_hex(a)[2 * i + 1] == lower_hex(b)[2 * i + 1]);
            assert((2 * i) / 2 == i && (2 * i) % 2 == 0);
            assert((2 * i + 1) / 2 == i && (2 * i + 1) % 2 == 1);
            assert(hex_digit(x / 16) == hex_digit(y / 16));
            assert(hex_digit(x % 16) == hex_digit(y % 16));
            lemma_hex_digit(x / 16);
            lemma_hex_digit(x % 16);
            assert(x / 16 == y / 16 && x % 16 == y % 16);
        }
        assert(a =~= b);
    }
}

/// Each byte stands in its place, its high half before its low half: a half below ten is
/// written with the digits from `0` on, any other with the letters from `a` on.
pub proof fn law_hex_places(data: Seq<u8>, i: int)
    requires
        0 <= i < data.len(),
    ensures
        lower_hex(data)[2 * i] as int == if data[i] / 16 < 10 {
            0x30 + data[i] / 16
        } else {
            0x57 + data[i] / 16
        },
        lower_hex(data)[2 * i + 1] as int == if data[i] % 16 < 10 {
            0x30 + data[i] % 16
        } else {
            0x57 + data[i] % 16
        },
{
    reveal_strlit("0123456789abcdef");
    assert((2 * i) / 2 == i && (2 * i) % 2 == 0);
    assert((2 * i + 1) / 2 == i && (2 * i + 1) % 2 == 1);
}

/// The checksum of a body is eight fixed characters and the digest of the body; the keys are
/// the digests of the random text, without and with `fs-` before it; and a digest is 64
/// digits where the hash is 32 bytes long.
pub proof fn law_digests(data: Seq<u8>, random: Seq<char>)
    ensures
        checksum_text(data) == seq!['T', 'P', 'n', '7', '5', 'B', 'G', 'q'] + lower_hex(
            sha256_digest(data),
        ),
        client_key_text(random) == lower_hex(sha256_digest(encode_utf8(random))),
        fs_client_key_text(random) == lower_hex(
            sha256_digest(encode_utf8("fs-"@) + encode_utf8(random)),
        ),
        sha256_digest(data).len() == 32 ==> is_digest_text(digest_text(data)),
{
    reveal_strlit("TPn75BGq");
    assert("TPn75BGq"@ =~= seq!['T', 'P', 'n', '7', '5', 'B', 'G', 'q']);
    law_lower_hex(sha256_digest(data), sha256_digest(data));
}

/// A digest as text is 64 characters long, each a decimal digit or one of the letters from
/// `a` to `f`; and a text is that of an offset exactly where an offset of less than a day,
/// either way, has it.
pub proof fn law_forms(s: Seq<char>)
    ensures
        is_digest_text(s) <==> s.len() == 64 && forall|i: int|
            0 <= i < 64 ==> ('0' <= #[trigger] s[i] && s[i] <= '9') || ('a' <= s[i] && s[i] <= 'f'),
        is_utc_offset_text(s) <==> exists|offset: int|
            -86_400 < offset < 86_400 && s == #[trigger] utc_offset_text(offset),
{
}

/// A random identifier is 36 characters long: lower-case hexadecimal digits, but for
/// hyphens at four places, with the version at one and the variant at another.
pub proof fn law_random_uuid(s: Seq<char>)
    ensures
        is_random_uuid(s) <==> {
            &&& s.len() == 36
            &&& forall|i: int|
                0 <= i < 36 ==> {
                    if i == 8 || i == 13 || i == 18 || i == 23 {
                        #[trigger] s[i] == '-'
                    } else if i == 14 {
                        s[i] == '4'
                    } else if i == 19 {
                        s[i] == '8' || s[i] == '9' || s[i] == 'a' || s[i] == 'b'
                    } else {
                        ('0' <= s[i] && s[i] <= '9') || ('a' <= s[i] && s[i] <= 'f')
                    }
                }
        },
{
    if s.len() == 36 {
        assert(s[8] == s[8] && s[13] == s[13] && s[18] == s[18] && s[23] == s[23] && s[14] == s[14]
            && s[19] == s[19]);
    }
}

/// The text of an offset is a sign, two digits of hours below 24, a colon, two digits of
/// minutes below 60, and, only where there are seconds, a colon and two digits of them.
/// Read back, they give the offset.
pub proof fn law_utc_offset(offset: int)
    requires
        -86_400 < offset < 86_400,
    ensures
        ({
            let s = utc_offset_text(offset);
            let hours = (s[1] as int - 0x30) * 10 + (s[2] as int - 0x30);
            let minutes = (s[4] as int - 0x30) * 10 + (s[5] as int - 0x30);
            let seconds = if s.len() == 9 {
                (s[7] as int - 0x30) * 10 + (s[8] as int - 0x30)
            } else {
                0
            };
            let size = hours * 3600 + minutes * 60 + seconds;
            &&& s.len() == 6 || (s.len() == 9 && s[6] == ':' && seconds != 0)
            &&& s[0] == '+' || s[0] == '-'
            &&& s[3] == ':'
            &&& 0 <= hours < 24 && 0 <= minutes < 60 && 0 <= seconds < 60
            &&& offset == if s[0] == '-' {
                -size
            } else {
                size
            }
        }),
{
}

/// Writes some bytes in lower-case hexadecimal.
pub fn to_lower_hex(data: &[u8]) -> (text: String)
    ensures
        text@ == lower_hex(data@),
{
    let digits: &str = "0123456789abcdef";
    let mut text = String::new();
    let mut i: usize = 0;
    while i < data.len()
        invariant
            digits@ == "0123456789abcdef"@,
            i <= data@.len(),
            text@ == lower_hex(data@.take(i as int)),
        decreases data@.len() - i,
    {
        let high: usize = (data[i] / 16) as usize;
        let low: usize = (data[i] % 16) as usize;
        let ghost before = text@;
        proof {
            lemma_hex_digit(high as int);
        }
        text.append(digits.substring_char(high, high + 1));
        text.append(digits.substring_char(low, low + 1));
        proof {
            let now = lower_hex(data@.take(i + 1));
            assert forall|k: int| 0 <= k < now.len() implies text@[k] == #[trigger] now[k] by {
                if k < before.len() {
                    assert(before[k] == lower_hex(data@.take(i as int))[k]);
                } else if k == before.len() {
                    assert(k == 2 * i);
                    assert(k / 2 == i);
                } else {
                    assert(k == 2 * i + 1);
                    assert(k / 2 == i);
                }
            }
            assert(text@ =~= now);
        }
        i = i + 1;
    }
    assert(data@.take(i as int) =~= data@);
    text
}

/// The SHA-256 digest of some bytes, in lower-case hexadecimal.
fn hex_digest(data: &[u8]) -> (text: String)
    ensures
        text@ == digest_text(data@),
        is_digest_text(text@),
{
    let digest = sha256(data);
    proof {
        law_lower_hex(digest@, digest@);
    }
    to_lower_hex(digest.as_slice())
}

/// The key made from a random text.
pub fn client_key(random: &str) -> (key: String)
    ensures
        key@ == client_key_text(random@),
        key@ == lower_hex(sha256_digest(encode_utf8(random@))),
        is_digest_text(key@),
{
    hex_digest(random.as_bytes())
}

/// The file-sync key made from a random text.
pub fn fs_client_key(random: &str) -> (key: String)
    ensures
        key@ == fs_client_key_text(random@),
        key@ == lower_hex(sha256_digest(encode_utf8("fs-"@) + encode_utf8(random@))),
        is_digest_text(key@),
{
    let mut data: Vec<u8> = "fs-".as_bytes_vec();
    let ghost prefix = data@;
    data.extend_from_slice(random.as_bytes());
    assert(data@ =~= prefix + encode_utf8(random@));
    hex_digest(data.as_slice())
}

impl CursorClient {
    /// A fresh key, made from a random UUID.
    pub fn generate_client_key() -> (key: String)
        ensures
            is_digest_text(key@),
            exists|random: Seq<char>|
                is_random_uuid(random) && key@ == #[trigger] client_key_text(random),
    {
        let random = random_uuid();
        client_key(random.as_str())
    }

    /// A fresh file-sync key, made from a random UUID.
    pub fn generate_fs_client_key() -> (key: String)
        ensures
            is_digest_text(key@),
            exists|random: Seq<char>|
                is_random_uuid(random) && key@ == #[trigger] fs_client_key_text(random),
    {
        let random = random_uuid();
        fs_client_key(random.as_str())
    }

    /// The value of the checksum header for a body.
    pub fn compute_checksum(data: &[u8]) -> (checksum: String)
        ensures
            checksum@ == checksum_text(data@),
            checksum@ == "TPn75BGq"@ + lower_hex(sha256_digest(data@)),
            is_digest_text(digest_text(data@)),
            checksum@.len() == 72,
    {
        let mut checksum = "TPn75BGq".to_owned();
        let digest = hex_digest(data);
        checksum.append(digest.as_str());
        proof {
            reveal_strlit("TPn75BGq");
        }
        checksum
    }

    /// The machine's offset from UTC at this moment, as text.
    pub fn get_timezone() -> (timezone: String)
        ensures
            is_utc_offset_text(timezone@),
    {
        local_offset()
    }
}

} // verus!
