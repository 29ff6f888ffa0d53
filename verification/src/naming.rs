//! Name derivation for providers.
//!
//! A provider's base name is its trait identifier converted to
//! lowercase-underscore form; its unique name appends the content hash in
//! fixed-width lowercase hexadecimal, and is the only identifier safe for
//! global use.

use vstd::prelude::*;
use vstd::string::StringExecFns;
use vstd::utf8::is_ascii_chars;

verus! {

/// The lowercase-underscore form of an identifier, as the case conversion
/// library computes it from the characters alone.
pub uninterp spec fn snake_of(s: Seq<char>) -> Seq<char>;

/// Whether a character may appear in a derived provider name: a lowercase
/// ASCII letter (code points 97 to 122), an ASCII digit (48 to 57), or an
/// underscore (95).
pub open spec fn is_snake_char(c: char) -> bool {
    (97 <= c as u32 && c as u32 <= 122) || (48 <= c as u32 && c as u32 <= 57) || c as u32 == 95
}

/// Relies on heck's `ToSnakeCase::to_snake_case` for `str`: it splits the
/// input into alphanumeric words, also at case boundaries, lowercases each
/// word and joins the words with underscores. The result depends on the
/// characters alone. Empty input has no words and yields the empty string;
/// ASCII input yields only lowercase ASCII letters, ASCII digits and
/// underscores.
#[verifier::external_body]
fn heck_snake_case(s: &str) -> (r: String)
    ensures
        r@ == snake_of(s@),
        s@.len() == 0 ==> r@.len() == 0,
        is_ascii_chars(s@) ==> (forall|i: int| 0 <= i < r@.len() ==> is_snake_char(r@[i])),
{
    heck::ToSnakeCase::to_snake_case(s)
}

/// Relies on str::chars: it yields exactly the string's characters, in
/// order.
#[verifier::external_body]
fn chars_of(s: &str) -> (r: Vec<char>)
    ensures
        r@ == s@,
{
    s.chars().collect()
}

/// The characters of the first `k` that may appear in a provider name, in
/// order: the lowercase-underscore form with every other character dropped.
pub open spec fn spec_sanitize_to(s: Seq<char>, k: int) -> Seq<char>
    decreases k,
{
    if k <= 0 {
        Seq::empty()
    } else {
        spec_sanitize_to(s, k - 1) + (if is_snake_char(s[k - 1]) {
            seq![s[k - 1]]
        } else {
            Seq::<char>::empty()
        })
    }
}

/// The name-safe characters of a text, in order.
pub open spec fn spec_sanitize(s: Seq<char>) -> Seq<char> {
    spec_sanitize_to(s, s.len() as int)
}

/// A provider's base name: the identifier's lowercase-underscore form,
/// restricted to the characters a low-level instrumentation name admits.
pub open spec fn spec_provider_name(ident: Seq<char>) -> Seq<char> {
    spec_sanitize(snake_of(ident))
}

/// Every character of a sanitized text is name-safe.
pub proof fn lemma_sanitize_chars(s: Seq<char>, k: int)
    requires
        0 <= k <= s.len(),
    ensures
        forall|i: int|
            0 <= i < spec_sanitize_to(s, k).len() ==> is_snake_char(
                #[trigger] spec_sanitize_to(s, k)[i],
            ),
    decreases k,
{
    if k > 0 {
        lemma_sanitize_chars(s, k - 1);
        assert forall|i: int| 0 <= i < spec_sanitize_to(s, k).len() implies is_snake_char(
            #[trigger] spec_sanitize_to(s, k)[i],
        ) by {
            if i < spec_sanitize_to(s, k - 1).len() {
                assert(spec_sanitize_to(s, k)[i] == spec_sanitize_to(s, k - 1)[i]);
            } else {
                assert(is_snake_char(s[k - 1]));
                assert(spec_sanitize_to(s, k)[i] == s[k - 1]);
            }
        }
    }
}

/// Sanitizing a text that is already all name-safe changes nothing.
pub proof fn lemma_sanitize_identity(s: Seq<char>)
    requires
        forall|i: int| 0 <= i < s.len() ==> is_snake_char(#[trigger] s[i]),
    ensures
        spec_sanitize(s) == s,
{
    lemma_sanitize_identity_to(s, s.len() as int);
    assert(s.take(s.len() as int) =~= s);
}

proof fn lemma_sanitize_identity_to(s: Seq<char>, k: int)
    requires
        0 <= k <= s.len(),
        forall|i: int| 0 <= i < s.len() ==> is_snake_char(#[trigger] s[i]),
    ensures
        spec_sanitize_to(s, k) == s.take(k),
    decreases k,
{
    if k > 0 {
        lemma_sanitize_identity_to(s, k - 1);
        assert(spec_sanitize_to(s, k) =~= s.take(k));
    }
}

/// A sequence of characters with code points under 128 encodes to UTF-8
/// byte for byte.
proof fn lemma_low_code_points_encode(s: Seq<char>)
    requires
        forall|i: int| 0 <= i < s.len() ==> ((#[trigger] s[i]) as u32) < 128,
    ensures
        vstd::utf8::encode_utf8(s).len() == s.len(),
        forall|i: int|
            0 <= i < s.len() ==> (#[trigger] vstd::utf8::encode_utf8(s)[i]) as u32 == s[i] as u32,
    decreases s.len(),
{
    if s.len() > 0 {
        let v = s[0] as u32;
        assert(((v & 0x7F) as u8) as u32 == v) by (bit_vector)
            requires
                v < 128,
        ;
        assert forall|i: int| 0 <= i < s.drop_first().len() implies ((
        #[trigger] s.drop_first()[i]) as u32) < 128 by {
            assert(s.drop_first()[i] == s[i + 1]);
        }
        lemma_low_code_points_encode(s.drop_first());
        assert forall|i: int| 0 <= i < s.len() implies (
        #[trigger] vstd::utf8::encode_utf8(s)[i]) as u32 == s[i] as u32 by {
            if i == 0 {
                assert(vstd::utf8::encode_utf8(s)[0] == vstd::utf8::leading_byte_width_1(v));
            } else {
                assert(vstd::utf8::encode_utf8(s)[i] == vstd::utf8::encode_utf8(
                    s.drop_first(),
                )[i - 1]);
                assert(s.drop_first()[i - 1] == s[i]);
            }
        }
    }
}

/// The UTF-8 encoding of a text of name-safe characters is the bytes
/// carrying the same code points.
proof fn lemma_snake_bytes(s: Seq<char>, bs: Seq<u8>)
    requires
        forall|i: int| 0 <= i < s.len() ==> is_snake_char(#[trigger] s[i]),
        bs.len() == s.len(),
        forall|i: int| 0 <= i < s.len() ==> bs[i] as u32 == (#[trigger] s[i]) as u32,
    ensures
        bs == vstd::utf8::encode_utf8(s),
{
    assert forall|i: int| 0 <= i < s.len() implies ((#[trigger] s[i]) as u32) < 128 by {
        assert(is_snake_char(s[i]));
    }
    lemma_low_code_points_encode(s);
    assert forall|i: int| 0 <= i < s.len() implies bs[i] == vstd::utf8::encode_utf8(s)[i] by {
        assert(vstd::utf8::encode_utf8(s)[i] as u32 == s[i] as u32);
        assert(bs[i] as u32 == s[i] as u32);
    }
    assert(bs =~= vstd::utf8::encode_utf8(s));
}

/// Keeps only the name-safe characters of a text.
fn sanitize_snake(s: &str) -> (r: String)
    ensures
        r@ == spec_sanitize(s@),
        forall|i: int| 0 <= i < r@.len() ==> is_snake_char(r@[i]),
{
    broadcast use vstd::utf8::encode_utf8_valid_utf8;
    broadcast use vstd::utf8::encode_utf8_decode_utf8;

    let cs = chars_of(s);
    let mut kept: Vec<u8> = Vec::new();
    let ghost mut ksv = Seq::<char>::empty();
    let n = cs.len();
    for i in 0..n
        invariant
            n == cs@.len(),
            cs@ == s@,
            ksv == spec_sanitize_to(cs@, i as int),
            kept@.len() == ksv.len(),
            forall|j: int| 0 <= j < ksv.len() ==> kept@[j] as u32 == (#[trigger] ksv[j]) as u32,
            forall|j: int| 0 <= j < ksv.len() ==> is_snake_char(#[trigger] ksv[j]),
    {
        let c = cs[i];
        let u = c as u32;
        if (97 <= u && u <= 122) || (48 <= u && u <= 57) || u == 95 {
            proof {
                assert(is_snake_char(c));
            }
            kept.push(u as u8);
            proof {
                ksv = ksv.push(c);
                assert(ksv =~= spec_sanitize_to(cs@, i as int + 1));
                assert((u as u8) as u32 == u);
                assert forall|j: int| 0 <= j < ksv.len() implies kept@[j] as u32 == (
                #[trigger] ksv[j]) as u32 by {
                    if j < ksv.len() - 1 {
                        assert(kept@[j] as u32 == ksv[j] as u32);
                    } else {
                        assert(ksv[j] == c && kept@[j] == u as u8);
                    }
                }
            }
        } else {
            proof {
                assert(!is_snake_char(c));
                assert(ksv =~= spec_sanitize_to(cs@, i as int + 1));
            }
        }
    }
    proof {
        lemma_snake_bytes(ksv, kept@);
        assert(vstd::utf8::valid_utf8(kept@));
    }
    match crate::codec::utf8_to_string(kept.as_slice()) {
        Some(r) => {
            proof {
                vstd::utf8::encode_utf8_decode_utf8(r@);
                vstd::utf8::encode_utf8_decode_utf8(ksv);
            }
            r
        },
        None => {
            proof {
                assert(false);
            }
            String::new()
        },
    }
}

/// Derives a provider's base name from the identifier of its trait: the
/// identifier in lowercase-underscore form, restricted to lowercase ASCII
/// letters, digits and underscores — the character set that low-level
/// instrumentation names admit. For ASCII identifiers the restriction
/// changes nothing.
pub fn provider_name_from_trait(ident: &str) -> (r: String)
    ensures
        r@ == spec_provider_name(ident@),
        forall|i: int| 0 <= i < r@.len() ==> is_snake_char(r@[i]),
        ident@.len() == 0 ==> r@.len() == 0,
        is_ascii_chars(ident@) ==> r@ == snake_of(ident@),
{
    let base = heck_snake_case(ident);
    let r = sanitize_snake(base.as_str());
    proof {
        if is_ascii_chars(ident@) {
            lemma_sanitize_identity(snake_of(ident@));
        }
    }
    r
}

/// The one-character text of a hexadecimal digit, lowercase.
pub open spec fn spec_hex_digit_text(d: u64) -> Seq<char> {
    if d == 0 {
        "0"@
    } else if d == 1 {
        "1"@
    } else if d == 2 {
        "2"@
    } else if d == 3 {
        "3"@
    } else if d == 4 {
        "4"@
    } else if d == 5 {
        "5"@
    } else if d == 6 {
        "6"@
    } else if d == 7 {
        "7"@
    } else if d == 8 {
        "8"@
    } else if d == 9 {
        "9"@
    } else if d == 10 {
        "a"@
    } else if d == 11 {
        "b"@
    } else if d == 12 {
        "c"@
    } else if d == 13 {
        "d"@
    } else if d == 14 {
        "e"@
    } else {
        "f"@
    }
}

/// The hexadecimal digit of weight `16 ^ (15 - i)` in a 64-bit value.
pub open spec fn spec_nibble(h: u64, i: int) -> u64 {
    (h >> (((15 - i) * 4) as u64)) & 0xf
}

/// The first `k` of the sixteen hexadecimal digits of a 64-bit value, most
/// significant first.
pub open spec fn spec_hex16_to(h: u64, k: int) -> Seq<char>
    decreases k,
{
    if k <= 0 {
        Seq::empty()
    } else {
        spec_hex16_to(h, k - 1) + spec_hex_digit_text(spec_nibble(h, k - 1))
    }
}

/// A 64-bit value as exactly sixteen lowercase hexadecimal digits, leading
/// zeros kept, so that the rendering has fixed width.
pub open spec fn spec_hex16(h: u64) -> Seq<char> {
    spec_hex16_to(h, 16)
}

/// Whether a character is a lowercase hexadecimal digit.
pub open spec fn is_lower_hex_char(c: char) -> bool {
    ('0' <= c && c <= '9') || ('a' <= c && c <= 'f')
}

/// The text of one hexadecimal digit is a single lowercase digit character.
proof fn lemma_hex_digit_text_ok(d: u64)
    ensures
        spec_hex_digit_text(d).len() == 1,
        is_lower_hex_char(spec_hex_digit_text(d)[0]),
{
    reveal_strlit("0");
    reveal_strlit("1");
    reveal_strlit("2");
    reveal_strlit("3");
    reveal_strlit("4");
    reveal_strlit("5");
    reveal_strlit("6");
    reveal_strlit("7");
    reveal_strlit("8");
    reveal_strlit("9");
    reveal_strlit("a");
    reveal_strlit("b");
    reveal_strlit("c");
    reveal_strlit("d");
    reveal_strlit("e");
    reveal_strlit("f");
}

proof fn lemma_hex16_to_ok(h: u64, k: int)
    requires
        0 <= k <= 16,
    ensures
        spec_hex16_to(h, k).len() == k,
        forall|i: int| 0 <= i < k ==> is_lower_hex_char(#[trigger] spec_hex16_to(h, k)[i]),
    decreases k,
{
    if k > 0 {
        lemma_hex16_to_ok(h, k - 1);
        lemma_hex_digit_text_ok(spec_nibble(h, k - 1));
        assert forall|i: int| 0 <= i < k implies is_lower_hex_char(
            #[trigger] spec_hex16_to(h, k)[i],
        ) by {
            if i < k - 1 {
                assert(spec_hex16_to(h, k)[i] == spec_hex16_to(h, k - 1)[i]);
            } else {
                assert(spec_hex16_to(h, k)[i] == spec_hex_digit_text(spec_nibble(h, k - 1))[0]);
            }
        }
    }
}

/// The hexadecimal rendering of a hash has fixed width: exactly sixteen
/// characters, each a lowercase hexadecimal digit.
pub proof fn lemma_hex16_fixed_width(h: u64)
    ensures
        spec_hex16(h).len() == 16,
        forall|i: int| 0 <= i < 16 ==> is_lower_hex_char(#[trigger] spec_hex16(h)[i]),
{
    lemma_hex16_to_ok(h, 16);
}

proof fn lemma_hex16_index(h: u64, k: int, i: int)
    requires
        0 <= i < k <= 16,
    ensures
        spec_hex16_to(h, k)[i] == spec_hex_digit_text(spec_nibble(h, i))[0],
    decreases k,
{
    lemma_hex16_to_ok(h, k - 1);
    lemma_hex_digit_text_ok(spec_nibble(h, k - 1));
    if i < k - 1 {
        lemma_hex16_index(h, k - 1, i);
    }
}

/// The code point of a digit's character determines the digit.
proof fn lemma_hex_digit_char_code(d: u64)
    requires
        d < 16,
    ensures
        spec_hex_digit_text(d)[0] as u32 == (if d < 10 {
            48 + d
        } else {
            87 + d
        }),
{
    reveal_strlit("0");
    reveal_strlit("1");
    reveal_strlit("2");
    reveal_strlit("3");
    reveal_strlit("4");
    reveal_strlit("5");
    reveal_strlit("6");
    reveal_strlit("7");
    reveal_strlit("8");
    reveal_strlit("9");
    reveal_strlit("a");
    reveal_strlit("b");
    reveal_strlit("c");
    reveal_strlit("d");
    reveal_strlit("e");
    reveal_strlit("f");
}

proof fn lemma_hex_digit_text_injective(a: u64, b: u64)
    requires
        a < 16,
        b < 16,
        spec_hex_digit_text(a) == spec_hex_digit_text(b),
    ensures
        a == b,
{
    lemma_hex_digit_char_code(a);
    lemma_hex_digit_char_code(b);
    assert(spec_hex_digit_text(a)[0] == spec_hex_digit_text(b)[0]);
}

/// Two 64-bit values with the same sixteen-digit rendering are the same
/// value: the fixed-width rendering loses nothing.
pub proof fn lemma_hex16_injective(h1: u64, h2: u64)
    requires
        spec_hex16(h1) == spec_hex16(h2),
    ensures
        h1 == h2,
{
    assert forall|i: int| 0 <= i < 16 implies spec_nibble(h1, i) == spec_nibble(h2, i) by {
        lemma_hex16_index(h1, 16, i);
        lemma_hex16_index(h2, 16, i);
        lemma_hex_digit_text_ok(spec_nibble(h1, i));
        lemma_hex_digit_text_ok(spec_nibble(h2, i));
        assert(spec_hex_digit_text(spec_nibble(h1, i)) =~= spec_hex_digit_text(
            spec_nibble(h2, i),
        ));
        let s = ((15 - i) * 4) as u64;
        assert((h1 >> s) & 0xf < 16) by (bit_vector);
        assert((h2 >> s) & 0xf < 16) by (bit_vector);
        lemma_hex_digit_text_injective(spec_nibble(h1, i), spec_nibble(h2, i));
    }
    assert((h1 >> 60u64) & 0xf == (h2 >> 60u64) & 0xf) by {
        assert(spec_nibble(h1, 0) == spec_nibble(h2, 0));
        assert(((15 - 0) * 4) as u64 == 60u64);
    }
    assert((h1 >> 56u64) & 0xf == (h2 >> 56u64) & 0xf) by {
        assert(spec_nibble(h1, 1) == spec_nibble(h2, 1));
        assert(((15 - 1) * 4) as u64 == 56u64);
    }
    assert((h1 >> 52u64) & 0xf == (h2 >> 52u64) & 0xf) by {
        assert(spec_nibble(h1, 2) == spec_nibble(h2, 2));
        assert(((15 - 2) * 4) as u64 == 52u64);
    }
    assert((h1 >> 48u64) & 0xf == (h2 >> 48u64) & 0xf) by {
        assert(spec_nibble(h1, 3) == spec_nibble(h2, 3));
        assert(((15 - 3) * 4) as u64 == 48u64);
    }
    assert((h1 >> 44u64) & 0xf == (h2 >> 44u64) & 0xf) by {
        assert(spec_nibble(h1, 4) == spec_nibble(h2, 4));
        assert(((15 - 4) * 4) as u64 == 44u64);
    }
    assert((h1 >> 40u64) & 0xf == (h2 >> 40u64) & 0xf) by {
        assert(spec_nibble(h1, 5) == spec_nibble(h2, 5));
        assert(((15 - 5) * 4) as u64 == 40u64);
    }
    assert((h1 >> 36u64) & 0xf == (h2 >> 36u64) & 0xf) by {
        assert(spec_nibble(h1, 6) == spec_nibble(h2, 6));
        assert(((15 - 6) * 4) as u64 == 36u64);
    }
    assert((h1 >> 32u64) & 0xf == (h2 >> 32u64) & 0xf) by {
        assert(spec_nibble(h1, 7) == spec_nibble(h2, 7));
        assert(((15 - 7) * 4) as u64 == 32u64);
    }
    assert((h1 >> 28u64) & 0xf == (h2 >> 28u64) & 0xf) by {
        assert(spec_nibble(h1, 8) == spec_nibble(h2, 8));
        assert(((15 - 8) * 4) as u64 == 28u64);
    }
    assert((h1 >> 24u64) & 0xf == (h2 >> 24u64) & 0xf) by {
        assert(spec_nibble(h1, 9) == spec_nibble(h2, 9));
        assert(((15 - 9) * 4) as u64 == 24u64);
    }
    assert((h1 >> 20u64) & 0xf == (h2 >> 20u64) & 0xf) by {
        assert(spec_nibble(h1, 10) == spec_nibble(h2, 10));
        assert(((15 - 10) * 4) as u64 == 20u64);
    }
    assert((h1 >> 16u64) & 0xf == (h2 >> 16u64) & 0xf) by {
        assert(spec_nibble(h1, 11) == spec_nibble(h2, 11));
        assert(((15 - 11) * 4) as u64 == 16u64);
    }
    assert((h1 >> 12u64) & 0xf == (h2 >> 12u64) & 0xf) by {
        assert(spec_nibble(h1, 12) == spec_nibble(h2, 12));
        assert(((15 - 12) * 4) as u64 == 12u64);
    }
    assert((h1 >> 8u64) & 0xf == (h2 >> 8u64) & 0xf) by {
        assert(spec_nibble(h1, 13) == spec_nibble(h2, 13));
        assert(((15 - 13) * 4) as u64 == 8u64);
    }
    assert((h1 >> 4u64) & 0xf == (h2 >> 4u64) & 0xf) by {
        assert(spec_nibble(h1, 14) == spec_nibble(h2, 14));
        assert(((15 - 14) * 4) as u64 == 4u64);
    }
    assert((h1 >> 0u64) & 0xf == (h2 >> 0u64) & 0xf) by {
        assert(spec_nibble(h1, 15) == spec_nibble(h2, 15));
        assert(((15 - 15) * 4) as u64 == 0u64);
    }
    assert(h1 == h2) by (bit_vector)
        requires
            (h1 >> 60u64) & 0xf == (h2 >> 60u64) & 0xf,
            (h1 >> 56u64) & 0xf == (h2 >> 56u64) & 0xf,
            (h1 >> 52u64) & 0xf == (h2 >> 52u64) & 0xf,
            (h1 >> 48u64) & 0xf == (h2 >> 48u64) & 0xf,
            (h1 >> 44u64) & 0xf == (h2 >> 44u64) & 0xf,
            (h1 >> 40u64) & 0xf == (h2 >> 40u64) & 0xf,
            (h1 >> 36u64) & 0xf == (h2 >> 36u64) & 0xf,
            (h1 >> 32u64) & 0xf == (h2 >> 32u64) & 0xf,
            (h1 >> 28u64) & 0xf == (h2 >> 28u64) & 0xf,
            (h1 >> 24u64) & 0xf == (h2 >> 24u64) & 0xf,
            (h1 >> 20u64) & 0xf == (h2 >> 20u64) & 0xf,
            (h1 >> 16u64) & 0xf == (h2 >> 16u64) & 0xf,
            (h1 >> 12u64) & 0xf == (h2 >> 12u64) & 0xf,
            (h1 >> 8u64) & 0xf == (h2 >> 8u64) & 0xf,
            (h1 >> 4u64) & 0xf == (h2 >> 4u64) & 0xf,
            (h1 >> 0u64) & 0xf == (h2 >> 0u64) & 0xf,
    ;
}

/// Renders a 64-bit value as exactly sixteen lowercase hexadecimal digits.
pub fn hex16(h: u64) -> (r: String)
    ensures
        r@ == spec_hex16(h),
{
    let mut out = String::new();
    for k in 0..16usize
        invariant
            out@ == spec_hex16_to(h, k as int),
    {
        let shift: u64 = ((15 - k) * 4) as u64;
        let d: u64 = (h >> shift) & 0xf;
        proof {
            assert(d == spec_nibble(h, k as int));
        }
        if d == 0 {
            out.append("0");
        } else if d == 1 {
            out.append("1");
        } else if d == 2 {
            out.append("2");
        } else if d == 3 {
            out.append("3");
        } else if d == 4 {
            out.append("4");
        } else if d == 5 {
            out.append("5");
        } else if d == 6 {
            out.append("6");
        } else if d == 7 {
            out.append("7");
        } else if d == 8 {
            out.append("8");
        } else if d == 9 {
            out.append("9");
        } else if d == 10 {
            out.append("a");
        } else if d == 11 {
            out.append("b");
        } else if d == 12 {
            out.append("c");
        } else if d == 13 {
            out.append("d");
        } else if d == 14 {
            out.append("e");
        } else {
            out.append("f");
        }
    }
    out
}


} // verus!
