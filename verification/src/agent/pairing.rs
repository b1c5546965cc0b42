//! Pairing codes and device names.

use crate::crypto::{self, Generator};
use crate::proto::signaling;
use crate::text;
use vstd::prelude::*;

verus! {

/// Length of a pairing code without its dash. Eight characters of this alphabet
/// make 40 bits, far beyond what a short window of limited attempts allows to
/// search.
pub const CODE_LEN: usize = 8;

/// Draws that can be counted for one code, at a byte each: as many as no machine makes.
/// One draw in eight is rejected.
pub const MAX_DRAWS: u64 = 0xFFFF_FFFF_FFFF_FFFF;

/// Longest device name, in characters.
pub const LABEL_LEN: usize = 48;

/// The alphabet of pairing codes: neither `I`, `L`, `O` nor `U`, so that no
/// character can be taken for a digit.
pub const CODE_ALPHABET: &'static str = "0123456789ABCDEFGHJKMNPQRSTVWXYZ";

/// The system's random generator is not available.
#[derive(Debug, Clone, Copy, PartialEq, Eq, Structural)]
pub struct RandomUnavailable;

/// Whether a result is the array that a draw makes: its bytes where there are as many as
/// asked for, else an error.
pub open spec fn array_outcome<const N: usize>(
    drawn: Option<Seq<u8>>,
    r: Result<[u8; N], RandomUnavailable>,
) -> bool {
    match drawn {
        Some(bytes) if bytes.len() == N => r matches Ok(a) && a@ == bytes,
        _ => r is Err,
    }
}

/// The array that a draw from the system's generator makes: its bytes where there are
/// as many as asked for, else an error.
pub fn drawn_array<const N: usize>(drawn: Option<Vec<u8>>) -> (r: Result<
    [u8; N],
    RandomUnavailable,
>)
    ensures
        array_outcome(crypto::draw_view(drawn), r),
{
    match drawn {
        Some(bytes) => match signaling::array_of::<N>(bytes) {
            Some(a) => Ok(a),
            None => Err(RandomUnavailable),
        },
        None => Err(RandomUnavailable),
    }
}

/// Draws an array, all at once.
pub fn random_array<const N: usize>(source: &mut Generator) -> (r: Result<
    [u8; N],
    RandomUnavailable,
>)
    requires
        N <= 0x7FFF_FFFF,
    ensures
        final(source).given() == old(source).given().push(final(source).given().last()),
        final(source).given().last() matches Some(bytes) ==> bytes.len() == N,
        array_outcome(final(source).given().last(), r),
{
    drawn_array(source.draw(N))
}

/// The character of the alphabet at a place.
pub open spec fn alphabet(i: int) -> char {
    "0123456789ABCDEFGHJKMNPQRSTVWXYZ"@[i]
}

/// Bytes from here on are rejected: keeping them would favour some characters.
pub open spec fn draw_limit() -> int {
    224
}

/// A code under way, once the byte `b` was drawn.
pub open spec fn code_push(code: Seq<char>, b: u8) -> Seq<char> {
    if b >= draw_limit() {
        code
    } else {
        let longer = code.push(alphabet(b as int % 32));
        if longer.len() == 4 {
            longer.push('-')
        } else {
            longer
        }
    }
}

/// The code under way after some draws.
pub open spec fn code_after(draws: Seq<u8>) -> Seq<char>
    decreases draws.len(),
{
    if draws.len() == 0 {
        Seq::empty()
    } else {
        code_push(code_after(draws.drop_last()), draws.last())
    }
}

/// Whether a text has the shape of a pairing code: four characters, a dash, four
/// characters.
pub open spec fn is_code(t: Seq<char>) -> bool {
    &&& t.len() == 9
    &&& t[4] == '-'
    &&& forall|i: int|
        0 <= i < 9 && i != 4 ==> "0123456789ABCDEFGHJKMNPQRSTVWXYZ"@.contains(#[trigger] t[i])
}

/// Adds a draw to the code under way.
pub fn push_draw(code: &mut Vec<char>, draw: u8)
    ensures
        final(code)@ == code_push(old(code)@, draw),
{
    if draw >= 224 {
        return ;
    }
    let at: usize = (draw % 32) as usize;
    proof {
        reveal_strlit("0123456789ABCDEFGHJKMNPQRSTVWXYZ");
        assert("0123456789ABCDEFGHJKMNPQRSTVWXYZ"@.len() == 32);
    }
    code.push(CODE_ALPHABET.get_char(at));
    if code.len() == 4 {
        code.push('-');
    }
}

/// What a code under way looks like: up to three characters, or four characters,
/// a dash, and up to four more.
proof fn lemma_code_shape(draws: Seq<u8>)
    ensures
        code_after(draws).len() != 4,
        code_after(draws).len() > 4 ==> code_after(draws)[4] == '-',
        forall|i: int|
            0 <= i < code_after(draws).len() && i != 4
                ==> "0123456789ABCDEFGHJKMNPQRSTVWXYZ"@.contains(#[trigger] code_after(draws)[i]),
    decreases draws.len(),
{
    if draws.len() > 0 {
        let prev = draws.drop_last();
        lemma_code_shape(prev);
        let b = draws.last();
        reveal_strlit("0123456789ABCDEFGHJKMNPQRSTVWXYZ");
        let all = "0123456789ABCDEFGHJKMNPQRSTVWXYZ"@;
        assert(all.len() == 32);
        if b < draw_limit() {
            assert(all.contains(all[b as int % 32]));
        }
    }
}

/// The first byte of each draw.
pub open spec fn first_bytes(draws: Seq<Option<Seq<u8>>>) -> Seq<u8> {
    Seq::new(draws.len(), |i: int| draws[i]->0[0])
}

/// Whether a draw gave a byte.
pub open spec fn gave_a_byte(drawn: Option<Seq<u8>>) -> bool {
    drawn matches Some(bytes) && bytes.len() > 0
}

/// Whether a result is what these draws come to. Drawing goes on as long as bytes come
/// and do not complete the code. It ends with the code, or with an error: after a draw
/// that gave nothing, or once no more draws can be counted.
pub open spec fn code_outcome(
    draws: Seq<Option<Seq<u8>>>,
    r: Result<String, RandomUnavailable>,
) -> bool {
    let code = code_after(first_bytes(draws));
    &&& 0 < draws.len() <= MAX_DRAWS
    &&& forall|i: int| 0 <= i < draws.len() - 1 ==> gave_a_byte(#[trigger] draws[i])
    &&& code_after(first_bytes(draws.drop_last())).len() < CODE_LEN + 1
    &&& if gave_a_byte(draws.last()) && code.len() == CODE_LEN + 1 {
        r matches Ok(text) && text@ == code
    } else {
        r is Err && (gave_a_byte(draws.last()) ==> draws.len() == MAX_DRAWS)
    }
}

/// Takes one draw of the system's generator into account (`None`, or no byte: it is not
/// available), with so many draws `left` after it. The outcome is there as soon as the
/// code is complete or cannot be; else another draw is called for.
pub fn draw_step(code: &mut Vec<char>, drawn: Option<Vec<u8>>, left: u64) -> (r: Option<
    Result<String, RandomUnavailable>,
>)
    ensures
        match drawn {
            Some(bytes) if bytes@.len() > 0 => {
                &&& final(code)@ == code_push(old(code)@, bytes@[0])
                &&& if final(code)@.len() == CODE_LEN + 1 {
                    r matches Some(Ok(text)) && text@ == final(code)@
                } else if left == 0 {
                    r matches Some(Err(_))
                } else {
                    r is None
                }
            },
            _ => r matches Some(Err(_)) && final(code)@ == old(code)@,
        },
{
    match drawn {
        Some(bytes) => {
            if bytes.len() == 0 {
                return Some(Err(RandomUnavailable));
            }
            push_draw(code, bytes[0]);
            if code.len() == CODE_LEN + 1 {
                Some(Ok(text::string_of(code.as_slice())))
            } else if left == 0 {
                Some(Err(RandomUnavailable))
            } else {
                None
            }
        },
        None => Some(Err(RandomUnavailable)),
    }
}

/// Draws a pairing code, a byte at a time, until it is complete.
///
/// Rejecting the values beyond the largest multiple of the alphabet's size avoids
/// the bias of a plain remainder.
pub fn draw_pairing_code(source: &mut Generator) -> (r: Result<String, RandomUnavailable>)
    ensures
        old(source).given().is_prefix_of(final(source).given()),
        code_outcome(final(source).given().skip(old(source).given().len() as int), r),
        r matches Ok(code) ==> is_code(code@),
{
    let ghost before = source.given();
    let ghost n = before.len() as int;
    let mut code: Vec<char> = Vec::new();
    let mut left: u64 = MAX_DRAWS;
    assert(source.given().skip(n) =~= Seq::empty());
    loop
        invariant
            n == before.len(),
            before.is_prefix_of(source.given()),
            before == old(source).given(),
            source.given().len() + left == n + MAX_DRAWS,
            left > 0,
            forall|i: int| n <= i < source.given().len() ==> gave_a_byte(#[trigger] source.given()[i]),
            code@ == code_after(first_bytes(source.given().skip(n))),
            code@.len() < CODE_LEN + 1,
        decreases left,
    {
        let ghost so_far = source.given().skip(n);
        let drawn = source.draw(1);
        left = left - 1;
        proof {
            let all = source.given().skip(n);
            assert(all =~= so_far.push(crypto::draw_view(drawn)));
            assert(all.drop_last() =~= so_far);
            assert(first_bytes(all).drop_last() =~= first_bytes(so_far));
            lemma_code_shape(first_bytes(so_far));
            lemma_code_shape(first_bytes(all));
        }
        if let Some(outcome) = draw_step(&mut code, drawn, left) {
            return outcome;
        }
    }
}

/// Draws a pairing code from the system's generator. Whether there is one, and which, is
/// up to the generator: what the draws come to is said by [`draw_pairing_code`].
pub fn generate_pairing_code() -> (r: Result<String, RandomUnavailable>)
    ensures
        exists|draws: Seq<Option<Seq<u8>>>| #[trigger] code_outcome(draws, r),
        r matches Ok(code) ==> is_code(code@),
{
    let mut source = Generator::new();
    draw_pairing_code(&mut source)
}

/// Every code that the draws complete is readable: four characters of the alphabet,
/// a dash, four more.
pub proof fn law_codes_are_readable(draws: Seq<u8>)
    requires
        code_after(draws).len() == CODE_LEN + 1,
    ensures
        is_code(code_after(draws)),
{
    lemma_code_shape(draws);
}

/// No character is favoured: each comes from exactly seven of the bytes that are
/// kept.
pub proof fn law_codes_are_unbiased(k: int, b: u8)
    requires
        0 <= k < 32,
    ensures
        (b < draw_limit() && b as int % 32 == k) <==> exists|j: int|
            0 <= j < 7 && b == #[trigger] (32 * j) + k,
{
    if b < draw_limit() && b as int % 32 == k {
        let j = b as int / 32;
        assert(b == (32 * j) + k);
        assert(0 <= j < 7);
    }
}

/// Whether a character is kept when codes are compared.
pub open spec fn code_char(c: char) -> bool {
    '0' <= c <= '9' || 'A' <= c <= 'Z' || 'a' <= c <= 'z'
}

/// The upper-case form of an ASCII character.
pub open spec fn ascii_upper(c: char) -> char {
    if 'a' <= c <= 'z' {
        (c as int - 32) as char
    } else {
        c
    }
}

/// A code without its punctuation, in upper case.
pub open spec fn normal_code(t: Seq<char>) -> Seq<char>
    decreases t.len(),
{
    if t.len() == 0 {
        Seq::empty()
    } else if code_char(t.last()) {
        normal_code(t.drop_last()).push(ascii_upper(t.last()))
    } else {
        normal_code(t.drop_last())
    }
}

/// The upper-case form of an ASCII character.
pub fn to_upper(c: char) -> (u: char)
    ensures
        u == ascii_upper(c),
{
    if 'a' <= c && c <= 'z' {
        ((c as u32 - 32) as u8) as char
    } else {
        c
    }
}

/// Drops the punctuation of a code and evens out its case.
fn normalize_code(code: &str) -> (out: Vec<char>)
    ensures
        out@ == normal_code(code@),
        forall|i: int| 0 <= i < out@.len() ==> '\0' <= #[trigger] out@[i] <= '\u{7f}',
{
    let chars = text::chars_of(code);
    let mut out: Vec<char> = Vec::new();
    let mut i: usize = 0;
    while i < chars.len()
        invariant
            i <= chars@.len(),
            out@ == normal_code(chars@.take(i as int)),
            forall|k: int| 0 <= k < out@.len() ==> '\0' <= #[trigger] out@[k] <= '\u{7f}',
        decreases chars@.len() - i,
    {
        let c = chars[i];
        assert(chars@.take(i + 1).drop_last() =~= chars@.take(i as int));
        if ('0' <= c && c <= '9') || ('A' <= c && c <= 'Z') || ('a' <= c && c <= 'z') {
            out.push(to_upper(c));
        }
        i = i + 1;
    }
    assert(chars@.take(i as int) =~= chars@);
    out
}

/// Compares pairing codes in constant time, whatever their punctuation and case.
///
/// A plain comparison would tell by its duration how many characters are right.
pub fn codes_match(expected: &str, provided: &str) -> (same: bool)
    ensures
        same == (normal_code(expected@) == normal_code(provided@)),
{
    let a = normalize_code(expected);
    let b = normalize_code(provided);
    if a.len() != b.len() {
        return false;
    }
    let mut difference: u8 = 0;
    let mut i: usize = 0;
    while i < a.len()
        invariant
            i <= a@.len(),
            a@.len() == b@.len(),
            forall|k: int| 0 <= k < a@.len() ==> '\0' <= #[trigger] a@[k] <= '\u{7f}',
            forall|k: int| 0 <= k < b@.len() ==> '\0' <= #[trigger] b@[k] <= '\u{7f}',
            difference == 0 <==> forall|k: int| 0 <= k < i ==> a@[k] == b@[k],
        decreases a@.len() - i,
    {
        let p = a[i];
        let q = b[i];
        assert('\0' <= p <= '\u{7f}' && '\0' <= q <= '\u{7f}');
        let x: u8 = p as u8;
        let y: u8 = q as u8;
        let before: u8 = difference;
        assert((before | (x ^ y)) == 0 <==> before == 0 && x == y) by (bit_vector);
        assert(x == y <==> a@[i as int] == b@[i as int]);
        difference = before | (x ^ y);
        i = i + 1;
    }
    assert(difference == 0 ==> a@ =~= b@);
    difference == 0
}

/// The normal form of a code is that of its parts, one after the other.
proof fn lemma_normal_code_concat(a: Seq<char>, b: Seq<char>)
    ensures
        normal_code(a + b) == normal_code(a) + normal_code(b),
    decreases b.len(),
{
    if b.len() == 0 {
        assert(a + b =~= a);
        assert(normal_code(a) + normal_code(b) =~= normal_code(a));
    } else {
        assert((a + b).drop_last() =~= a + b.drop_last());
        lemma_normal_code_concat(a, b.drop_last());
        assert(normal_code(a + b) =~= normal_code(a) + normal_code(b));
    }
}

/// Wherever a character that is neither a letter nor a digit is typed in a code, it
/// plays no part.
pub proof fn law_codes_ignore_punctuation(a: Seq<char>, c: char, b: Seq<char>)
    requires
        !code_char(c),
    ensures
        normal_code(a + seq![c] + b) == normal_code(a + b),
{
    lemma_normal_code_concat(a, b);
    lemma_normal_code_concat(a + seq![c], b);
    assert((a + seq![c]).drop_last() =~= a);
}

/// A code may be typed in either case.
pub proof fn law_codes_ignore_case(t: Seq<char>)
    ensures
        normal_code(t.map_values(|c: char| ascii_upper(c))) == normal_code(t),
    decreases t.len(),
{
    let upper = |c: char| ascii_upper(c);
    if t.len() > 0 {
        law_codes_ignore_case(t.drop_last());
        assert(t.map_values(upper).drop_last() =~= t.drop_last().map_values(upper));
    } else {
        assert(t.map_values(upper) =~= t);
    }
}

/// Whether `char::is_alphanumeric` holds of a character beyond ASCII.
pub uninterp spec fn char_is_alphanumeric(c: char) -> bool;

/// Whether a character is one of the ASCII letters and digits.
pub open spec fn ascii_alphanumeric(c: char) -> bool {
    'a' <= c <= 'z' || 'A' <= c <= 'Z' || '0' <= c <= '9'
}

/// Whether a character is a letter or a number.
pub open spec fn alphanumeric(c: char) -> bool {
    if (c as u32) < 0x80 {
        ascii_alphanumeric(c)
    } else {
        char_is_alphanumeric(c)
    }
}

/// `char::is_alphanumeric` tells whether a character is a letter or a number, from
/// the character alone. Within ASCII, these are the letters and the digits.
#[verifier::external_body]
fn is_alphanumeric(c: char) -> (b: bool)
    ensures
        b == if (c as u32) < 0x80 {
            ascii_alphanumeric(c)
        } else {
            char_is_alphanumeric(c)
        },
{
    c.is_alphanumeric()
}

/// Whether a character may stand in a device name.
pub open spec fn label_char(c: char) -> bool {
    alphanumeric(c) || c == ' ' || c == '-' || c == '_' || c == '.'
}

/// The characters of a text that may stand in a device name, in order.
pub open spec fn kept_chars(t: Seq<char>) -> Seq<char>
    decreases t.len(),
{
    if t.len() == 0 {
        Seq::empty()
    } else if label_char(t.last()) {
        kept_chars(t.drop_last()).push(t.last())
    } else {
        kept_chars(t.drop_last())
    }
}

/// At most the first 48 characters of a text.
pub open spec fn shortened(t: Seq<char>) -> Seq<char> {
    if t.len() <= LABEL_LEN {
        t
    } else {
        t.take(LABEL_LEN as int)
    }
}

/// The harmless form of the name `given`: its first allowed characters, without
/// white space at the ends; where nothing is left, a name for nameless devices.
pub open spec fn label_text(given: Seq<char>) -> Seq<char> {
    let name = text::trimmed(shortened(kept_chars(given)));
    if name.len() == 0 {
        "appareil sans nom"@
    } else {
        name
    }
}

/// Whatever a client calls itself, its name in the logs is never empty, never
/// longer than 48 characters, holds only letters, numbers, spaces, dashes,
/// underscores and dots, and neither starts nor ends with white space.
pub proof fn law_labels_are_harmless(given: Seq<char>)
    ensures
        0 < label_text(given).len() <= LABEL_LEN,
        forall|i: int|
            0 <= i < label_text(given).len() ==> label_char(#[trigger] label_text(given)[i]),
        !text::char_is_whitespace(label_text(given)[0]),
        !text::char_is_whitespace(label_text(given).last()),
{
    let kept = kept_chars(given);
    let t = shortened(kept);
    let name = text::trimmed(t);
    let label = label_text(given);
    lemma_kept_chars(given);
    text::lemma_trimmed(t);
    text::lemma_trimmed_ends(t);
    reveal_strlit("appareil sans nom");
    assert("appareil sans nom"@.len() == 17);
    if name.len() > 0 {
        assert forall|i: int| 0 <= i < label.len() implies label_char(#[trigger] label[i]) by {
            assert(t.contains(name[i]));
            let k = choose|k: int| 0 <= k < t.len() && t[k] == label[i];
            assert(kept[k] == label[i]);
        }
    }
}

/// A name that was made harmless stays as it is.
pub proof fn law_labels_are_stable(given: Seq<char>)
    ensures
        label_text(label_text(given)) == label_text(given),
{
    let label = label_text(given);
    law_labels_are_harmless(given);
    lemma_all_kept(label);
    assert(text::trim_start(label) == label);
    assert(text::trim_end(label) == label);
}

/// Where every character is allowed, all are kept.
proof fn lemma_all_kept(t: Seq<char>)
    requires
        forall|i: int| 0 <= i < t.len() ==> label_char(#[trigger] t[i]),
    ensures
        kept_chars(t) == t,
    decreases t.len(),
{
    if t.len() > 0 {
        let head = t.drop_last();
        assert forall|i: int| 0 <= i < head.len() implies label_char(#[trigger] head[i]) by {
            assert(head[i] == t[i]);
        }
        lemma_all_kept(head);
        assert(label_char(t[t.len() - 1]));
        assert(head.push(t.last()) =~= t);
    }
}

/// Only allowed characters are kept.
proof fn lemma_kept_chars(t: Seq<char>)
    ensures
        forall|i: int|
            0 <= i < kept_chars(t).len() ==> label_char(#[trigger] kept_chars(t)[i]),
    decreases t.len(),
{
    if t.len() > 0 {
        let prev = kept_chars(t.drop_last());
        lemma_kept_chars(t.drop_last());
        assert forall|i: int| 0 <= i < kept_chars(t).len() implies label_char(
            #[trigger] kept_chars(t)[i],
        ) by {
            if i < prev.len() {
                assert(kept_chars(t)[i] == prev[i]);
            }
        }
    }
}

/// The characters kept of a head of a text are a head of those kept of the text.
proof fn lemma_kept_prefix(t: Seq<char>, n: int)
    requires
        0 <= n <= t.len(),
    ensures
        kept_chars(t.take(n)).len() <= kept_chars(t).len(),
        kept_chars(t.take(n)) == kept_chars(t).take(kept_chars(t.take(n)).len() as int),
    decreases t.len() - n,
{
    if n == t.len() {
        assert(t.take(n) =~= t);
        assert(kept_chars(t).take(kept_chars(t).len() as int) =~= kept_chars(t));
    } else {
        lemma_kept_prefix(t, n + 1);
        assert(t.take(n + 1).drop_last() =~= t.take(n));
        let a = kept_chars(t.take(n));
        let b = kept_chars(t.take(n + 1));
        assert(a =~= b.take(a.len() as int));
        assert(a =~= kept_chars(t).take(a.len() as int));
    }
}

/// Reduces a device name to something harmless in the logs.
pub fn sanitize_label(label: &str) -> (out: String)
    ensures
        out@ == label_text(label@),
{
    let chars = text::chars_of(label);
    let mut kept: Vec<char> = Vec::new();
    let ghost all = kept_chars(chars@);
    let mut i: usize = 0;
    assert(chars@.take(0) =~= Seq::<char>::empty());
    while i < chars.len() && kept.len() < LABEL_LEN
        invariant
            i <= chars@.len(),
            kept@ == kept_chars(chars@.take(i as int)),
            kept@.len() <= LABEL_LEN,
        decreases chars@.len() - i,
    {
        let c = chars[i];
        assert(chars@.take(i + 1).drop_last() =~= chars@.take(i as int));
        if is_alphanumeric(c) || c == ' ' || c == '-' || c == '_' || c == '.' {
            kept.push(c);
        }
        i = i + 1;
    }
    proof {
        lemma_kept_prefix(chars@, i as int);
        if i == chars@.len() {
            assert(chars@.take(i as int) =~= chars@);
        }
        assert(kept@ =~= shortened(all));
    }
    let name = text::trim(kept.as_slice());
    if name.len() == 0 {
        return "appareil sans nom".to_owned();
    }
    text::string_of(name.as_slice())
}

/// The alphabet of codes: the ten digits, then the letters in their order without `I`, `L`,
/// `O` and `U`, each once.
pub proof fn law_the_alphabet_has_no_lookalikes(i: int)
    requires
        0 <= i < 32,
    ensures
        alphabet(i) as int == (if i < 10 {
            48 + i
        } else if i < 18 {
            55 + i
        } else if i < 20 {
            56 + i
        } else if i < 22 {
            57 + i
        } else if i < 27 {
            58 + i
        } else {
            59 + i
        }),
        "0123456789ABCDEFGHJKMNPQRSTVWXYZ"@.len() == 32,
{
    reveal_strlit("0123456789ABCDEFGHJKMNPQRSTVWXYZ");
}

/// What one byte makes of a code: from 224 on it is passed over; else it adds the character
/// at its remainder by 32, and a dash behind the fourth. What was there stays.
pub proof fn law_a_draw_adds_one_character(code: Seq<char>, b: u8)
    ensures
        b >= 224 ==> code_push(code, b) == code,
        b < 224 ==> {
            let after = code_push(code, b);
            &&& after.take(code.len() as int) == code
            &&& after[code.len() as int] == alphabet(b as int % 32)
            &&& code.len() == 3 ==> after.len() == 5 && after[4] == '-'
            &&& code.len() != 3 ==> after.len() == code.len() + 1
        },
{
    assert(code_push(code, b).take(code.len() as int) =~= code);
}

/// The code after some draws is made by the draws in their order, one after the other, from
/// nothing.
pub proof fn law_draws_count_in_order(draws: Seq<u8>, b: u8)
    ensures
        code_after(Seq::<u8>::empty()).len() == 0,
        code_after(draws.push(b)) == code_push(code_after(draws), b),
{
    assert(draws.push(b).drop_last() =~= draws);
}

/// How a code is read, character by character and in order: a digit and a capital letter
/// stand for themselves, a small letter for its capital, and everything else for nothing.
pub proof fn law_codes_are_read_character_by_character(a: Seq<char>, c: char)
    ensures
        normal_code(Seq::<char>::empty()).len() == 0,
        normal_code(a.push(c)) == normal_code(a) + (if 48 <= c as int <= 57 || 65 <= c as int
            <= 90 {
            seq![c]
        } else if 97 <= c as int <= 122 {
            seq![(c as int - 32) as char]
        } else {
            Seq::empty()
        }),
{
    assert(a.push(c).drop_last() =~= a);
    assert(normal_code(a.push(c)) =~= normal_code(a) + (if 48 <= c as int <= 57 || 65 <= c as int
        <= 90 {
        seq![c]
    } else if 97 <= c as int <= 122 {
        seq![(c as int - 32) as char]
    } else {
        Seq::empty()
    }));
}

proof fn lemma_capitals_are_normal(t: Seq<char>)
    requires
        forall|i: int| 0 <= i < t.len() ==> '0' <= #[trigger] t[i] <= '9' || 'A' <= t[i] <= 'Z',
    ensures
        normal_code(t) == t,
    decreases t.len(),
{
    if t.len() > 0 {
        let head = t.drop_last();
        assert forall|i: int| 0 <= i < head.len() implies '0' <= #[trigger] head[i] <= '9' || 'A'
            <= head[i] <= 'Z' by {
            assert(head[i] == t[i]);
        }
        lemma_capitals_are_normal(head);
        assert('0' <= t[t.len() - 1] <= '9' || 'A' <= t[t.len() - 1] <= 'Z');
        assert(head.push(t.last()) =~= t);
    }
}

proof fn lemma_normal_form_of_a_code(t: Seq<char>)
    requires
        is_code(t),
    ensures
        normal_code(t) == t.take(4) + t.skip(5),
{
    let head = t.take(4);
    let tail = t.skip(5);
    reveal_strlit("0123456789ABCDEFGHJKMNPQRSTVWXYZ");
    let all = "0123456789ABCDEFGHJKMNPQRSTVWXYZ"@;
    assert forall|i: int| 0 <= i < 9 && i != 4 implies '0' <= #[trigger] t[i] <= '9' || 'A' <= t[i]
        <= 'Z' by {
        assert(all.contains(t[i]));
        let k = choose|k: int| 0 <= k < all.len() && all[k] == t[i];
        law_the_alphabet_has_no_lookalikes(k);
        assert(alphabet(k) == all[k]);
    }
    assert forall|i: int| 0 <= i < 4 implies '0' <= #[trigger] head[i] <= '9' || 'A' <= head[i]
        <= 'Z' by {
        assert(head[i] == t[i]);
    }
    assert forall|i: int| 0 <= i < 4 implies '0' <= #[trigger] tail[i] <= '9' || 'A' <= tail[i]
        <= 'Z' by {
        assert(tail[i] == t[i + 5]);
    }
    lemma_capitals_are_normal(head);
    lemma_capitals_are_normal(tail);
    assert(t =~= head + seq!['-'] + tail);
    law_codes_ignore_punctuation(head, '-', tail);
    lemma_normal_code_concat(head, tail);
}

/// A code is matched by itself and by no other: of two codes that were handed out, one typed
/// for the other is never taken.
pub proof fn law_a_code_is_matched_by_no_other(a: Seq<char>, b: Seq<char>)
    requires
        is_code(a),
        is_code(b),
        normal_code(a) == normal_code(b),
    ensures
        a == b,
{
    lemma_normal_form_of_a_code(a);
    lemma_normal_form_of_a_code(b);
    let x = normal_code(a);
    assert forall|i: int| 0 <= i < 9 implies a[i] == b[i] by {
        if i < 4 {
            assert(x[i] == a[i]);
            assert((b.take(4) + b.skip(5))[i] == b[i]);
        } else if i > 4 {
            assert(x[i - 1] == a[i]);
            assert((b.take(4) + b.skip(5))[i - 1] == b[i]);
        }
    }
    assert(a =~= b);
}

/// What is kept of a name, character by character and in order: letters, numbers, spaces,
/// dashes, underscores and dots; the rest is dropped.
pub proof fn law_names_are_kept_character_by_character(a: Seq<char>, c: char)
    ensures
        kept_chars(Seq::<char>::empty()).len() == 0,
        kept_chars(a.push(c)) == (if label_char(c) {
            kept_chars(a).push(c)
        } else {
            kept_chars(a)
        }),
        (c as int) < 128 ==> (label_char(c) <==> {
            ||| 48 <= c as int <= 57
            ||| 65 <= c as int <= 90
            ||| 97 <= c as int <= 122
            ||| c == ' '
            ||| c == '-'
            ||| c == '_'
            ||| c == '.'
        }),
        c as int >= 128 ==> (label_char(c) <==> char_is_alphanumeric(c)),
{
    assert(a.push(c).drop_last() =~= a);
}

/// A name that is harmless already stays as it is; one without a single allowed character,
/// or with white space only, gets a name for nameless devices.
pub proof fn law_harmless_names_stay(given: Seq<char>)
    ensures
        0 < given.len() <= 48 && (forall|i: int|
            0 <= i < given.len() ==> label_char(#[trigger] given[i])) && !text::char_is_whitespace(
            given[0],
        ) && !text::char_is_whitespace(given.last()) ==> label_text(given) == given,
        text::trimmed(shortened(kept_chars(given))).len() == 0 ==> label_text(given)
            == "appareil sans nom"@,
        text::trimmed(shortened(kept_chars(given))).len() > 0 ==> label_text(given)
            == text::trimmed(shortened(kept_chars(given))),
        shortened(given).len() <= 48,
        given.len() <= 48 ==> shortened(given) == given,
        given.len() > 48 ==> shortened(given) == given.take(48),
{
    if 0 < given.len() <= 48 && (forall|i: int|
        0 <= i < given.len() ==> label_char(#[trigger] given[i])) && !text::char_is_whitespace(
        given[0],
    ) && !text::char_is_whitespace(given.last()) {
        lemma_all_kept(given);
        assert(text::trim_start(given) == given);
        assert(text::trim_end(given) == given);
    }
}

/// A draw of the right length is the array, byte for byte; any other outcome is an error.
pub proof fn law_a_draw_is_taken_as_it_is<const N: usize>(
    drawn: Option<Seq<u8>>,
    r: Result<[u8; N], RandomUnavailable>,
)
    requires
        array_outcome(drawn, r),
    ensures
        r is Ok <==> drawn is Some && drawn->0.len() == N,
        r matches Ok(a) ==> a@ == drawn->0,
{
}

/// A code comes out of the draws that made it. If it comes, every draw gave a byte, the bytes
/// make it, and one byte less does not. If it does not, the last draw gave nothing, or no
/// more draws can be counted.
pub proof fn law_a_code_comes_as_soon_as_it_can(
    draws: Seq<Option<Seq<u8>>>,
    r: Result<String, RandomUnavailable>,
)
    requires
        code_outcome(draws, r),
    ensures
        draws.len() > 0,
        r matches Ok(t) ==> is_code(t@) && t@ == code_after(first_bytes(draws)) && (forall|i: int|
            0 <= i < draws.len() ==> (#[trigger] draws[i] matches Some(b) && b.len() > 0)),
        r is Err ==> draws.last() is None || draws.last()->0.len() == 0 || draws.len()
            == 0xFFFF_FFFF_FFFF_FFFF,
        code_after(first_bytes(draws.drop_last())).len() < 9,
{
    lemma_code_shape(first_bytes(draws));
    if r is Ok {
        assert forall|i: int| 0 <= i < draws.len() implies (#[trigger] draws[i] matches Some(b)
            && b.len() > 0) by {
            if i < draws.len() - 1 {
                assert(gave_a_byte(draws[i]));
            } else {
                assert(gave_a_byte(draws.last()));
            }
        }
    }
}

/// Draws of one byte each are taken in their order, and all of them.
pub proof fn law_draws_are_taken_in_order(bytes: Seq<u8>)
    ensures
        ({
            let draws = Seq::new(bytes.len(), |i: int| Some(seq![bytes[i]]));
            &&& first_bytes(draws) == bytes
            &&& forall|i: int| 0 <= i < draws.len() ==> gave_a_byte(#[trigger] draws[i])
        }),
        !gave_a_byte(None),
        !gave_a_byte(Some(Seq::empty())),
{
    assert(first_bytes(Seq::new(bytes.len(), |i: int| Some(seq![bytes[i]]))) =~= bytes);
}

} // verus!
