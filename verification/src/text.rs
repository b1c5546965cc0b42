//! Strings as sequences of characters.

use vstd::prelude::*;

verus! {

/// `String::push` appends one character at the end.
pub assume_specification[ String::push ](s: &mut String, c: char)
    ensures
        final(s)@ == old(s)@.push(c),
;

/// The numbers that characters have.
pub proof fn lemma_char_range(c: char)
    ensures
        0 <= c as int <= 0xD7FF || 0xE000 <= c as int <= 0x10FFFF,
        c as u32 == c as int,
        (c as int) < 0x10000 ==> c as u16 == c as int,
{
}

/// The characters of a string, in order.
pub fn chars_of(s: &str) -> (out: Vec<char>)
    ensures
        out@ == s@,
{
    let mut out: Vec<char> = Vec::new();
    for c in it: s.chars()
        invariant
            out@ == it.seq().take(it.index()),
            it.seq() == s@,
    {
        out.push(c);
        assert(out@ =~= it.seq().take(it.index() + 1));
    }
    assert(s@.take(s@.len() as int) =~= s@);
    out
}

/// The string that holds `chars`, in order.
pub fn string_of(chars: &[char]) -> (s: String)
    ensures
        s@ == chars@,
{
    let mut s = String::new();
    assert(s@ =~= chars@.take(0));
    let mut i: usize = 0;
    while i < chars.len()
        invariant
            i <= chars@.len(),
            s@ == chars@.take(i as int),
        decreases chars@.len() - i,
    {
        s.push(chars[i]);
        i = i + 1;
        assert(s@ =~= chars@.take(i as int));
    }
    assert(chars@.take(i as int) =~= chars@);
    s
}

/// Appends the characters of `tail` to `s`.
pub fn push_text(s: &mut String, tail: &str)
    ensures
        final(s)@ == old(s)@ + tail@,
{
    let cs = chars_of(tail);
    assert(s@ =~= old(s)@ + cs@.take(0));
    let mut i: usize = 0;
    while i < cs.len()
        invariant
            i <= cs@.len(),
            cs@ == tail@,
            s@ == old(s)@ + cs@.take(i as int),
        decreases cs@.len() - i,
    {
        s.push(cs[i]);
        i = i + 1;
        assert(s@ =~= old(s)@ + cs@.take(i as int));
    }
    assert(cs@.take(i as int) =~= cs@);
}

/// Whether two strings hold the same characters.
pub fn same_text(a: &str, b: &str) -> (same: bool)
    ensures
        same == (a@ == b@),
{
    let x = chars_of(a);
    let y = chars_of(b);
    if x.len() != y.len() {
        return false;
    }
    let mut i: usize = 0;
    while i < x.len()
        invariant
            i <= x@.len(),
            x@.len() == y@.len(),
            x@ == a@,
            y@ == b@,
            forall|k: int| 0 <= k < i ==> x@[k] == y@[k],
        decreases x@.len() - i,
    {
        if x[i] != y[i] {
            return false;
        }
        i = i + 1;
    }
    assert(x@ =~= y@);
    true
}

/// Whether a character is white space: one of those with the Unicode property
/// `White_Space`.
pub open spec fn char_is_whitespace(c: char) -> bool {
    let n = c as u32;
    ||| 0x09 <= n <= 0x0D
    ||| n == 0x20
    ||| n == 0x85
    ||| n == 0xA0
    ||| n == 0x1680
    ||| 0x2000 <= n <= 0x200A
    ||| n == 0x2028
    ||| n == 0x2029
    ||| n == 0x202F
    ||| n == 0x205F
    ||| n == 0x3000
}

/// `char::is_whitespace` holds of the characters with the Unicode property
/// `White_Space`, and of no other.
#[verifier::external_body]
fn is_whitespace(c: char) -> (b: bool)
    ensures
        b == char_is_whitespace(c),
{
    c.is_whitespace()
}

/// A text without the white space that it starts with.
pub open spec fn trim_start(t: Seq<char>) -> Seq<char>
    decreases t.len(),
{
    if t.len() > 0 && char_is_whitespace(t[0]) {
        trim_start(t.drop_first())
    } else {
        t
    }
}

/// A text without the white space that it ends with.
pub open spec fn trim_end(t: Seq<char>) -> Seq<char>
    decreases t.len(),
{
    if t.len() > 0 && char_is_whitespace(t.last()) {
        trim_end(t.drop_last())
    } else {
        t
    }
}

/// A text without the white space at its two ends.
pub open spec fn trimmed(t: Seq<char>) -> Seq<char> {
    trim_end(trim_start(t))
}

/// Takes the white space off the two ends of a text.
pub fn trim(chars: &[char]) -> (out: Vec<char>)
    ensures
        out@ == trimmed(chars@),
{
    let ghost t = chars@;
    let mut from: usize = 0;
    assert(t.skip(0) =~= t);
    while from < chars.len() && is_whitespace(chars[from])
        invariant
            from <= chars@.len(),
            t == chars@,
            trim_start(t) == trim_start(t.skip(from as int)),
        ensures
            from <= chars@.len(),
            trim_start(t) == t.skip(from as int),
        decreases chars@.len() - from,
    {
        assert(t.skip(from as int).drop_first() =~= t.skip(from + 1));
        from = from + 1;
    }
    let ghost u = t.skip(from as int);
    let mut to: usize = chars.len();
    assert(t.subrange(from as int, to as int) =~= u);
    while to > from && is_whitespace(chars[to - 1])
        invariant
            from <= to <= chars@.len(),
            t == chars@,
            trim_end(u) == trim_end(t.subrange(from as int, to as int)),
        ensures
            from <= to <= chars@.len(),
            trim_end(u) == t.subrange(from as int, to as int),
        decreases to,
    {
        assert(t.subrange(from as int, to as int).drop_last() =~= t.subrange(
            from as int,
            to - 1,
        ));
        to = to - 1;
    }
    vstd::slice::slice_to_vec(vstd::slice::slice_subrange(chars, from, to))
}

/// What is left of a text by trimming is a part of it.
pub proof fn lemma_trimmed(t: Seq<char>)
    ensures
        trimmed(t).len() <= t.len(),
        forall|i: int| 0 <= i < trimmed(t).len() ==> t.contains(#[trigger] trimmed(t)[i]),
{
    lemma_trim_start(t);
    let u = trim_start(t);
    lemma_trim_end(u);
    assert forall|i: int| 0 <= i < trimmed(t).len() implies t.contains(
        #[trigger] trimmed(t)[i],
    ) by {
        assert(trimmed(t)[i] == u[i]);
        assert(u[i] == t[t.len() - u.len() + i]);
    }
}

/// Trimming leaves no white space at the ends.
pub proof fn lemma_trimmed_ends(t: Seq<char>)
    ensures
        trimmed(t).len() > 0 ==> !char_is_whitespace(trimmed(t)[0]) && !char_is_whitespace(
            trimmed(t).last(),
        ),
{
    lemma_trim_start(t);
    lemma_trim_end(trim_start(t));
}

proof fn lemma_trim_start(t: Seq<char>)
    ensures
        trim_start(t).len() <= t.len(),
        trim_start(t) == t.skip(t.len() - trim_start(t).len()),
        trim_start(t).len() > 0 ==> !char_is_whitespace(trim_start(t)[0]),
    decreases t.len(),
{
    if t.len() > 0 && char_is_whitespace(t[0]) {
        let rest = t.drop_first();
        lemma_trim_start(rest);
        let n = trim_start(rest).len();
        assert(rest.skip(rest.len() - n) =~= t.skip(t.len() - n));
    } else {
        assert(t.skip(0) =~= t);
    }
}

proof fn lemma_trim_end(t: Seq<char>)
    ensures
        trim_end(t).len() <= t.len(),
        trim_end(t) == t.take(trim_end(t).len() as int),
        trim_end(t).len() > 0 ==> !char_is_whitespace(trim_end(t).last()),
    decreases t.len(),
{
    if t.len() > 0 && char_is_whitespace(t.last()) {
        let rest = t.drop_last();
        lemma_trim_end(rest);
        let n = trim_end(rest).len() as int;
        assert(rest.take(n) =~= t.take(n));
    } else {
        assert(t.take(t.len() as int) =~= t);
    }
}

/// The decimal digits of a number, without leading zeros.
pub open spec fn decimal(n: nat) -> Seq<char>
    decreases n,
{
    if n < 10 {
        seq![('0' as int + n) as char]
    } else {
        decimal(n / 10).push(('0' as int + n % 10) as char)
    }
}

/// Appends the decimal digits of `n` to `s`.
pub fn push_decimal(s: &mut String, n: u64)
    ensures
        final(s)@ == old(s)@ + decimal(n as nat),
    decreases n,
{
    if n >= 10 {
        push_decimal(s, n / 10);
    }
    s.push((48 + (n % 10) as u8) as char);
    assert(s@ =~= old(s)@ + decimal(n as nat));
}

/// The upper-case hexadecimal digit of a value below sixteen.
pub open spec fn upper_digit(v: int) -> char {
    if v < 10 {
        ('0' as int + v) as char
    } else {
        ('A' as int + (v - 10)) as char
    }
}

/// The upper-case hexadecimal digit of a value below sixteen.
pub fn upper_digit_char(v: u8) -> (c: char)
    requires
        v < 16,
    ensures
        c == upper_digit(v as int),
{
    if v < 10 {
        (48 + v) as char
    } else {
        (65 + (v - 10)) as char
    }
}

/// The last `n` upper-case hexadecimal digits of a number.
pub open spec fn hex_digits(x: nat, n: nat) -> Seq<char>
    decreases n,
{
    if n == 0 {
        Seq::empty()
    } else {
        hex_digits(x / 16, (n - 1) as nat).push(upper_digit((x % 16) as int))
    }
}

/// Appends the last `n` upper-case hexadecimal digits of `x` to `s`.
pub fn push_hex_digits(s: &mut String, x: u32, n: u32)
    ensures
        final(s)@ == old(s)@ + hex_digits(x as nat, n as nat),
    decreases n,
{
    if n > 0 {
        push_hex_digits(s, x / 16, n - 1);
        s.push(upper_digit_char((x % 16) as u8));
    }
    assert(s@ =~= old(s)@ + hex_digits(x as nat, n as nat));
}

/// How an error of the system's interface is worded: its message, then its code in
/// hexadecimal.
pub open spec fn system_text(message: Seq<char>, code: u32) -> Seq<char> {
    message + " (0x"@ + hex_digits(code as nat, 8) + ")"@
}

/// Words an error of the system's interface.
pub fn system_message(message: &str, code: u32) -> (s: String)
    ensures
        s@ == system_text(message@, code),
{
    let mut s = message.to_owned();
    push_text(&mut s, " (0x");
    push_hex_digits(&mut s, code, 8);
    push_text(&mut s, ")");
    assert(s@ =~= system_text(message@, code));
    s
}

/// Whether `a` comes before `b` in the order of strings: at the first place where
/// they differ `a` has the lower character, or `a` ends there.
pub open spec fn text_before(a: Seq<char>, b: Seq<char>) -> bool
    decreases a.len(),
{
    if b.len() == 0 {
        false
    } else if a.len() == 0 {
        true
    } else if a[0] != b[0] {
        a[0] < b[0]
    } else {
        text_before(a.drop_first(), b.drop_first())
    }
}

/// The order of strings is total, and strict.
pub proof fn lemma_text_order(a: Seq<char>, b: Seq<char>)
    ensures
        text_before(a, b) || a == b || text_before(b, a),
        !(text_before(a, b) && text_before(b, a)),
        !text_before(a, a),
    decreases a.len(),
{
    if a.len() > 0 && b.len() > 0 {
        lemma_text_order(a.drop_first(), b.drop_first());
        if a[0] == b[0] && a.drop_first() == b.drop_first() {
            assert(a =~= seq![a[0]] + a.drop_first());
            assert(b =~= seq![b[0]] + b.drop_first());
        }
        assert(!text_before(a, a)) by {
            lemma_text_order(a.drop_first(), a.drop_first());
        }
    } else if a.len() == 0 && b.len() == 0 {
        assert(a =~= b);
    } else if a.len() > 0 {
        assert(!text_before(a, a)) by {
            lemma_text_order(a.drop_first(), a.drop_first());
        }
    }
}

/// The order of strings is transitive.
pub proof fn lemma_text_order_transitive(a: Seq<char>, b: Seq<char>, c: Seq<char>)
    requires
        text_before(a, b),
        text_before(b, c),
    ensures
        text_before(a, c),
    decreases a.len(),
{
    if a.len() > 0 && a[0] == b[0] && b[0] == c[0] {
        lemma_text_order_transitive(a.drop_first(), b.drop_first(), c.drop_first());
    }
}

/// Whether `a` comes before `b` in the order of strings.
pub fn is_before(a: &str, b: &str) -> (before: bool)
    ensures
        before == text_before(a@, b@),
{
    let x = chars_of(a);
    let y = chars_of(b);
    let mut i: usize = 0;
    assert(x@.skip(0) =~= x@ && y@.skip(0) =~= y@);
    while i < x.len() && i < y.len() && x[i] == y[i]
        invariant
            i <= x@.len(),
            i <= y@.len(),
            x@ == a@,
            y@ == b@,
            text_before(a@, b@) == text_before(x@.skip(i as int), y@.skip(i as int)),
        decreases x@.len() - i,
    {
        assert(x@.skip(i as int).drop_first() =~= x@.skip(i + 1));
        assert(y@.skip(i as int).drop_first() =~= y@.skip(i + 1));
        i = i + 1;
    }
    if i >= y.len() {
        false
    } else if i >= x.len() {
        true
    } else {
        assert(x@.skip(i as int)[0] == x@[i as int]);
        assert(y@.skip(i as int)[0] == y@[i as int]);
        x[i] < y[i]
    }
}

/// The texts of a list of strings.
pub open spec fn texts(v: Seq<String>) -> Seq<Seq<char>> {
    Seq::new(v.len(), |i: int| v[i]@)
}

/// Whether a list of texts is in order, without repetition.
pub open spec fn strictly_ordered(t: Seq<Seq<char>>) -> bool {
    forall|i: int, j: int| 0 <= i < j < t.len() ==> text_before(#[trigger] t[i], #[trigger] t[j])
}

/// Inserts `s` where it belongs in an ordered list, unless it is there already.
pub fn insert_ordered(list: &mut Vec<String>, s: String)
    requires
        strictly_ordered(texts(old(list)@)),
    ensures
        strictly_ordered(texts(final(list)@)),
        forall|t: Seq<char>| #[trigger]
            texts(final(list)@).contains(t) <==> texts(old(list)@).contains(t) || t == s@,
{
    let ghost before = texts(list@);
    let mut i: usize = 0;
    while i < list.len() && is_before(list[i].as_str(), s.as_str())
        invariant
            i <= list@.len(),
            texts(list@) == before,
            forall|k: int| 0 <= k < i ==> text_before(#[trigger] before[k], s@),
        ensures
            i <= list@.len(),
            texts(list@) == before,
            forall|k: int| 0 <= k < i ==> text_before(#[trigger] before[k], s@),
            i < list@.len() ==> !text_before(before[i as int], s@),
        decreases list@.len() - i,
    {
        assert(before[i as int] == list@[i as int]@);
        i = i + 1;
    }
    if i < list.len() && same_text(list[i].as_str(), s.as_str()) {
        assert(before[i as int] == s@);
        assert(before.contains(s@));
        return ;
    }
    let ghost list0 = list@;
    let ghost word = s@;
    list.insert(i, s);
    proof {
        let after = texts(list@);
        assert(after =~= before.insert(i as int, word));
        if i < before.len() {
            assert(before[i as int] == list0[i as int]@);
            lemma_text_order(before[i as int], word);
        }
        assert forall|a: int, b: int| 0 <= a < b < after.len() implies text_before(
            #[trigger] after[a],
            #[trigger] after[b],
        ) by {
            if b < i {
                assert(after[a] == before[a] && after[b] == before[b]);
            } else if b == i {
                assert(after[a] == before[a]);
            } else if a == i {
                assert(after[b] == before[b - 1]);
                if b - 1 > i {
                    assert(text_before(before[i as int], before[b - 1]));
                    lemma_text_order_transitive(word, before[i as int], before[b - 1]);
                }
            } else if a < i {
                assert(after[a] == before[a] && after[b] == before[b - 1]);
            } else {
                assert(after[a] == before[a - 1] && after[b] == before[b - 1]);
            }
        }
        assert forall|t: Seq<char>| #[trigger] after.contains(t) <==> before.contains(t) || t
            == word by {
            if before.contains(t) {
                let k = choose|k: int| 0 <= k < before.len() && before[k] == t;
                if k < i {
                    assert(after[k] == t);
                } else {
                    assert(after[k + 1] == t);
                }
            }
            if t == word {
                assert(after[i as int] == t);
            }
            if after.contains(t) {
                let k = choose|k: int| 0 <= k < after.len() && after[k] == t;
                if k < i {
                    assert(before[k] == t);
                } else if k > i {
                    assert(before[k - 1] == t);
                }
            }
        }
    }
}

/// Trimming cuts white space off the two ends, and nothing else: what is left stands in one
/// piece in the text, everything before it and after it is white space, and it neither starts
/// nor ends with any.
pub proof fn law_trimming_cuts_the_ends_only(t: Seq<char>)
    ensures
        exists|from: int, to: int|
            {
                &&& 0 <= from <= to <= t.len()
                &&& trimmed(t) == #[trigger] t.subrange(from, to)
                &&& forall|i: int| 0 <= i < from ==> char_is_whitespace(#[trigger] t[i])
                &&& forall|i: int| to <= i < t.len() ==> char_is_whitespace(#[trigger] t[i])
            },
        trimmed(t).len() > 0 ==> !char_is_whitespace(trimmed(t)[0]) && !char_is_whitespace(
            trimmed(t).last(),
        ),
{
    lemma_trimmed_ends(t);
    lemma_trim_start(t);
    lemma_cut_start(t);
    let u = trim_start(t);
    lemma_trim_end(u);
    lemma_cut_end(u);
    let from = t.len() - u.len();
    let to = from + trimmed(t).len();
    assert(trimmed(t) =~= t.subrange(from, to));
    assert forall|i: int| to <= i < t.len() implies char_is_whitespace(#[trigger] t[i]) by {
        assert(u[i - from] == t[i]);
    }
}

proof fn lemma_cut_start(t: Seq<char>)
    ensures
        forall|i: int|
            0 <= i < t.len() - trim_start(t).len() ==> char_is_whitespace(#[trigger] t[i]),
    decreases t.len(),
{
    if t.len() > 0 && char_is_whitespace(t[0]) {
        let rest = t.drop_first();
        lemma_cut_start(rest);
        assert forall|i: int| 0 <= i < t.len() - trim_start(t).len() implies char_is_whitespace(
            #[trigger] t[i],
        ) by {
            if i > 0 {
                assert(rest[i - 1] == t[i]);
            }
        }
    }
}

proof fn lemma_cut_end(t: Seq<char>)
    ensures
        forall|i: int|
            trim_end(t).len() <= i < t.len() ==> char_is_whitespace(#[trigger] t[i]),
    decreases t.len(),
{
    if t.len() > 0 && char_is_whitespace(t.last()) {
        let rest = t.drop_last();
        lemma_cut_end(rest);
        assert forall|i: int| trim_end(t).len() <= i < t.len() implies char_is_whitespace(
            #[trigger] t[i],
        ) by {
            if i < rest.len() {
                assert(rest[i] == t[i]);
            }
        }
    }
}

/// The value of a text of decimal digits.
pub open spec fn decimal_value(t: Seq<char>) -> int
    decreases t.len(),
{
    if t.len() == 0 {
        0
    } else {
        10 * decimal_value(t.drop_last()) + (t.last() as int - 48)
    }
}

/// A number is written with decimal digits that stand for it, without a zero in front.
pub proof fn law_decimals_stand_for_their_number(n: nat)
    ensures
        decimal(n).len() > 0,
        decimal_value(decimal(n)) == n,
        forall|i: int| 0 <= i < decimal(n).len() ==> 48 <= (#[trigger] decimal(n)[i]) as int <= 57,
        decimal(n).len() > 1 ==> decimal(n)[0] != '0',
    decreases n,
{
    if n >= 10 {
        law_decimals_stand_for_their_number(n / 10);
        let head = decimal(n / 10);
        assert(decimal(n).drop_last() =~= head);
        assert forall|i: int| 0 <= i < decimal(n).len() implies 48 <= (
        #[trigger] decimal(n)[i]) as int <= 57 by {
            if i < head.len() {
                assert(decimal(n)[i] == head[i]);
            }
        }
        assert(decimal(n)[0] == head[0]);
        assert(decimal(n).last() as int == 48 + n % 10);
        assert(decimal_value(decimal(n)) == 10 * decimal_value(head) + n % 10);
        if head.len() == 1 {
            assert(n / 10 > 0);
            assert(decimal_value(head) == 10 * decimal_value(head.drop_last()) + (head.last() as int
                - 48));
            assert(head.drop_last() =~= Seq::<char>::empty());
        }
    } else {
        assert(decimal(n).drop_last() =~= Seq::<char>::empty());
        assert(decimal_value(decimal(n).drop_last()) == 0);
        assert(decimal(n).last() as int == 48 + n);
    }
}

/// The value of a text of hexadecimal digits in upper case.
pub open spec fn hex_digits_value(t: Seq<char>) -> int
    decreases t.len(),
{
    if t.len() == 0 {
        0
    } else {
        16 * hex_digits_value(t.drop_last()) + (t.last() as int - (if t.last() as int <= 57 {
            48int
        } else {
            55
        }))
    }
}

/// The last digits of a number are as many as are asked for, in upper case, and stand for
/// its remainder.
pub proof fn law_hexadecimals_stand_for_their_number(x: nat, n: nat)
    ensures
        hex_digits(x, n).len() == n,
        hex_digits_value(hex_digits(x, n)) == x as int % vstd::arithmetic::power::pow(16, n),
        forall|i: int|
            0 <= i < n ==> 48 <= (#[trigger] hex_digits(x, n)[i]) as int <= 57 || 65 <= hex_digits(
                x,
                n,
            )[i] as int <= 70,
    decreases n,
{
    vstd::arithmetic::power::lemma_pow_positive(16, n);
    if n == 0 {
        vstd::arithmetic::power::lemma_pow0(16);
    } else {
        let m = (n - 1) as nat;
        let head = hex_digits(x / 16, m);
        law_hexadecimals_stand_for_their_number(x / 16, m);
        assert(hex_digits(x, n).drop_last() =~= head);
        vstd::arithmetic::power::lemma_pow_positive(16, m);
        reveal(vstd::arithmetic::power::pow);
        let p = vstd::arithmetic::power::pow(16, m);
        assert(vstd::arithmetic::power::pow(16, n) == 16 * p);
        vstd::arithmetic::div_mod::lemma_breakdown(x as int, 16, p);
        assert forall|i: int| 0 <= i < n implies 48 <= (#[trigger] hex_digits(x, n)[i]) as int
            <= 57 || 65 <= hex_digits(x, n)[i] as int <= 70 by {
            if i < m {
                assert(hex_digits(x, n)[i] == head[i]);
            }
        }
    }
}

/// The order of strings is decided at the first place where they differ: by the lower
/// character there, or by where the shorter one ends.
pub proof fn law_strings_are_ordered_at_the_first_difference(
    common: Seq<char>,
    a: Seq<char>,
    b: Seq<char>,
)
    requires
        a.len() == 0 || b.len() == 0 || a[0] != b[0],
    ensures
        text_before(common + a, common + b) <==> {
            ||| a.len() == 0 && b.len() > 0
            ||| a.len() > 0 && b.len() > 0 && (a[0] as int) < b[0] as int
        },
    decreases common.len(),
{
    if common.len() == 0 {
        assert(common + a =~= a);
        assert(common + b =~= b);
    } else {
        law_strings_are_ordered_at_the_first_difference(common.drop_first(), a, b);
        assert((common + a).drop_first() =~= common.drop_first() + a);
        assert((common + b).drop_first() =~= common.drop_first() + b);
    }
}

/// An error of the system's interface shows its message whole, and then its code: eight digits
/// before the closing bracket, which stand for all 32 bits of it.
pub proof fn law_errors_show_their_message_and_their_code(message: Seq<char>, code: u32)
    ensures
        ({
            let t = system_text(message, code);
            &&& message.is_prefix_of(t)
            &&& t.len() > message.len() + 9
            &&& t.last() == ')'
            &&& hex_digits_value(t.subrange(t.len() - 9, t.len() - 1)) == code
        }),
{
    let t = system_text(message, code);
    let digits = hex_digits(code as nat, 8);
    law_hexadecimals_stand_for_their_number(code as nat, 8);
    reveal_strlit(" (0x");
    reveal_strlit(")");
    reveal_with_fuel(vstd::arithmetic::power::pow, 9);
    assert(vstd::arithmetic::power::pow(16, 8) == 0x1_0000_0000);
    assert(t.take(message.len() as int) =~= message);
    assert(t.subrange(t.len() - 9, t.len() - 1) =~= digits);
}

/// Whether a text shows another, whole.
pub open spec fn shows(t: Seq<char>, part: Seq<char>) -> bool {
    exists|i: int| 0 <= i <= t.len() - part.len() && #[trigger] t.subrange(i, i + part.len()) == part
}

/// Whether a text shows two others, whole and in this order.
pub open spec fn shows_both(t: Seq<char>, first: Seq<char>, second: Seq<char>) -> bool {
    exists|i: int, j: int|
        0 <= i <= j - first.len() && j <= t.len() - second.len() && #[trigger] t.subrange(
            i,
            i + first.len(),
        ) == first && #[trigger] t.subrange(j, j + second.len()) == second
}

/// What stands between two texts is shown.
pub proof fn lemma_shows(lead: Seq<char>, part: Seq<char>, tail: Seq<char>)
    ensures
        shows(lead + part + tail, part),
        shows(lead + part, part),
        shows(part + tail, part),
{
    let i = lead.len() as int;
    assert((lead + part + tail).subrange(i, i + part.len()) =~= part);
    assert((lead + part).subrange(i, i + part.len()) =~= part);
    assert((part + tail).subrange(0, 0int + part.len()) =~= part);
}

/// Two texts that stand in a third are shown in their order.
pub proof fn lemma_shows_both(
    lead: Seq<char>,
    first: Seq<char>,
    between: Seq<char>,
    second: Seq<char>,
    tail: Seq<char>,
)
    ensures
        shows_both(lead + first + between + second + tail, first, second),
        shows_both(lead + first + between + second, first, second),
{
    let i = lead.len() as int;
    let j = i + first.len() + between.len();
    let t = lead + first + between + second + tail;
    let u = lead + first + between + second;
    assert(t.subrange(i, i + first.len()) =~= first);
    assert(t.subrange(j, j + second.len()) =~= second);
    assert(u.subrange(i, i + first.len()) =~= first);
    assert(u.subrange(j, j + second.len()) =~= second);
}

} // verus!
