//! Textual building blocks shared by the pose, plateau and motion grammars:
//! trimming surrounding whitespace, splitting a line into its
//! whitespace-separated fields, and parsing and formatting decimal
//! integers.

use vstd::prelude::*;

verus! {

/// Relies on std's `String::push`: appends the character to the end of the
/// string.
pub assume_specification[ String::push ](s: &mut String, ch: char)
    ensures
        final(s)@ == old(s)@.push(ch),
;

/// An ASCII whitespace character as the line grammars understand it.
pub open spec fn is_space(c: char) -> bool {
    c == ' ' || c == '\t' || c == '\n' || c == '\r' || c == '\x0B' || c == '\x0C'
}

/// `s` with its leading whitespace removed.
pub open spec fn trim_front(s: Seq<char>) -> Seq<char>
    decreases s.len(),
{
    if s.len() > 0 && is_space(s[0]) {
        trim_front(s.skip(1))
    } else {
        s
    }
}

/// `s` with its trailing whitespace removed.
pub open spec fn trim_back(s: Seq<char>) -> Seq<char>
    decreases s.len(),
{
    if s.len() > 0 && is_space(s.last()) {
        trim_back(s.drop_last())
    } else {
        s
    }
}

/// `s` with both leading and trailing whitespace removed.
pub open spec fn spec_trim(s: Seq<char>) -> Seq<char> {
    trim_back(trim_front(s))
}

/// The fields of `s`: its maximal runs of non-whitespace characters, in
/// order. Any run of whitespace separates two fields and contributes
/// nothing, so the empty string, or one of whitespace alone, has no fields.
pub open spec fn spec_split(s: Seq<char>) -> Seq<Seq<char>>
    decreases s.len(),
{
    if s.len() == 0 {
        Seq::<Seq<char>>::empty()
    } else if is_space(s[0]) {
        spec_split(s.skip(1))
    } else if s.len() == 1 || is_space(s[1]) {
        seq![seq![s[0]]] + spec_split(s.skip(1))
    } else {
        seq![seq![s[0]] + spec_split(s.skip(1))[0]] + spec_split(s.skip(1)).skip(1)
    }
}

/// A string that opens with a field character splits into at least one
/// field.
pub proof fn lemma_split_head_token(s: Seq<char>)
    requires
        s.len() > 0,
        !is_space(s[0]),
    ensures
        spec_split(s).len() >= 1,
{
}

/// What splitting still owes while a scan stands in the middle of the
/// string: the field collected so far, if any, joined onto the fields of the
/// remainder — onto the remainder's first field when the remainder opens
/// with a field character, else as a finished field of its own.
spec fn split_rem(cur: Seq<char>, rest: Seq<char>) -> Seq<Seq<char>> {
    if cur.len() == 0 {
        spec_split(rest)
    } else if rest.len() > 0 && !is_space(rest[0]) {
        seq![cur + spec_split(rest)[0]] + spec_split(rest).skip(1)
    } else {
        seq![cur] + spec_split(rest)
    }
}

/// A decimal digit.
pub open spec fn is_digit(c: char) -> bool {
    48 <= c as int <= 57
}

/// The numeric value of a decimal digit.
pub open spec fn digit_val(c: char) -> int {
    c as int - 48
}

/// Whether every character of `t` is a decimal digit.
pub open spec fn all_digits(t: Seq<char>) -> bool {
    forall|i: int| 0 <= i < t.len() ==> is_digit(t[i])
}

/// The value of a digit string read as a decimal number, most significant
/// digit first. The empty string reads as zero.
pub open spec fn digits_val(t: Seq<char>) -> int
    decreases t.len(),
{
    if t.len() == 0 {
        0
    } else {
        digits_val(t.drop_last()) * 10 + digit_val(t.last())
    }
}

/// What parsing `t` as a signed 32-bit decimal integer yields: an optional
/// leading sign, then at least one digit and nothing else, with the value in
/// `i32` range; anything else is rejected. This is the acceptance behaviour
/// of std's `i32` parser, so a leading `+` and leading zeros are accepted.
pub open spec fn spec_parse_i32(t: Seq<char>) -> Option<int> {
    let sign: int = if t.len() > 0 && t[0] == '-' {
        -1
    } else {
        1
    };
    let mag: Seq<char> = if t.len() > 0 && (t[0] == '-' || t[0] == '+') {
        t.skip(1)
    } else {
        t
    };
    if mag.len() > 0 && all_digits(mag) && i32::MIN <= sign * digits_val(mag) <= i32::MAX {
        Some(sign * digits_val(mag))
    } else {
        None
    }
}

/// The character for a single decimal digit value.
pub open spec fn digit_char(d: int) -> char {
    ((48 + d) as u8) as char
}

/// The decimal digit string of a non-negative number, without a sign and
/// without leading zeros (zero itself is the single digit `0`).
pub open spec fn dec_digits(n: nat) -> Seq<char>
    decreases n,
{
    if n < 10 {
        seq![digit_char(n as int)]
    } else {
        dec_digits(n / 10).push(digit_char((n % 10) as int))
    }
}

/// The canonical decimal rendering of a signed number: a `-` before the
/// digits when it is negative.
pub open spec fn spec_fmt_i32(v: int) -> Seq<char> {
    if v < 0 {
        seq!['-'] + dec_digits((-v) as nat)
    } else {
        dec_digits(v as nat)
    }
}

pub proof fn lemma_digits_val_nonneg(t: Seq<char>)
    requires
        all_digits(t),
    ensures
        digits_val(t) >= 0,
    decreases t.len(),
{
    if t.len() > 0 {
        assert(all_digits(t.drop_last()));
        lemma_digits_val_nonneg(t.drop_last());
    }
}

/// Reading more digits never shrinks the value: the value of a digit string
/// is at least the value of any of its prefixes.
pub proof fn lemma_digits_val_take_le(t: Seq<char>, m: int)
    requires
        all_digits(t),
        0 <= m <= t.len(),
    ensures
        digits_val(t.take(m)) <= digits_val(t),
    decreases t.len() - m,
{
    if m < t.len() {
        assert(all_digits(t.drop_last()));
        assert(t.drop_last().take(m) =~= t.take(m));
        lemma_digits_val_take_le(t.drop_last(), m);
        lemma_digits_val_nonneg(t.drop_last());
        assert(digits_val(t.drop_last()) * 10 >= digits_val(t.drop_last()));
        assert(digit_val(t.last()) >= 0);
    } else {
        assert(t.take(m) =~= t);
    }
}

/// The decimal digit string of `n` is made of digits, has at least one of
/// them, starts with a digit, and reads back as `n`.
pub proof fn lemma_dec_digits_props(n: nat)
    ensures
        all_digits(dec_digits(n)),
        dec_digits(n).len() >= 1,
        is_digit(dec_digits(n)[0]),
        digits_val(dec_digits(n)) == n,
    decreases n,
{
    if n < 10 {
        let c = digit_char(n as int);
        let w = seq![c];
        assert(dec_digits(n) == w);
        assert(c as int == 48 + n);
        assert(w.drop_last() =~= Seq::<char>::empty());
        assert(digits_val(Seq::<char>::empty()) == 0);
        assert(w.last() == c);
        assert(digits_val(w) == digits_val(w.drop_last()) * 10 + digit_val(w.last()));
        assert(digit_val(c) == n);
    } else {
        lemma_dec_digits_props(n / 10);
        let d = digit_char((n % 10) as int);
        assert(d as int == 48 + (n % 10) as int);
        let w = dec_digits(n / 10).push(d);
        assert(dec_digits(n) == w);
        assert(w.drop_last() =~= dec_digits(n / 10));
        assert(w.last() == d);
        assert(forall|i: int|
            0 <= i < w.len() ==> is_digit(#[trigger] w[i])) by {
            assert(forall|i: int|
                0 <= i < w.len() - 1 ==> w[i] == dec_digits(n / 10)[i]);
        }
        assert(digits_val(w) == digits_val(w.drop_last()) * 10 + digit_val(w.last()));
        assert(digit_val(d) == n % 10);
        assert(digits_val(w) == (n / 10) * 10 + (n % 10));
        vstd::arithmetic::div_mod::lemma_fundamental_div_mod(n as int, 10);
        assert((n / 10) * 10 + (n % 10) == n);
        assert(w[0] == dec_digits(n / 10)[0]);
    }
}

/// Formatting a 32-bit value and parsing the result gives the value back:
/// the decimal grammar round-trips.
pub proof fn lemma_parse_fmt_i32(v: i32)
    ensures
        spec_parse_i32(spec_fmt_i32(v as int)) == Some(v as int),
{
    let f = spec_fmt_i32(v as int);
    if v < 0 {
        let dd = dec_digits((-(v as int)) as nat);
        lemma_dec_digits_props((-(v as int)) as nat);
        assert(f[0] == '-');
        assert(f.skip(1) =~= dd);
        lemma_digits_val_nonneg(dd);
    } else {
        lemma_dec_digits_props(v as nat);
        assert(is_digit(f[0]));
        assert(f[0] as int != 45 && f[0] as int != 43);
    }
}

/// No character of `t` is whitespace, so splitting cannot cut it.
pub open spec fn no_space(t: Seq<char>) -> bool {
    forall|i: int| 0 <= i < t.len() ==> !is_space(t[i])
}

/// A formatted number is at least one character, made of a sign and digits
/// only, so no character of it is whitespace: trimming and splitting leave it
/// whole.
pub proof fn lemma_fmt_i32_shape(v: int)
    ensures
        spec_fmt_i32(v).len() >= 1,
        no_space(spec_fmt_i32(v)),
        !is_space(spec_fmt_i32(v)[0]),
        !is_space(spec_fmt_i32(v).last()),
{
    let f = spec_fmt_i32(v);
    if v < 0 {
        let dd = dec_digits((-v) as nat);
        lemma_dec_digits_props((-v) as nat);
        assert(f =~= seq!['-'] + dd);
        assert(forall|i: int| 0 <= i < f.len() ==> !is_space(#[trigger] f[i])) by {
            assert(f[0] == '-');
            assert(forall|i: int| 1 <= i < f.len() ==> f[i] == dd[i - 1] && is_digit(dd[i - 1]));
        }
        assert(f.last() == dd.last());
        assert(is_digit(dd[dd.len() - 1]));
    } else {
        lemma_dec_digits_props(v as nat);
        assert(forall|i: int| 0 <= i < f.len() ==> is_digit(#[trigger] f[i]));
        assert(is_digit(f.last()));
    }
}

/// A non-empty string without whitespace splits into exactly itself.
pub proof fn lemma_split_no_space(t: Seq<char>)
    requires
        t.len() > 0,
        no_space(t),
    ensures
        spec_split(t) == seq![t],
    decreases t.len(),
{
    if t.len() == 1 {
        assert(t.skip(1) =~= Seq::<char>::empty());
        assert(spec_split(t.skip(1)) =~~= Seq::<Seq<char>>::empty());
        assert(seq![t[0]] =~= t);
        assert(spec_split(t) =~~= seq![t]);
    } else {
        assert(!is_space(t[1]));
        assert(no_space(t.skip(1)));
        lemma_split_no_space(t.skip(1));
        assert(seq![t[0]] + t.skip(1) =~= t);
        assert(spec_split(t) =~~= seq![t]);
    }
}

/// A space after a whitespace-free field cuts exactly there: the field
/// comes out first and the rest splits on its own.
pub proof fn lemma_split_field(t: Seq<char>, rest: Seq<char>)
    requires
        t.len() > 0,
        no_space(t),
    ensures
        spec_split(t + seq![' '] + rest) == seq![t] + spec_split(rest),
    decreases t.len(),
{
    let s = t + seq![' '] + rest;
    assert(s[0] == t[0]);
    assert(!is_space(s[0]));
    if t.len() == 1 {
        assert(s[1] == ' ');
        assert(is_space(s[1]));
        assert(s.skip(1) =~= seq![' '] + rest);
        assert((seq![' '] + rest).skip(1) =~= rest);
        assert(spec_split(seq![' '] + rest) == spec_split(rest));
        assert(spec_split(s) == seq![seq![s[0]]] + spec_split(s.skip(1)));
        assert(seq![s[0]] =~= t);
        assert(spec_split(s) =~~= seq![t] + spec_split(rest));
    } else {
        assert(s[1] == t[1]);
        assert(!is_space(s[1]));
        assert(s.skip(1) =~= t.skip(1) + seq![' '] + rest);
        assert(no_space(t.skip(1)));
        lemma_split_field(t.skip(1), rest);
        assert(spec_split(s) == seq![seq![s[0]] + spec_split(s.skip(1))[0]] + spec_split(
            s.skip(1),
        ).skip(1));
        assert(spec_split(s.skip(1))[0] == t.skip(1));
        assert(spec_split(s.skip(1)).skip(1) =~~= spec_split(rest));
        assert(seq![s[0]] + t.skip(1) =~= t);
        assert(spec_split(s) =~~= seq![t] + spec_split(rest));
    }
}

/// A string whose edges are not whitespace is already trimmed.
pub proof fn lemma_trim_no_edge_space(s: Seq<char>)
    requires
        s.len() == 0 || (!is_space(s[0]) && !is_space(s.last())),
    ensures
        spec_trim(s) == s,
{
}

proof fn lemma_trim_front_skip(s: Seq<char>, i: int)
    requires
        0 <= i <= s.len(),
        forall|k: int| 0 <= k < i ==> is_space(s[k]),
        i < s.len() ==> !is_space(s[i]),
    ensures
        trim_front(s) == s.skip(i),
    decreases i,
{
    if i == 0 {
        assert(s.skip(0) =~= s);
    } else {
        assert(is_space(s[0]));
        lemma_trim_front_skip(s.skip(1), i - 1);
        assert(s.skip(1).skip(i - 1) =~= s.skip(i));
    }
}

proof fn lemma_trim_back_take(s: Seq<char>, j: int)
    requires
        0 <= j <= s.len(),
        forall|k: int| j <= k < s.len() ==> is_space(s[k]),
        j > 0 ==> !is_space(s[j - 1]),
    ensures
        trim_back(s) == s.take(j),
    decreases s.len() - j,
{
    if j == s.len() {
        assert(s.take(j) =~= s);
    } else {
        assert(is_space(s.last()));
        assert(s.drop_last() =~= s.take(s.len() - 1));
        lemma_trim_back_take(s.drop_last(), j);
        assert(s.drop_last().take(j) =~= s.take(j));
    }
}

/// Whether `c` is whitespace to the line grammars.
pub fn is_space_char(c: char) -> (b: bool)
    ensures
        b == is_space(c),
{
    c == ' ' || c == '\t' || c == '\n' || c == '\r' || c == '\x0B' || c == '\x0C'
}

/// `s` without its leading and trailing whitespace.
pub fn trim_str<'a>(s: &'a str) -> (r: &'a str)
    ensures
        r@ == spec_trim(s@),
{
    let n = s.unicode_len();
    let mut i: usize = 0;
    while i < n && is_space_char(s.get_char(i))
        invariant
            n == s@.len(),
            0 <= i <= n,
            forall|k: int| 0 <= k < i ==> is_space(s@[k]),
        decreases n - i,
    {
        i = i + 1;
    }
    let mut j: usize = n;
    while j > i && is_space_char(s.get_char(j - 1))
        invariant
            n == s@.len(),
            i <= j <= n,
            forall|k: int| j <= k < n ==> is_space(s@[k]),
        decreases j,
    {
        j = j - 1;
    }
    proof {
        lemma_trim_front_skip(s@, i as int);
        let t = s@.skip(i as int);
        lemma_trim_back_take(t, j - i);
        assert(t.take(j - i) =~= s@.subrange(i as int, j as int));
    }
    s.substring_char(i, j)
}

/// The fields of `s`: its maximal runs of non-whitespace characters, in
/// order.
pub fn split_spaces(s: &str) -> (tokens: Vec<String>)
    ensures
        tokens.deep_view() == spec_split(s@),
{
    let n = s.unicode_len();
    let mut tokens: Vec<String> = Vec::new();
    let mut cur: String = String::new();
    proof {
        assert(s@.skip(0) =~= s@);
        assert(tokens.deep_view() =~= Seq::<Seq<char>>::empty());
        assert(spec_split(s@) =~~= tokens.deep_view() + split_rem(cur@, s@.skip(0)));
    }
    let mut k: usize = 0;
    while k < n
        invariant
            n == s@.len(),
            0 <= k <= n,
            spec_split(s@) == tokens.deep_view() + split_rem(cur@, s@.skip(k as int)),
        decreases n - k,
    {
        let ghost rest = s@.skip(k as int);
        let ghost rest2 = s@.skip(k + 1);
        proof {
            assert(rest.skip(1) =~= rest2);
            assert(rest[0] == s@[k as int]);
        }
        let c = s.get_char(k);
        if is_space_char(c) {
            if cur.as_str().unicode_len() > 0 {
                let ghost old_tokens = tokens.deep_view();
                let ghost old_cur = cur@;
                tokens.push(cur);
                cur = String::new();
                proof {
                    assert(tokens.deep_view() =~~= old_tokens.push(old_cur));
                    assert(spec_split(rest) == spec_split(rest2));
                    assert(split_rem(old_cur, rest) =~~= seq![old_cur] + spec_split(rest2));
                    assert(split_rem(cur@, rest2) =~~= spec_split(rest2));
                    assert(spec_split(s@) =~~= tokens.deep_view() + split_rem(cur@, rest2));
                }
            } else {
                proof {
                    assert(cur@.len() == 0);
                    assert(split_rem(cur@, rest) == spec_split(rest));
                    assert(spec_split(rest) == spec_split(rest2));
                    assert(spec_split(s@) =~~= tokens.deep_view() + split_rem(cur@, rest2));
                }
            }
        } else {
            let ghost old_cur = cur@;
            cur.push(c);
            proof {
                assert(cur@ =~= old_cur + seq![c]);
                if k + 1 < n && !is_space(s@[k + 1]) {
                    assert(rest.len() > 1 && rest[1] == s@[k + 1]);
                    assert(!is_space(rest[1]));
                    assert(spec_split(rest) == seq![seq![c] + spec_split(rest.skip(1))[0]]
                        + spec_split(rest.skip(1)).skip(1));
                    lemma_split_head_token(rest2);
                    assert(spec_split(rest)[0] == seq![c] + spec_split(rest2)[0]);
                    assert(spec_split(rest).skip(1) =~~= spec_split(rest2).skip(1));
                    if old_cur.len() == 0 {
                        assert(cur@ + spec_split(rest2)[0] =~= seq![c] + spec_split(rest2)[0]);
                        assert(split_rem(old_cur, rest) =~~= split_rem(cur@, rest2));
                    } else {
                        assert(old_cur + spec_split(rest)[0] =~= cur@ + spec_split(rest2)[0]);
                        assert(split_rem(old_cur, rest) =~~= split_rem(cur@, rest2));
                    }
                } else {
                    assert(rest.len() == 1 || is_space(rest[1]));
                    assert(spec_split(rest) == seq![seq![c]] + spec_split(rest.skip(1)));
                    assert(spec_split(rest.skip(1)) == spec_split(rest2));
                    if old_cur.len() == 0 {
                        assert(cur@ =~= seq![c]);
                        assert(split_rem(old_cur, rest) =~~= seq![cur@] + spec_split(rest2));
                    } else {
                        assert(spec_split(rest)[0] == seq![c]);
                        assert(spec_split(rest).skip(1) =~~= spec_split(rest2));
                        assert(old_cur + seq![c] =~= cur@);
                        assert(split_rem(old_cur, rest) =~~= seq![cur@] + spec_split(rest2));
                    }
                    assert(rest2.len() == 0 || is_space(rest2[0]));
                    assert(split_rem(cur@, rest2) =~~= seq![cur@] + spec_split(rest2));
                }
                assert(spec_split(s@) =~~= tokens.deep_view() + split_rem(cur@, rest2));
            }
        }
        k = k + 1;
    }
    proof {
        assert(s@.skip(n as int) =~= Seq::<char>::empty());
        assert(spec_split(Seq::<char>::empty()) =~~= Seq::<Seq<char>>::empty());
    }
    if cur.as_str().unicode_len() > 0 {
        let ghost old_tokens = tokens.deep_view();
        let ghost last = cur@;
        tokens.push(cur);
        proof {
            assert(split_rem(last, s@.skip(n as int)) =~~= seq![last]);
            assert(tokens.deep_view() =~~= old_tokens.push(last));
            assert(spec_split(s@) =~~= tokens.deep_view());
        }
    } else {
        proof {
            assert(cur@.len() == 0);
            assert(split_rem(cur@, s@.skip(n as int)) =~~= Seq::<Seq<char>>::empty());
            assert(spec_split(s@) =~~= tokens.deep_view());
        }
    }
    tokens
}

/// `t` read as a signed 32-bit decimal integer, exactly as the decimal
/// grammar defines it.
#[verifier::rlimit(50)]
pub fn parse_i32(t: &str) -> (r: Option<i32>)
    ensures
        r is Some <==> spec_parse_i32(t@) is Some,
        r matches Some(v) ==> spec_parse_i32(t@) == Some(v as int),
{
    let n = t.unicode_len();
    if n == 0 {
        return None;
    }
    let c0 = t.get_char(0);
    let neg = c0 == '-';
    let has_sign = c0 == '-' || c0 == '+';
    let start: usize = if has_sign {
        1
    } else {
        0
    };
    if start == n {
        return None;
    }
    proof {
        assert(t@.skip(0) =~= t@);
    }
    let ghost mag: Seq<char> = t@.skip(start as int);
    let mut acc: u64 = 0;
    let mut i: usize = start;
    while i < n
        invariant
            n == t@.len(),
            start <= i <= n,
            start <= 1,
            has_sign == (t@[0] == '-' || t@[0] == '+'),
            has_sign ==> start == 1,
            !has_sign ==> start == 0,
            neg == (t@[0] == '-'),
            mag == t@.skip(start as int),
            all_digits(mag.take(i - start)),
            acc == digits_val(mag.take(i - start)),
            acc <= 0xFFFF_FFFF,
        decreases n - i,
    {
        let c = t.get_char(i);
        let u = c as u32;
        proof {
            assert(mag[i - start] == c);
        }
        if u < 48 || u > 57 {
            proof {
                assert(t@.skip(0) =~= t@);
                assert(!is_digit(mag[i - start]));
                assert(!all_digits(mag));
                assert(spec_parse_i32(t@) is None);
            }
            return None;
        }
        let d = (u - 48) as u64;
        let acc2 = acc * 10 + d;
        let ghost prefix = mag.take(i - start);
        let ghost prefix2 = mag.take(i + 1 - start);
        proof {
            assert(prefix2.drop_last() =~= prefix);
            assert(prefix2.last() == c);
            assert(digits_val(prefix2) == digits_val(prefix) * 10 + digit_val(c));
            assert(digit_val(c) == d as int);
            assert(digits_val(prefix2) == acc * 10 + d);
        }
        if acc2 > 0xFFFF_FFFF {
            proof {
                assert(t@.skip(0) =~= t@);
                if all_digits(mag) {
                    lemma_digits_val_take_le(mag, i + 1 - start);
                    assert(digits_val(prefix2) == acc2);
                    assert(digits_val(mag) >= acc2);
                    assert(digits_val(mag) > 0xFFFF_FFFF);
                    assert((-1) * digits_val(mag) == -digits_val(mag));
                    assert(-digits_val(mag) < i32::MIN);
                    assert(!(i32::MIN <= 1 * digits_val(mag) <= i32::MAX));
                    assert(!(i32::MIN <= (-1) * digits_val(mag) <= i32::MAX));
                }
                assert(spec_parse_i32(t@) is None);
            }
            return None;
        }
        acc = acc2;
        i = i + 1;
    }
    proof {
        assert(t@.skip(0) =~= t@);
        assert(mag.take(n - start) =~= mag);
        assert(all_digits(mag));
        assert(acc == digits_val(mag));
        assert(mag.len() > 0);
        lemma_digits_val_nonneg(mag);
    }
    if neg {
        if acc > 2147483648u64 {
            proof {
                assert((-1) * digits_val(mag) == -(acc as int));
                assert((-1) * digits_val(mag) < i32::MIN);
                assert(spec_parse_i32(t@) is None);
            }
            None
        } else if acc == 2147483648u64 {
            proof {
                assert((-1) * digits_val(mag) == -(acc as int));
                assert(spec_parse_i32(t@) == Some((-1) * digits_val(mag)));
                assert(spec_parse_i32(t@) == Some(i32::MIN as int));
            }
            Some(i32::MIN)
        } else {
            proof {
                assert((-1) * digits_val(mag) == -(acc as int));
                assert(i32::MIN <= (-1) * digits_val(mag) <= i32::MAX);
                assert(spec_parse_i32(t@) == Some(-(acc as int)));
            }
            Some(-(acc as i32))
        }
    } else {
        if acc > 2147483647u64 {
            proof {
                assert(1 * digits_val(mag) == acc as int);
                assert(1 * digits_val(mag) > i32::MAX);
                assert(spec_parse_i32(t@) is None);
            }
            None
        } else {
            proof {
                assert(1 * digits_val(mag) == acc as int);
                assert(i32::MIN <= 1 * digits_val(mag) <= i32::MAX);
                assert(spec_parse_i32(t@) == Some(acc as int));
            }
            Some(acc as i32)
        }
    }
}

/// Appends the decimal digits of `m` to `s`.
pub fn push_dec_u64(s: &mut String, m: u64)
    ensures
        final(s)@ == old(s)@ + dec_digits(m as nat),
{
    if m == 0 {
        s.push('0');
        proof {
            assert(dec_digits(0) =~= seq![digit_char(0)]);
            assert(digit_char(0) == '0');
            assert(old(s)@.push('0') =~= old(s)@ + dec_digits(0));
        }
        return;
    }
    let mut rev: Vec<char> = Vec::new();
    let mut cur = m;
    while cur > 0
        invariant
            cur > 0 ==> dec_digits(m as nat) == dec_digits(cur as nat) + rev@.reverse(),
            cur == 0 ==> dec_digits(m as nat) == rev@.reverse(),
        decreases cur,
    {
        let d8 = (cur % 10) as u8;
        let ch: char = (48u8 + d8) as char;
        let ghost old_rev = rev@;
        rev.push(ch);
        let next = cur / 10;
        proof {
            assert(ch == digit_char((cur % 10) as int));
            assert(rev@.reverse() =~= seq![ch] + old_rev.reverse());
            if next > 0 {
                assert(dec_digits(cur as nat) == dec_digits((cur as nat) / 10).push(
                    digit_char(((cur as nat) % 10) as int)));
                assert(dec_digits((cur as nat) / 10).push(ch) =~= dec_digits((cur as nat) / 10)
                    + seq![ch]);
                assert(dec_digits((next as nat)) + rev@.reverse() =~= dec_digits(cur as nat)
                    + old_rev.reverse());
            } else {
                assert(cur < 10);
                assert(dec_digits(cur as nat) == seq![ch]);
                assert(dec_digits(cur as nat) + old_rev.reverse() =~= rev@.reverse());
            }
        }
        cur = next;
    }
    let len = rev.len();
    let mut k: usize = len;
    while k > 0
        invariant
            len == rev.len(),
            0 <= k <= len,
            dec_digits(m as nat) == rev@.reverse(),
            s@ == old(s)@ + rev@.reverse().take(len - k),
        decreases k,
    {
        k = k - 1;
        let ghost before = s@;
        s.push(rev[k]);
        proof {
            assert(rev@.reverse()[len - k - 1] == rev@[k as int]);
            assert(rev@.reverse().take(len - k) =~= rev@.reverse().take(len - k - 1).push(
                rev@[k as int]));
            assert(s@ =~= old(s)@ + rev@.reverse().take(len - k));
        }
    }
    proof {
        assert(rev@.reverse().take(len as int) =~= rev@.reverse());
    }
}

/// The canonical decimal rendering of `v`, matching `spec_fmt_i32`.
pub fn fmt_i32(v: i32) -> (s: String)
    ensures
        s@ == spec_fmt_i32(v as int),
{
    let mut s = String::new();
    if v < 0 {
        s.push('-');
        let mag: u64 = (-(v as i64)) as u64;
        proof {
            assert(mag as int == -(v as int));
        }
        push_dec_u64(&mut s, mag);
        proof {
            assert(Seq::<char>::empty().push('-') =~= seq!['-']);
            assert(s@ =~= seq!['-'] + dec_digits((-(v as int)) as nat));
        }
    } else {
        push_dec_u64(&mut s, v as u64);
        proof {
            assert(Seq::<char>::empty() + dec_digits(v as nat) =~= dec_digits(v as nat));
        }
    }
    s
}

/// The decimal rendering of an unsigned count.
pub fn fmt_usize(v: usize) -> (s: String)
    ensures
        s@ == dec_digits(v as nat),
{
    let mut s = String::new();
    push_dec_u64(&mut s, v as u64);
    proof {
        assert(Seq::<char>::empty() + dec_digits(v as nat) =~= dec_digits(v as nat));
    }
    s
}

} // verus!
