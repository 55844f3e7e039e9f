//! Text primitives: equality, search, replacement, decimal numbers and hex.

use vstd::prelude::*;

verus! {

/// `pat` stands in `s` at position `i`.
pub open spec fn occurs_at(s: Seq<char>, pat: Seq<char>, i: int) -> bool {
    &&& 0 <= i
    &&& i + pat.len() <= s.len()
    &&& s.subrange(i, i + pat.len()) == pat
}

/// `pat` stands somewhere in `s`.
pub open spec fn contains_text(s: Seq<char>, pat: Seq<char>) -> bool {
    exists|i: int| occurs_at(s, pat, i)
}

/// `s` with every occurrence of `pat` replaced by `with`, taken from the left
/// and without overlap.
pub open spec fn replaced(s: Seq<char>, pat: Seq<char>, with: Seq<char>) -> Seq<char>
    decreases s.len(),
{
    if pat.len() == 0 || s.len() < pat.len() {
        s
    } else if occurs_at(s, pat, 0) {
        with + replaced(s.skip(pat.len() as int), pat, with)
    } else {
        seq![s[0]] + replaced(s.skip(1), pat, with)
    }
}

pub open spec fn is_digit(c: char) -> bool {
    '0' <= c <= '9'
}

/// The value of a run of decimal digits, most significant first.
pub open spec fn decimal_value(digits: Seq<char>) -> nat
    decreases digits.len(),
{
    if digits.len() == 0 {
        0
    } else {
        decimal_value(digits.drop_last()) * 10 + (digits.last() as nat - '0' as nat) as nat
    }
}

/// The decimal text of a number, without leading zeros.
pub open spec fn decimal_of(n: nat) -> Seq<char>
    decreases n,
{
    if n < 10 {
        seq![hex_digit(n as int)]
    } else {
        decimal_of(n / 10).push(hex_digit(n as int % 10))
    }
}

/// The decimal text of an integer: a negative one has a `-` in front.
pub open spec fn signed_decimal_of(n: int) -> Seq<char> {
    if n < 0 {
        seq!['-'] + decimal_of((-n) as nat)
    } else {
        decimal_of(n as nat)
    }
}

/// The digits of an unsigned number's text: an optional `+` is dropped.
pub open spec fn unsigned_digits(s: Seq<char>) -> Seq<char> {
    if s.len() > 0 && s[0] == '+' {
        s.skip(1)
    } else {
        s
    }
}

/// What `s` reads as: an optional `+` and then decimal digits alone, at least
/// one of them, with a value that a `u32` holds.
pub open spec fn u32_of(s: Seq<char>) -> Option<u32> {
    let digits = unsigned_digits(s);
    if digits.len() > 0 && (forall|i: int| 0 <= i < digits.len() ==> is_digit(#[trigger] digits[i]))
        && decimal_value(digits) <= u32::MAX {
        Some(decimal_value(digits) as u32)
    } else {
        None
    }
}

/// The lower-case hex digit of a value below sixteen.
pub open spec fn hex_digit(n: int) -> char {
    "0123456789abcdef"@[n]
}

/// Two lower-case hex digits for each byte, in order.
pub open spec fn hex_of(bytes: Seq<u8>) -> Seq<char> {
    Seq::new(
        2 * bytes.len(),
        |i: int|
            if i % 2 == 0 {
                hex_digit(bytes[i / 2] as int / 16)
            } else {
                hex_digit(bytes[i / 2] as int % 16)
            },
    )
}

/// `String::push` appends one character to the end of the text.
pub assume_specification[ String::push ](s: &mut String, c: char)
    ensures
        final(s)@ == old(s)@.push(c),
;

/// The characters of `s`.
pub fn chars_of(s: &str) -> (v: Vec<char>)
    ensures
        v@ == s@,
{
    let mut v: Vec<char> = Vec::new();
    for c in it: s.chars()
        invariant
            v@ == it.seq().take(it.index()),
            it.seq() == s@,
    {
        v.push(c);
    }
    v
}

/// Whether two texts are the same.
pub fn same_text(a: &str, b: &str) -> (same: bool)
    ensures
        same == (a@ == b@),
{
    a.to_owned() == b.to_owned()
}

/// Whether `pat` stands in `s` at position `i`.
fn matches_at(s: &Vec<char>, pat: &Vec<char>, i: usize) -> (found: bool)
    requires
        i <= s.len(),
    ensures
        found == occurs_at(s@, pat@, i as int),
{
    if s.len() - i < pat.len() {
        return false;
    }
    let mut k: usize = 0;
    while k < pat.len()
        invariant
            i + pat.len() <= s.len(),
            k <= pat.len(),
            s@.subrange(i as int, i + k) == pat@.take(k as int),
        decreases pat.len() - k,
    {
        if s[i + k] != pat[k] {
            assert(s@.subrange(i as int, i + pat.len())[k as int] != pat@[k as int]);
            return false;
        }
        assert(s@.subrange(i as int, i + k + 1) =~= s@.subrange(i as int, i + k).push(
            s@[i + k],
        ));
        assert(pat@.take(k + 1) =~= pat@.take(k as int).push(pat@[k as int]));
        k = k + 1;
    }
    assert(pat@.take(pat.len() as int) =~= pat@);
    true
}

/// Whether `pat` stands somewhere in `s`.
pub fn contains(s: &str, pat: &str) -> (found: bool)
    ensures
        found == contains_text(s@, pat@),
{
    let s_chars = chars_of(s);
    let pat_chars = chars_of(pat);
    let mut i: usize = 0;
    while i < s_chars.len()
        invariant
            s_chars@ == s@,
            pat_chars@ == pat@,
            i <= s_chars.len(),
            forall|j: int| 0 <= j < i ==> !occurs_at(s@, pat@, j),
        decreases s_chars.len() - i,
    {
        if matches_at(&s_chars, &pat_chars, i) {
            return true;
        }
        i = i + 1;
    }
    let at_end = matches_at(&s_chars, &pat_chars, i);
    assert(at_end == contains_text(s@, pat@)) by {
        assert(forall|j: int| occurs_at(s@, pat@, j) ==> 0 <= j <= s@.len());
    }
    at_end
}

/// Whether `s` begins with `pat`.
pub fn starts_with(s: &str, pat: &str) -> (found: bool)
    ensures
        found == occurs_at(s@, pat@, 0),
{
    let s_chars = chars_of(s);
    let pat_chars = chars_of(pat);
    matches_at(&s_chars, &pat_chars, 0)
}

/// `s` with every occurrence of `pat` replaced by `with`, taken from the left
/// and without overlap.
pub fn replace_all(s: &str, pat: &str, with: &str) -> (out: String)
    requires
        pat@.len() > 0,
    ensures
        out@ == replaced(s@, pat@, with@),
{
    let s_chars = chars_of(s);
    let pat_chars = chars_of(pat);
    let mut out = String::new();
    let mut i: usize = 0;
    assert(s@.skip(0) =~= s@);
    while i < s_chars.len()
        invariant
            s_chars@ == s@,
            pat_chars@ == pat@,
            pat@.len() > 0,
            i <= s_chars.len(),
            out@ + replaced(s@.skip(i as int), pat@, with@) == replaced(s@, pat@, with@),
        decreases s_chars.len() - i,
    {
        let ghost rest = s@.skip(i as int);
        assert(occurs_at(s@, pat@, i as int) == occurs_at(rest, pat@, 0)) by {
            if i + pat@.len() <= s@.len() {
                assert(rest.subrange(0, pat@.len() as int) =~= s@.subrange(
                    i as int,
                    i + pat@.len(),
                ));
            }
        }
        let ghost before = out@;
        if matches_at(&s_chars, &pat_chars, i) {
            out.append(with);
            assert(rest.skip(pat@.len() as int) =~= s@.skip(i + pat@.len()));
            assert(out@ + replaced(s@.skip(i + pat@.len()), pat@, with@) =~= before + (with@
                + replaced(rest.skip(pat@.len() as int), pat@, with@)));
            i = i + pat_chars.len();
        } else {
            out.push(s_chars[i]);
            assert(rest.skip(1) =~= s@.skip(i + 1));
            assert(replaced(rest, pat@, with@) =~= seq![rest[0]] + replaced(
                rest.skip(1),
                pat@,
                with@,
            )) by {
                if rest.len() < pat@.len() {
                    assert(rest =~= seq![rest[0]] + rest.skip(1));
                }
            }
            assert(out@ + replaced(s@.skip(i + 1), pat@, with@) =~= before + (seq![rest[0]]
                + replaced(rest.skip(1), pat@, with@)));
            i = i + 1;
        }
    }
    assert(s@.skip(i as int) =~= Seq::<char>::empty());
    assert(out@ + replaced(s@.skip(i as int), pat@, with@) =~= out@);
    out
}

proof fn lemma_decimal_value_grows(digits: Seq<char>, n: int)
    requires
        0 <= n <= digits.len(),
    ensures
        decimal_value(digits.take(n)) <= decimal_value(digits),
    decreases digits.len(),
{
    if n < digits.len() {
        lemma_decimal_value_grows(digits.drop_last(), n);
        assert(digits.drop_last().take(n) =~= digits.take(n));
    } else {
        assert(digits.take(n) =~= digits);
    }
}

/// Reads an unsigned decimal number, as `u32_of` says.
pub fn parse_u32(s: &str) -> (n: Option<u32>)
    ensures
        n == u32_of(s@),
{
    let chars = chars_of(s);
    let start: usize = if chars.len() > 0 && chars[0] == '+' {
        1
    } else {
        0
    };
    let ghost digits = unsigned_digits(s@);
    assert(digits =~= s@.skip(start as int));
    if chars.len() == start {
        return None;
    }
    let mut value: u32 = 0;
    let mut i: usize = start;
    while i < chars.len()
        invariant
            chars@ == s@,
            start <= i <= chars.len(),
            digits == s@.skip(start as int),
            digits == unsigned_digits(s@),
            forall|j: int| 0 <= j < i - start ==> is_digit(#[trigger] digits[j]),
            value == decimal_value(digits.take(i - start)),
        decreases chars.len() - i,
    {
        let c = chars[i];
        assert(digits[i - start] == c);
        if c < '0' || c > '9' {
            return None;
        }
        let ghost k = i - start;
        assert(digits.take(k + 1).drop_last() =~= digits.take(k));
        let d: u32 = c as u32 - '0' as u32;
        proof {
            lemma_decimal_value_grows(digits, k + 1);
        }
        match value.checked_mul(10) {
            None => {
                return None;
            },
            Some(tens) => match tens.checked_add(d) {
                None => {
                    return None;
                },
                Some(next) => {
                    value = next;
                },
            },
        }
        i = i + 1;
    }
    assert(digits.take(digits.len() as int) =~= digits);
    Some(value)
}

fn hex_char(n: u8) -> (c: char)
    requires
        n < 16,
    ensures
        c == hex_digit(n as int),
{
    proof {
        reveal_strlit("0123456789abcdef");
    }
    "0123456789abcdef".get_char(n as usize)
}

/// Appends the lower-case hex text of the first `count` bytes.
pub fn push_hex(out: &mut String, bytes: &[u8], count: usize)
    requires
        count <= bytes@.len(),
    ensures
        final(out)@ == old(out)@ + hex_of(bytes@.take(count as int)),
{
    let mut i: usize = 0;
    assert(hex_of(bytes@.take(0)) =~= Seq::<char>::empty());
    while i < count
        invariant
            i <= count <= bytes@.len(),
            out@ == old(out)@ + hex_of(bytes@.take(i as int)),
        decreases count - i,
    {
        let ghost before = out@;
        out.push(hex_char(bytes[i] / 16));
        out.push(hex_char(bytes[i] % 16));
        assert(hex_of(bytes@.take(i + 1)) =~= hex_of(bytes@.take(i as int)).push(
            hex_digit(bytes@[i as int] as int / 16),
        ).push(hex_digit(bytes@[i as int] as int % 16)));
        i = i + 1;
    }
}

/// The decimal text of a number.
pub fn decimal(n: u64) -> (text: String)
    ensures
        text@ == decimal_of(n as nat),
    decreases n,
{
    let mut text = if n < 10 {
        String::new()
    } else {
        decimal(n / 10)
    };
    text.push(hex_char((n % 10) as u8));
    assert(n < 10 ==> text@ =~= decimal_of(n as nat));
    text
}

/// The decimal text of an integer.
pub fn signed_decimal(n: i32) -> (text: String)
    ensures
        text@ == signed_decimal_of(n as int),
{
    if n < 0 {
        proof {
            reveal_strlit("-");
            assert("-"@ =~= seq!['-']);
        }
        "-".to_owned().concat(decimal((-(n as i64)) as u64).as_str())
    } else {
        decimal(n as u64)
    }
}

/// A pattern stands at a position exactly when each of its characters stands
/// there, one behind the other.
pub proof fn law_a_pattern_stands_where_its_characters_do(s: Seq<char>, pat: Seq<char>, i: int)
    requires
        0 <= i,
        i + pat.len() <= s.len(),
    ensures
        occurs_at(s, pat, i) <==> forall|k: int|
            0 <= k < pat.len() ==> #[trigger] s[i + k] == pat[k],
{
    let part = s.subrange(i, i + pat.len());
    if occurs_at(s, pat, i) {
        assert forall|k: int| 0 <= k < pat.len() implies #[trigger] s[i + k] == pat[k] by {
            assert(part[k] == s[i + k]);
        }
    }
    if forall|k: int| 0 <= k < pat.len() ==> #[trigger] s[i + k] == pat[k] {
        assert forall|k: int| 0 <= k < pat.len() implies part[k] == pat[k] by {
            assert(s[i + k] == pat[k]);
        }
        assert(part =~= pat);
    }
}

/// A text contains what it is put together from, whatever stands around it;
/// and what it contains, it can be put together from.
pub proof fn law_a_text_contains_its_parts(
    before: Seq<char>,
    pat: Seq<char>,
    behind: Seq<char>,
    s: Seq<char>,
)
    ensures
        contains_text(before + pat + behind, pat),
        contains_text(s, pat) ==> exists|i: int|
            0 <= i <= s.len() - pat.len() && s == #[trigger] s.take(i) + pat + s.skip(
                i + pat.len(),
            ),
{
    let all = before + pat + behind;
    let at = before.len() as int;
    assert(all.subrange(at, at + pat.len()) =~= pat);
    assert(occurs_at(all, pat, at));
    if contains_text(s, pat) {
        let i = choose|i: int| occurs_at(s, pat, i);
        assert(s =~= s.take(i) + s.subrange(i, i + pat.len()) + s.skip(i + pat.len()));
    }
}

/// Where a pattern does not stand, nothing is replaced. Where it stands first
/// behind `before`, all up to there stays, the replacement follows, and the
/// rest is gone over from behind the pattern.
pub proof fn law_replacement_goes_from_left_to_right(
    before: Seq<char>,
    pat: Seq<char>,
    behind: Seq<char>,
    with: Seq<char>,
    s: Seq<char>,
)
    requires
        pat.len() > 0,
        forall|i: int| 0 <= i < before.len() ==> !occurs_at(before + pat + behind, pat, i),
    ensures
        replaced(before + pat + behind, pat, with) == before + with + replaced(behind, pat, with),
        !contains_text(s, pat) ==> replaced(s, pat, with) == s,
    decreases before.len() + s.len(),
{
    let all = before + pat + behind;
    if before.len() == 0 {
        assert(all =~= pat + behind);
        assert(all.subrange(0, pat.len() as int) =~= pat);
        assert(all.skip(pat.len() as int) =~= behind);
        assert(before + with + replaced(behind, pat, with) =~= with + replaced(behind, pat, with));
    } else {
        let rest = before.skip(1);
        assert(all.skip(1) =~= rest + pat + behind);
        assert forall|i: int| 0 <= i < rest.len() implies !occurs_at(
            rest + pat + behind,
            pat,
            i,
        ) by {
            if occurs_at(rest + pat + behind, pat, i) {
                assert(all.subrange(i + 1, i + 1 + pat.len()) =~= (rest + pat + behind).subrange(
                    i,
                    i + pat.len(),
                ));
                assert(occurs_at(all, pat, i + 1));
            }
        }
        law_replacement_goes_from_left_to_right(rest, pat, behind, with, Seq::empty());
        assert(!occurs_at(all, pat, 0));
        assert(seq![all[0]] + (rest + with + replaced(behind, pat, with)) =~= before + with
            + replaced(behind, pat, with));
    }
    if !contains_text(s, pat) {
        lemma_nothing_replaced(s, pat, with);
    }
}

proof fn lemma_nothing_replaced(s: Seq<char>, pat: Seq<char>, with: Seq<char>)
    requires
        !contains_text(s, pat),
    ensures
        replaced(s, pat, with) == s,
    decreases s.len(),
{
    if pat.len() > 0 && s.len() >= pat.len() {
        assert(!occurs_at(s, pat, 0));
        let rest = s.skip(1);
        if contains_text(rest, pat) {
            let i = choose|i: int| occurs_at(rest, pat, i);
            assert(s.subrange(i + 1, i + 1 + pat.len()) =~= rest.subrange(i, i + pat.len()));
            assert(occurs_at(s, pat, i + 1));
        }
        lemma_nothing_replaced(rest, pat, with);
        assert(seq![s[0]] + rest =~= s);
    }
}

/// The digits stand in their order: `0` to `9` for the values below ten, `a` to
/// `f` for those above.
pub proof fn law_digits_have_their_values(n: int)
    requires
        0 <= n < 16,
    ensures
        n < 10 ==> hex_digit(n) as int == '0' as int + n,
        n >= 10 ==> hex_digit(n) as int == 'a' as int + n - 10,
{
    reveal_strlit("0123456789abcdef");
    let all = "0123456789abcdef"@;
    assert(all[0] == '0' && all[1] == '1' && all[2] == '2' && all[3] == '3' && all[4] == '4'
        && all[5] == '5' && all[6] == '6' && all[7] == '7');
    assert(all[8] == '8' && all[9] == '9' && all[10] == 'a' && all[11] == 'b' && all[12] == 'c'
        && all[13] == 'd' && all[14] == 'e' && all[15] == 'f');
}

/// The decimal text of a number is the one text of digits without a leading
/// zero that has its value.
pub proof fn law_a_number_reads_back(n: nat)
    ensures
        decimal_of(n).len() > 0,
        decimal_value(decimal_of(n)) == n,
        forall|i: int| 0 <= i < decimal_of(n).len() ==> is_digit(#[trigger] decimal_of(n)[i]),
        n > 0 ==> decimal_of(n)[0] != '0',
        n <= u32::MAX ==> u32_of(decimal_of(n)) == Some(n as u32),
    decreases n,
{
    law_digits_have_their_values(n as int % 10);
    let text = decimal_of(n);
    if n < 10 {
        assert(text.drop_last() =~= Seq::empty());
        reveal_with_fuel(decimal_value, 2);
    } else {
        law_a_number_reads_back(n / 10);
        assert(text.drop_last() =~= decimal_of(n / 10));
        assert forall|i: int| 0 <= i < text.len() implies is_digit(#[trigger] text[i]) by {
            if i < text.len() - 1 {
                assert(text[i] == decimal_of(n / 10)[i]);
            }
        }
        assert(text[0] == decimal_of(n / 10)[0]);
    }
    assert(is_digit(text[0]));
    assert(unsigned_digits(text) == text);
}

/// A text reads as a number only if it is digits, at least one, behind at most
/// one plus sign; the sign changes nothing, and a leading zero neither.
pub proof fn law_only_digits_read_as_a_number(s: Seq<char>)
    ensures
        u32_of(Seq::empty()) is None,
        u32_of(s) is Some ==> s.len() > 0 && (is_digit(s[0]) || (s[0] == '+' && s.len() > 1))
            && forall|i: int| 1 <= i < s.len() ==> is_digit(#[trigger] s[i]),
        s.len() > 0 && s[0] != '+' ==> u32_of(seq!['+'] + s) == u32_of(s),
        u32_of(s) matches Some(n) ==> n == decimal_value(
            if s[0] == '+' {
                s.skip(1)
            } else {
                s
            },
        ),
{
    let digits = unsigned_digits(s);
    if u32_of(s) is Some {
        assert(is_digit(digits[0]));
        assert forall|i: int| 1 <= i < s.len() implies is_digit(#[trigger] s[i]) by {
            if s[0] == '+' {
                assert(digits[i - 1] == s[i]);
            } else {
                assert(digits[i] == s[i]);
            }
        }
    }
    if s.len() > 0 && s[0] != '+' {
        assert((seq!['+'] + s).skip(1) =~= s);
    }
}

/// The sign of a negative number stands in front of its magnitude.
pub proof fn law_a_sign_stands_in_front(n: int)
    ensures
        n >= 0 ==> signed_decimal_of(n) == decimal_of(n as nat),
        n < 0 ==> signed_decimal_of(n)[0] == '-' && signed_decimal_of(n).skip(1) == decimal_of(
            (-n) as nat,
        ),
{
    if n < 0 {
        assert(signed_decimal_of(n).skip(1) =~= decimal_of((-n) as nat));
    }
}

/// Each byte is two digits, its upper half first, and different bytes have
/// different texts.
pub proof fn law_hex_text_is_the_bytes(a: Seq<u8>, b: Seq<u8>)
    ensures
        hex_of(a).len() == 2 * a.len(),
        forall|i: int|
            0 <= i < a.len() ==> {
                &&& hex_of(a)[2 * i] == hex_digit(#[trigger] a[i] as int / 16)
                &&& hex_of(a)[2 * i + 1] == hex_digit(a[i] as int % 16)
            },
        hex_of(a) == hex_of(b) <==> a == b,
{
    if hex_of(a) == hex_of(b) {
        assert(hex_of(a).len() == hex_of(b).len());
        assert forall|i: int| 0 <= i < a.len() implies a[i] == b[i] by {
            assert(hex_of(a)[2 * i] == hex_of(b)[2 * i]);
            assert(hex_of(a)[2 * i + 1] == hex_of(b)[2 * i + 1]);
            law_digits_have_their_values(a[i] as int / 16);
            law_digits_have_their_values(b[i] as int / 16);
            law_digits_have_their_values(a[i] as int % 16);
            law_digits_have_their_values(b[i] as int % 16);
        }
        assert(a =~= b);
    }
}

}
