//! Character-level helpers shared by the parsers and the dispatcher.
//!
//! Text is modelled as `Seq<char>`; the executable functions work on
//! `Vec<char>` and convert at the edges with [`chars_of`] and [`string_of`].

use vstd::prelude::*;

verus! {

/// `String::push` of the standard library: the character is appended at the
/// end and everything before it stays as it was.
pub assume_specification[ String::push ](s: &mut String, ch: char)
    ensures
        final(s)@ == old(s)@.push(ch),
;

/// Whether `c` is one of the decimal digits `0` to `9`.
pub open spec fn is_digit(c: char) -> bool {
    '0' <= c <= '9'
}

/// The number a decimal digit stands for.
pub open spec fn digit_value(c: char) -> int {
    c as int - '0' as int
}

/// The character that writes the digit `d`.
pub open spec fn digit_char(d: nat) -> char {
    (d + 48) as char
}

/// Whether every character of `s` is a decimal digit.
pub open spec fn all_digits(s: Seq<char>) -> bool {
    forall|i: int| 0 <= i < s.len() ==> is_digit(#[trigger] s[i])
}

/// The number that the digits of `s` write in base ten, most significant
/// digit first. The empty text stands for zero.
pub open spec fn decimal_value(s: Seq<char>) -> int
    decreases s.len(),
{
    if s.len() == 0 {
        0
    } else {
        decimal_value(s.drop_last()) * 10 + digit_value(s.last())
    }
}

/// The plain decimal notation of `n`: no sign and no leading zero.
pub open spec fn decimal_text(n: nat) -> Seq<char>
    decreases n,
{
    if n < 10 {
        seq![digit_char(n)]
    } else {
        decimal_text(n / 10).push(digit_char(n % 10))
    }
}

/// The digits of an unsigned literal: the text itself, or what follows a
/// single leading plus sign.
pub open spec fn literal_digits(s: Seq<char>) -> Seq<char> {
    if s.len() > 0 && s[0] == '+' {
        s.skip(1)
    } else {
        s
    }
}

/// What `s` reads as an unsigned 64-bit integer: an optional plus sign, then
/// one or more decimal digits whose value fits. Anything else reads as
/// nothing.
pub open spec fn unsigned_of(s: Seq<char>) -> Option<u64> {
    let digits = literal_digits(s);
    if digits.len() > 0 && all_digits(digits) && decimal_value(digits) <= u64::MAX {
        Some(decimal_value(digits) as u64)
    } else {
        None
    }
}

/// `s` with every occurrence of `c` taken out.
pub open spec fn without_char(s: Seq<char>, c: char) -> Seq<char>
    decreases s.len(),
{
    if s.len() == 0 {
        s
    } else if s.last() == c {
        without_char(s.drop_last(), c)
    } else {
        without_char(s.drop_last(), c).push(s.last())
    }
}

/// Whether `pattern` stands in `s` starting at position `k`.
pub open spec fn occurs_at(s: Seq<char>, pattern: Seq<char>, k: int) -> bool {
    &&& 0 <= k
    &&& k + pattern.len() <= s.len()
    &&& s.subrange(k, k + pattern.len()) == pattern
}

/// Whether `pattern` stands somewhere in `s`.
pub open spec fn has_substring(s: Seq<char>, pattern: Seq<char>) -> bool {
    exists|k: int| occurs_at(s, pattern, k)
}

/// Whether `c` has the Unicode property `White_Space`: the controls from
/// tab to carriage return, the space, next line, the no-break spaces, the
/// Ogham space mark, the spaces from en quad to hair space, the line and
/// paragraph separators, the medium mathematical space and the ideographic
/// space.
pub open spec fn is_white_space(c: char) -> bool {
    let code = c as int;
    ||| 0x0009 <= code <= 0x000D
    ||| code == 0x0020
    ||| code == 0x0085
    ||| code == 0x00A0
    ||| code == 0x1680
    ||| 0x2000 <= code <= 0x200A
    ||| 0x2028 <= code <= 0x2029
    ||| code == 0x202F
    ||| code == 0x205F
    ||| code == 0x3000
}

/// Whether `s` holds nothing but white space. The empty text is blank.
pub open spec fn is_blank(s: Seq<char>) -> bool {
    forall|i: int| 0 <= i < s.len() ==> is_white_space(#[trigger] s[i])
}

/// `s` without the white space at its start.
pub open spec fn without_leading_space(s: Seq<char>) -> Seq<char>
    decreases s.len(),
{
    if s.len() > 0 && is_white_space(s[0]) {
        without_leading_space(s.skip(1))
    } else {
        s
    }
}

/// `s` without the white space at its end.
pub open spec fn without_trailing_space(s: Seq<char>) -> Seq<char>
    decreases s.len(),
{
    if s.len() > 0 && is_white_space(s.last()) {
        without_trailing_space(s.drop_last())
    } else {
        s
    }
}

/// `s` without the white space at its start and at its end.
pub open spec fn trimmed(s: Seq<char>) -> Seq<char> {
    without_trailing_space(without_leading_space(s))
}

/// The pieces of `s` between occurrences of `sep`. There is always at least
/// one piece; two separators in a row, or one at either end, give an empty
/// piece.
pub open spec fn split_text(s: Seq<char>, sep: char) -> Seq<Seq<char>>
    decreases s.len(),
{
    if s.len() == 0 {
        seq![Seq::<char>::empty()]
    } else {
        let before = split_text(s.drop_last(), sep);
        if s.last() == sep {
            before.push(Seq::<char>::empty())
        } else {
            before.drop_last().push(before.last().push(s.last()))
        }
    }
}

/// The pieces put back together with `sep` between neighbours.
pub open spec fn join_text(pieces: Seq<Seq<char>>, sep: char) -> Seq<char>
    decreases pieces.len(),
{
    if pieces.len() == 0 {
        Seq::<char>::empty()
    } else if pieces.len() == 1 {
        pieces[0]
    } else {
        join_text(pieces.drop_last(), sep).push(sep) + pieces.last()
    }
}

/// The texts that a vector of character vectors holds.
pub open spec fn piece_views(pieces: Seq<Vec<char>>) -> Seq<Seq<char>> {
    Seq::new(pieces.len(), |i: int| pieces[i]@)
}

/// Tests a character for being a decimal digit and gives its value.
pub fn digit_of(c: char) -> (d: Option<u8>)
    ensures
        is_digit(c) <==> d is Some,
        d matches Some(v) ==> v as int == digit_value(c) && v <= 9,
{
    if '0' <= c && c <= '9' {
        let code: u32 = c as u32;
        let v: u32 = code - 48;
        Some(v as u8)
    } else {
        None
    }
}

/// The characters of `s`, in order.
pub fn chars_of(s: &str) -> (v: Vec<char>)
    ensures
        v@ == s@,
{
    let mut v: Vec<char> = Vec::new();
    for c in it: s.chars()
        invariant
            v@ == it.seq().take(it.index() as int),
            it.seq() == s@,
    {
        v.push(c);
    }
    v
}

/// The string that the characters of `chars` spell.
pub fn string_of(chars: &Vec<char>) -> (s: String)
    ensures
        s@ == chars@,
{
    let mut s: String = String::new();
    let mut i: usize = 0;
    while i < chars.len()
        invariant
            i <= chars.len(),
            s@ == chars@.take(i as int),
        decreases chars.len() - i,
    {
        s.push(chars[i]);
        i += 1;
    }
    s
}

/// Appends the plain decimal notation of `n` to `s`.
pub fn push_decimal(s: &mut String, n: u64)
    ensures
        final(s)@ == old(s)@ + decimal_text(n as nat),
    decreases n,
{
    let ghost start = s@;
    if n >= 10 {
        push_decimal(s, n / 10);
    }
    let last: u8 = (n % 10) as u8;
    let code: u8 = last + 48;
    s.push(code as char);
    proof {
        if n >= 10 {
            assert(s@ == (start + decimal_text((n / 10) as nat)).push(digit_char((n % 10) as nat)));
            assert(s@ == start + decimal_text(n as nat));
        } else {
            assert(s@ == start + seq![digit_char(n as nat)]);
        }
    }
}

/// Reads `chars` as an unsigned 64-bit integer in decimal notation.
pub fn parse_unsigned(chars: &Vec<char>) -> (value: Option<u64>)
    ensures
        value == unsigned_of(chars@),
{
    let n: usize = chars.len();
    let start: usize = if n > 0 && chars[0] == '+' {
        1
    } else {
        0
    };
    let ghost digits = literal_digits(chars@);
    if start == n {
        return None;
    }
    let mut acc: u64 = 0;
    let mut i: usize = start;
    while i < n
        invariant
            start <= i <= n,
            n == chars.len(),
            digits == literal_digits(chars@),
            digits == chars@.skip(start as int),
            all_digits(digits.take(i - start)),
            acc == decimal_value(digits.take(i - start)),
        decreases n - i,
    {
        let ghost upto = digits.take(i - start + 1);
        proof {
            assert(upto.drop_last() == digits.take(i - start));
            assert(upto.last() == chars[i as int]);
        }
        let digit: u8 = match digit_of(chars[i]) {
            Some(d) => d,
            None => {
                proof {
                    assert(!is_digit(digits[i - start]));
                }
                return None;
            },
        };
        let tenfold: Option<u64> = acc.checked_mul(10);
        let next: Option<u64> = match tenfold {
            Some(t) => t.checked_add(digit as u64),
            None => None,
        };
        match next {
            Some(v) => {
                acc = v;
            },
            None => {
                proof {
                    assert(decimal_value(upto) > u64::MAX);
                    if all_digits(digits) {
                        decimal_value_of_prefix(digits, i - start + 1);
                    }
                }
                return None;
            },
        }
        i += 1;
    }
    proof {
        assert(digits.take(n - start) == digits);
    }
    Some(acc)
}

/// Whether `c` occurs in `chars`.
pub fn contains_char(chars: &Vec<char>, c: char) -> (found: bool)
    ensures
        found == chars@.contains(c),
{
    let mut i: usize = 0;
    while i < chars.len()
        invariant
            i <= chars.len(),
            forall|j: int| 0 <= j < i ==> chars[j] != c,
        decreases chars.len() - i,
    {
        if chars[i] == c {
            return true;
        }
        i += 1;
    }
    false
}

/// Copies `chars`, leaving out every occurrence of `c`.
pub fn strip_char(chars: &Vec<char>, c: char) -> (kept: Vec<char>)
    ensures
        kept@ == without_char(chars@, c),
{
    let mut kept: Vec<char> = Vec::new();
    let mut i: usize = 0;
    while i < chars.len()
        invariant
            i <= chars.len(),
            kept@ == without_char(chars@.take(i as int), c),
        decreases chars.len() - i,
    {
        proof {
            assert(chars@.take(i + 1).drop_last() == chars@.take(i as int));
        }
        if chars[i] != c {
            kept.push(chars[i]);
        }
        i += 1;
    }
    proof {
        assert(chars@.take(chars.len() as int) == chars@);
    }
    kept
}

/// Whether `pattern` stands somewhere in `chars`.
pub fn contains_text(chars: &Vec<char>, pattern: &Vec<char>) -> (found: bool)
    ensures
        found == has_substring(chars@, pattern@),
{
    let n: usize = chars.len();
    let m: usize = pattern.len();
    if m > n {
        return false;
    }
    let mut k: usize = 0;
    while k <= n - m
        invariant
            m <= n,
            n == chars.len(),
            m == pattern.len(),
            k <= n - m + 1,
            forall|q: int| 0 <= q < k ==> !occurs_at(chars@, pattern@, q),
        decreases n - m + 1 - k,
    {
        let mut j: usize = 0;
        while j < m && chars[k + j] == pattern[j]
            invariant
                m <= n,
                n == chars.len(),
                m == pattern.len(),
                k <= n - m,
                j <= m,
                forall|q: int| 0 <= q < j ==> chars[k + q] == pattern[q],
            decreases m - j,
        {
            j += 1;
        }
        if j == m {
            proof {
                assert(chars@.subrange(k as int, k + m) =~= pattern@);
                assert(occurs_at(chars@, pattern@, k as int));
            }
            return true;
        }
        proof {
            assert(chars@.subrange(k as int, k + m)[j as int] != pattern@[j as int]);
        }
        k += 1;
    }
    false
}

/// Cuts `chars` at every occurrence of `sep`.
pub fn split_on(chars: &Vec<char>, sep: char) -> (pieces: Vec<Vec<char>>)
    ensures
        piece_views(pieces@) == split_text(chars@, sep),
{
    let mut done: Vec<Vec<char>> = Vec::new();
    let mut current: Vec<char> = Vec::new();
    let mut i: usize = 0;
    assert(chars@.take(0) == Seq::<char>::empty());
    assert(piece_views(done@).push(current@) == seq![Seq::<char>::empty()]);
    while i < chars.len()
        invariant
            i <= chars.len(),
            piece_views(done@).push(current@) == split_text(chars@.take(i as int), sep),
        decreases chars.len() - i,
    {
        let ghost before = split_text(chars@.take(i as int), sep);
        let ghost old_done = done@;
        let ghost old_current = current@;
        proof {
            assert(chars@.take(i + 1).drop_last() == chars@.take(i as int));
            assert(before.drop_last() == piece_views(old_done));
            assert(before.last() == old_current);
        }
        if chars[i] == sep {
            done.push(current);
            current = Vec::new();
            proof {
                assert(piece_views(done@) == before);
            }
        } else {
            current.push(chars[i]);
        }
        i += 1;
    }
    proof {
        assert(chars@.take(chars.len() as int) == chars@);
    }
    let ghost last_done = done@;
    let ghost last_current = current@;
    done.push(current);
    proof {
        assert(piece_views(done@) == piece_views(last_done).push(last_current));
    }
    done
}


/// Whether two string slices spell the same text.
pub fn same_text(a: &str, b: &str) -> (same: bool)
    ensures
        same == (a@ == b@),
{
    let left: String = a.to_owned();
    let right: String = b.to_owned();
    left == right
}


/// A prefix of a digit string never writes a larger number than the whole.
pub proof fn decimal_value_of_prefix(s: Seq<char>, k: int)
    requires
        all_digits(s),
        0 <= k <= s.len(),
    ensures
        0 <= decimal_value(s.take(k)) <= decimal_value(s),
    decreases s.len(),
{
    if k == s.len() {
        assert(s.take(k) == s);
        if s.len() > 0 {
            decimal_value_of_prefix(s.drop_last(), k - 1);
            assert(s.drop_last().take(k - 1) == s.drop_last());
            assert(is_digit(s.last()));
        }
    } else {
        decimal_value_of_prefix(s.drop_last(), k);
        assert(s.drop_last().take(k) == s.take(k));
        assert(is_digit(s.last()));
    }
}

/// Splitting loses nothing: there is at least one piece, no piece holds the
/// separator, and joining the pieces with the separator gives the text back.
pub proof fn split_text_rejoins(s: Seq<char>, sep: char)
    ensures
        split_text(s, sep).len() >= 1,
        forall|i: int|
            0 <= i < split_text(s, sep).len() ==> !(#[trigger] split_text(s, sep)[i]).contains(sep),
        join_text(split_text(s, sep), sep) == s,
    decreases s.len(),
{
    let pieces = split_text(s, sep);
    if s.len() == 0 {
        assert(pieces[0] == Seq::<char>::empty());
        assert(join_text(pieces, sep) == s);
    } else {
        let before = split_text(s.drop_last(), sep);
        split_text_rejoins(s.drop_last(), sep);
        let c = s.last();
        assert(s == s.drop_last().push(c));
        if c == sep {
            assert(pieces.drop_last() == before);
            assert(join_text(pieces, sep) == join_text(before, sep).push(sep) + pieces.last());
            assert(join_text(pieces, sep) == s);
        } else {
            let grown = before.last().push(c);
            assert(pieces.last() == grown);
            assert(pieces.drop_last() == before.drop_last());
            assert(!grown.contains(sep)) by {
                if grown.contains(sep) {
                    let j = choose|j: int| 0 <= j < grown.len() && grown[j] == sep;
                    assert(before.last()[j] == sep);
                    assert(before[before.len() - 1].contains(sep));
                }
            }
            assert forall|i: int| 0 <= i < pieces.len() implies !(#[trigger] pieces[i]).contains(
                sep,
            ) by {
                if i < pieces.len() - 1 {
                    assert(pieces[i] == before[i]);
                }
            }
            if before.len() == 1 {
                assert(join_text(pieces, sep) == before[0].push(c));
            } else {
                assert(join_text(pieces, sep) == join_text(before.drop_last(), sep).push(sep)
                    + grown);
                assert(join_text(before, sep) == join_text(before.drop_last(), sep).push(sep)
                    + before.last());
                assert(join_text(pieces, sep) == join_text(before, sep).push(c));
            }
            assert(join_text(pieces, sep) == s);
        }
    }
}

/// Taking the white space off the start leaves nothing exactly of a blank
/// text, and otherwise a text that starts with something else.
pub proof fn leading_space_is_all_of_a_blank_text(s: Seq<char>)
    ensures
        without_leading_space(s).len() == 0 <==> is_blank(s),
        without_leading_space(s).len() > 0 ==> !is_white_space(without_leading_space(s)[0]),
    decreases s.len(),
{
    if s.len() > 0 && is_white_space(s[0]) {
        let rest = s.skip(1);
        leading_space_is_all_of_a_blank_text(rest);
        if is_blank(rest) {
            assert forall|i: int| 0 <= i < s.len() implies is_white_space(#[trigger] s[i]) by {
                if i > 0 {
                    assert(s[i] == rest[i - 1]);
                }
            }
        } else {
            let j = choose|j: int| 0 <= j < rest.len() && !is_white_space(rest[j]);
            assert(s[j + 1] == rest[j]);
        }
    } else if s.len() > 0 {
        assert(!is_white_space(s[0]));
    }
}

/// Taking the white space off the end leaves nothing exactly of a blank
/// text.
pub proof fn trailing_space_is_all_of_a_blank_text(s: Seq<char>)
    ensures
        without_trailing_space(s).len() == 0 <==> is_blank(s),
    decreases s.len(),
{
    if s.len() > 0 && is_white_space(s.last()) {
        let rest = s.drop_last();
        trailing_space_is_all_of_a_blank_text(rest);
        if is_blank(rest) {
            assert forall|i: int| 0 <= i < s.len() implies is_white_space(#[trigger] s[i]) by {
                if i < rest.len() {
                    assert(s[i] == rest[i]);
                }
            }
        } else {
            let j = choose|j: int| 0 <= j < rest.len() && !is_white_space(rest[j]);
            assert(s[j] == rest[j]);
        }
    } else if s.len() > 0 {
        assert(!is_white_space(s[s.len() - 1]));
    }
}

/// Trimming leaves nothing exactly of the texts that hold nothing but white
/// space.
pub proof fn trimmed_is_empty_for_blank_text_only(s: Seq<char>)
    ensures
        trimmed(s).len() == 0 <==> is_blank(s),
{
    let front = without_leading_space(s);
    leading_space_is_all_of_a_blank_text(s);
    trailing_space_is_all_of_a_blank_text(front);
    if front.len() > 0 {
        assert(!is_white_space(front[0]));
        assert(!is_blank(front));
    }
}

/// A text without the separator is a single piece: itself.
pub proof fn split_text_unbroken(s: Seq<char>, sep: char)
    requires
        !s.contains(sep),
    ensures
        split_text(s, sep) == seq![s],
    decreases s.len(),
{
    if s.len() == 0 {
        assert(s == Seq::<char>::empty());
    } else {
        let front = s.drop_last();
        assert(!front.contains(sep)) by {
            if front.contains(sep) {
                let j = choose|j: int| 0 <= j < front.len() && front[j] == sep;
                assert(s[j] == sep);
            }
        }
        split_text_unbroken(front, sep);
        assert(s[s.len() - 1] != sep);
        assert(front.push(s.last()) == s);
        let before = split_text(front, sep);
        assert(before.drop_last().push(before.last().push(s.last())) =~= seq![s]);
    }
}


/// The plain decimal notation of a number is made of digits and writes that
/// number; where the number fits 64 bits it reads back as itself.
pub proof fn decimal_text_reads_back(n: nat)
    ensures
        decimal_text(n).len() >= 1,
        all_digits(decimal_text(n)),
        decimal_value(decimal_text(n)) == n,
        n <= u64::MAX ==> unsigned_of(decimal_text(n)) == Some(n as u64),
    decreases n,
{
    let t = decimal_text(n);
    if n < 10 {
        assert(t[0] == digit_char(n));
        assert(t.drop_last().len() == 0);
        assert(decimal_value(t) == decimal_value(t.drop_last()) * 10 + digit_value(t.last()));
    } else {
        decimal_text_reads_back(n / 10);
        let front = decimal_text(n / 10);
        assert(t.drop_last() == front);
        assert(t.last() == digit_char(n % 10));
        assert forall|i: int| 0 <= i < t.len() implies is_digit(#[trigger] t[i]) by {
            if i < front.len() {
                assert(t[i] == front[i]);
            }
        }
    }
    assert(is_digit(t[0]));
    assert(literal_digits(t) == t);
}

} // verus!
