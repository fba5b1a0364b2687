//! Character sequences: the conversions between `str`, `String` and
//! `Vec<char>` on which the rest of the crate is built, and the small
//! text operations (trimming, prefixes, decimal numbers) that it needs.

use vstd::prelude::*;

verus! {

/// `String::push` appends one character to the string.
pub assume_specification[ String::push ](s: &mut String, ch: char)
    ensures
        final(s)@ == old(s)@.push(ch),
;

/// The characters of `s`, in order.
pub fn chars_of(s: &str) -> (out: Vec<char>)
    ensures
        out@ == s@,
{
    let mut out: Vec<char> = Vec::new();
    for c in it: s.chars()
        invariant
            it.seq() == s@,
            out@ == it.seq().take(it.index()),
    {
        out.push(c);
    }
    out
}

/// The string that holds exactly the given characters.
pub fn string_of(chars: &[char]) -> (out: String)
    ensures
        out@ == chars@,
{
    let mut out = String::new();
    let mut i: usize = 0;
    while i < chars.len()
        invariant
            i <= chars.len(),
            out@ == chars@.take(i as int),
        decreases chars.len() - i,
    {
        out.push(chars[i]);
        assert(chars@.take(i + 1) =~= chars@.take(i as int).push(chars@[i as int]));
        i += 1;
    }
    assert(chars@.take(chars.len() as int) =~= chars@);
    out
}

/// Appends the characters of `s` to `out`.
pub fn push_str(out: &mut Vec<char>, s: &str)
    ensures
        final(out)@ == old(out)@ + s@,
{
    let ghost before = out@;
    for c in it: s.chars()
        invariant
            it.seq() == s@,
            out@ == before + it.seq().take(it.index()),
    {
        out.push(c);
    }
}

/// Appends the characters of `s` to `out`.
pub fn push_chars(out: &mut Vec<char>, s: &[char])
    ensures
        final(out)@ == old(out)@ + s@,
{
    let ghost before = out@;
    let mut i: usize = 0;
    while i < s.len()
        invariant
            i <= s.len(),
            out@ == before + s@.take(i as int),
        decreases s.len() - i,
    {
        out.push(s[i]);
        assert(s@.take(i + 1) =~= s@.take(i as int).push(s@[i as int]));
        i += 1;
    }
    assert(s@.take(s.len() as int) =~= s@);
}

/// The characters of `s` from `from` up to, not including, `to`.
pub fn copy_range(s: &[char], from: usize, to: usize) -> (out: Vec<char>)
    requires
        from <= to <= s.len(),
    ensures
        out@ == s@.subrange(from as int, to as int),
{
    let mut out: Vec<char> = Vec::new();
    let mut i: usize = from;
    while i < to
        invariant
            from <= i <= to,
            to <= s.len(),
            out@ == s@.subrange(from as int, i as int),
        decreases to - i,
    {
        out.push(s[i]);
        assert(s@.subrange(from as int, i + 1) =~= s@.subrange(from as int, i as int).push(
            s@[i as int],
        ));
        i += 1;
    }
    out
}

/// Whether two character sequences are the same.
pub fn same_chars(a: &[char], b: &[char]) -> (same: bool)
    ensures
        same == (a@ == b@),
{
    if a.len() != b.len() {
        return false;
    }
    let mut i: usize = 0;
    while i < a.len()
        invariant
            i <= a.len(),
            a.len() == b.len(),
            forall|j: int| 0 <= j < i ==> a@[j] == b@[j],
        decreases a.len() - i,
    {
        if a[i] != b[i] {
            return false;
        }
        i += 1;
    }
    assert(a@ =~= b@);
    true
}

/// Whether `s` holds exactly the text `literal`.
pub fn is_text(s: &[char], literal: &str) -> (same: bool)
    ensures
        same == (s@ == literal@),
{
    let other = chars_of(literal);
    same_chars(s, other.as_slice())
}

/// Whether `s` begins with `prefix`.
pub open spec fn starts_with(s: Seq<char>, prefix: Seq<char>) -> bool {
    prefix.len() <= s.len() && s.subrange(0, prefix.len() as int) == prefix
}

/// Whether `s` begins with `prefix`.
pub fn has_prefix(s: &[char], prefix: &[char]) -> (yes: bool)
    ensures
        yes == starts_with(s@, prefix@),
{
    if prefix.len() > s.len() {
        return false;
    }
    let mut i: usize = 0;
    while i < prefix.len()
        invariant
            i <= prefix.len() <= s.len(),
            forall|j: int| 0 <= j < i ==> s@[j] == prefix@[j],
        decreases prefix.len() - i,
    {
        if s[i] != prefix[i] {
            assert(s@.subrange(0, prefix.len() as int)[i as int] != prefix@[i as int]);
            return false;
        }
        i += 1;
    }
    assert(s@.subrange(0, prefix.len() as int) =~= prefix@);
    true
}

/// White space as Unicode defines it (the property `White_Space`).
pub open spec fn is_space(c: char) -> bool {
    let u = c as u32;
    (9 <= u <= 13) || u == 0x20 || u == 0x85 || u == 0xA0 || u == 0x1680 || (0x2000 <= u <= 0x200A)
        || u == 0x2028 || u == 0x2029 || u == 0x202F || u == 0x205F || u == 0x3000
}

/// Whether `c` is white space.
pub fn is_space_char(c: char) -> (yes: bool)
    ensures
        yes == is_space(c),
{
    let u = c as u32;
    (9 <= u && u <= 13) || u == 0x20 || u == 0x85 || u == 0xA0 || u == 0x1680 || (0x2000 <= u && u
        <= 0x200A) || u == 0x2028 || u == 0x2029 || u == 0x202F || u == 0x205F || u == 0x3000
}

/// The position of the first character at or after `pos` that is no white
/// space; the length of `s` where there is none.
pub open spec fn skip_spaces(s: Seq<char>, pos: int) -> int
    decreases s.len() - pos,
{
    if 0 <= pos < s.len() && is_space(s[pos]) {
        skip_spaces(s, pos + 1)
    } else {
        pos
    }
}

/// The end of `s` once the white space before `end` is taken off.
pub open spec fn back_spaces(s: Seq<char>, end: int) -> int
    decreases end,
{
    if 0 < end <= s.len() && is_space(s[end - 1]) {
        back_spaces(s, end - 1)
    } else {
        end
    }
}

/// `s` without the white space at its two ends.
pub open spec fn trimmed(s: Seq<char>) -> Seq<char> {
    let start = skip_spaces(s, 0);
    let end = back_spaces(s, s.len() as int);
    if start < end {
        s.subrange(start, end)
    } else {
        Seq::empty()
    }
}

/// The first position at or after `pos` that holds no white space.
pub fn skip_spaces_from(s: &[char], pos: usize) -> (next: usize)
    requires
        pos <= s.len(),
    ensures
        next == skip_spaces(s@, pos as int),
        pos <= next <= s.len(),
{
    let mut i: usize = pos;
    while i < s.len() && is_space_char(s[i])
        invariant
            pos <= i <= s.len(),
            skip_spaces(s@, pos as int) == skip_spaces(s@, i as int),
        decreases s.len() - i,
    {
        i += 1;
    }
    i
}

/// `s` without the white space at its two ends.
pub fn trim(s: &[char]) -> (out: Vec<char>)
    ensures
        out@ == trimmed(s@),
{
    let start = skip_spaces_from(s, 0);
    let mut end: usize = s.len();
    while end > 0 && is_space_char(s[end - 1])
        invariant
            end <= s.len(),
            back_spaces(s@, s.len() as int) == back_spaces(s@, end as int),
        decreases end,
    {
        end -= 1;
    }
    if start < end {
        copy_range(s, start, end)
    } else {
        Vec::new()
    }
}

/// Whether `c` is one of the decimal digits `0` to `9`.
pub open spec fn is_digit(c: char) -> bool {
    '0' <= c <= '9'
}

/// The value of a decimal digit.
pub open spec fn digit_value(c: char) -> nat {
    (c as u32 - '0' as u32) as nat
}

/// The digit that stands for `d`, for `d` below ten.
pub open spec fn digit_char(d: nat) -> char {
    (d + '0' as u32) as char
}

/// Whether every character of `s` is a decimal digit.
pub open spec fn all_digits(s: Seq<char>) -> bool {
    forall|i: int| 0 <= i < s.len() ==> is_digit(#[trigger] s[i])
}

/// The number that a sequence of decimal digits denotes; 0 for the empty one.
pub open spec fn digits_value(s: Seq<char>) -> nat
    decreases s.len(),
{
    if s.len() == 0 {
        0
    } else {
        digits_value(s.drop_last()) * 10 + digit_value(s.last())
    }
}

/// The decimal notation of `n`, without leading zeros.
pub open spec fn decimal(n: nat) -> Seq<char>
    decreases n,
{
    if n < 10 {
        seq![digit_char(n)]
    } else {
        decimal(n / 10).push(digit_char(n % 10))
    }
}

/// The unsigned number that `s` denotes: decimal digits, optionally behind
/// one `+`, with a value of at most `limit`.
pub open spec fn unsigned_of(s: Seq<char>, limit: nat) -> Option<nat> {
    let digits = if s.len() > 0 && s[0] == '+' {
        s.drop_first()
    } else {
        s
    };
    if digits.len() > 0 && all_digits(digits) && digits_value(digits) <= limit {
        Some(digits_value(digits))
    } else {
        None
    }
}

/// The 32-bit unsigned number that `s` denotes, if it denotes one.
pub open spec fn u32_of(s: Seq<char>) -> Option<u32> {
    match unsigned_of(s, u32::MAX as nat) {
        Some(n) => Some(n as u32),
        None => None,
    }
}

/// The 64-bit unsigned number that `s` denotes, if it denotes one.
pub open spec fn u64_of(s: Seq<char>) -> Option<u64> {
    match unsigned_of(s, u64::MAX as nat) {
        Some(n) => Some(n as u64),
        None => None,
    }
}

/// The 32-bit signed number that `s` denotes, if it denotes one: decimal
/// digits, optionally behind one `+` or `-`.
pub open spec fn i32_of(s: Seq<char>) -> Option<i32> {
    if s.len() > 0 && s[0] == '-' {
        let digits = s.drop_first();
        if digits.len() > 0 && all_digits(digits) && digits_value(digits) <= 0x8000_0000 {
            Some((-(digits_value(digits) as int)) as i32)
        } else {
            None
        }
    } else {
        match unsigned_of(s, i32::MAX as nat) {
            Some(n) => Some(n as i32),
            None => None,
        }
    }
}

/// The decimal notation of a number is made of digits, is not empty, and
/// denotes that number.
pub proof fn lemma_decimal(n: nat)
    ensures
        decimal(n).len() > 0,
        all_digits(decimal(n)),
        digits_value(decimal(n)) == n,
    decreases n,
{
    if n < 10 {
        assert(decimal(n).drop_last() =~= Seq::<char>::empty());
        assert(digits_value(decimal(n).drop_last()) == 0);
    } else {
        lemma_decimal(n / 10);
        assert(decimal(n).drop_last() =~= decimal(n / 10));
    }
}

/// The value of a sequence of digits is at least the value of each of its
/// beginnings.
pub proof fn lemma_digits_value_grows(s: Seq<char>, k: int)
    requires
        0 <= k <= s.len(),
    ensures
        digits_value(s.take(k)) <= digits_value(s),
    decreases s.len(),
{
    if k < s.len() {
        lemma_digits_value_grows(s.drop_last(), k);
        assert(s.drop_last().take(k) =~= s.take(k));
        assert(digits_value(s.drop_last()) <= digits_value(s.drop_last()) * 10) by (nonlinear_arith);
    } else {
        assert(s.take(k) =~= s);
    }
}

/// Whether `c` is a decimal digit.
pub fn is_digit_char(c: char) -> (yes: bool)
    ensures
        yes == is_digit(c),
{
    '0' <= c && c <= '9'
}

/// The number that the digits `s[from..to]` denote, where it is at most `limit`.
pub fn digits_to_number(s: &[char], from: usize, to: usize, limit: u64) -> (value: Option<u64>)
    requires
        from <= to <= s.len(),
    ensures
        value == (if all_digits(s@.subrange(from as int, to as int)) && digits_value(
            s@.subrange(from as int, to as int),
        ) <= limit {
            Some(digits_value(s@.subrange(from as int, to as int)) as u64)
        } else {
            None
        }),
{
    let ghost digits = s@.subrange(from as int, to as int);
    let mut value: u128 = 0;
    let mut i: usize = from;
    while i < to
        invariant
            from <= i <= to <= s.len(),
            digits == s@.subrange(from as int, to as int),
            all_digits(digits.take(i - from)),
            value == digits_value(digits.take(i - from)),
            value <= limit,
        decreases to - i,
    {
        let c = s[i];
        assert(digits[i - from] == c);
        if !is_digit_char(c) {
            return None;
        }
        proof {
            assert(digits.take(i + 1 - from).drop_last() =~= digits.take(i - from));
            assert(digits.take(i + 1 - from).last() == c);
            lemma_digits_value_grows(digits, i + 1 - from);
        }
        let d: u128 = (c as u32 - '0' as u32) as u128;
        value = value * 10 + d;
        if value > limit as u128 {
            proof {
                assert(digits_value(digits) > limit);
            }
            return None;
        }
        i += 1;
    }
    assert(digits.take(to - from) =~= digits);
    Some(value as u64)
}

/// The 32-bit unsigned number that `s` denotes, if it denotes one.
pub fn parse_u32(s: &[char]) -> (value: Option<u32>)
    ensures
        value == u32_of(s@),
{
    let from: usize = if s.len() > 0 && s[0] == '+' {
        1
    } else {
        0
    };
    assert(s@.subrange(from as int, s.len() as int) =~= if from == 1 {
        s@.drop_first()
    } else {
        s@
    });
    if from == s.len() {
        return None;
    }
    match digits_to_number(s, from, s.len(), 0xFFFF_FFFF) {
        Some(v) => Some(v as u32),
        None => None,
    }
}

/// The 64-bit unsigned number that `s` denotes, if it denotes one.
pub fn parse_u64(s: &[char]) -> (value: Option<u64>)
    ensures
        value == u64_of(s@),
{
    let from: usize = if s.len() > 0 && s[0] == '+' {
        1
    } else {
        0
    };
    assert(s@.subrange(from as int, s.len() as int) =~= if from == 1 {
        s@.drop_first()
    } else {
        s@
    });
    if from == s.len() {
        return None;
    }
    digits_to_number(s, from, s.len(), u64::MAX)
}

/// The 32-bit signed number that `s` denotes, if it denotes one.
pub fn parse_i32(s: &[char]) -> (value: Option<i32>)
    ensures
        value == i32_of(s@),
{
    if s.len() > 0 && s[0] == '-' {
        assert(s@.subrange(1, s.len() as int) =~= s@.drop_first());
        if s.len() == 1 {
            return None;
        }
        match digits_to_number(s, 1, s.len(), 0x8000_0000) {
            Some(v) => Some((0 - v as i64) as i32),
            None => None,
        }
    } else {
        let from: usize = if s.len() > 0 && s[0] == '+' {
            1
        } else {
            0
        };
        assert(s@.subrange(from as int, s.len() as int) =~= if from == 1 {
            s@.drop_first()
        } else {
            s@
        });
        if from == s.len() {
            return None;
        }
        match digits_to_number(s, from, s.len(), 0x7FFF_FFFF) {
            Some(v) => Some(v as i32),
            None => None,
        }
    }
}

/// Appends the decimal notation of `n` to `out`.
pub fn push_decimal(out: &mut Vec<char>, n: u64)
    ensures
        final(out)@ == old(out)@ + decimal(n as nat),
    decreases n,
{
    if n >= 10 {
        push_decimal(out, n / 10);
    }
    let d: u8 = (n % 10) as u8;
    let c: char = (d + 48u8) as char;
    out.push(c);
    assert(c == digit_char((n % 10) as nat));
    assert(out@ =~= old(out)@ + decimal(n as nat));
}

/// The position of the first `mark` at or after `pos`; the length of `s`
/// where there is none.
pub open spec fn find_from(s: Seq<char>, pos: int, mark: char) -> int
    decreases s.len() - pos,
{
    if 0 <= pos < s.len() && s[pos] != mark {
        find_from(s, pos + 1, mark)
    } else if pos > s.len() {
        s.len() as int
    } else {
        pos
    }
}

/// `find_from` moves forward within `s`, passes no mark and stops at one.
pub proof fn lemma_find_from(s: Seq<char>, pos: int, mark: char)
    requires
        0 <= pos <= s.len(),
    ensures
        pos <= find_from(s, pos, mark) <= s.len(),
        forall|i: int| pos <= i < find_from(s, pos, mark) ==> #[trigger] s[i] != mark,
        find_from(s, pos, mark) < s.len() ==> s[find_from(s, pos, mark)] == mark,
    decreases s.len() - pos,
{
    if pos < s.len() && s[pos] != mark {
        lemma_find_from(s, pos + 1, mark);
    }
}

/// The position of the first `mark` at or after `pos`, or the length.
pub fn find_char(s: &[char], pos: usize, mark: char) -> (at: usize)
    requires
        pos <= s.len(),
    ensures
        at == find_from(s@, pos as int, mark),
        pos <= at <= s.len(),
{
    let mut i: usize = pos;
    while i < s.len() && s[i] != mark
        invariant
            pos <= i <= s.len(),
            find_from(s@, pos as int, mark) == find_from(s@, i as int, mark),
        decreases s.len() - i,
    {
        i += 1;
    }
    i
}

/// The pieces of `s` from `pos` on that lie between the marks: one more
/// than there are marks.
pub open spec fn pieces_from(s: Seq<char>, pos: int, mark: char) -> Seq<Seq<char>>
    decreases s.len() - pos,
{
    let end = find_from(s, pos, mark);
    if 0 <= pos <= end < s.len() {
        seq![s.subrange(pos, end)] + pieces_from(s, end + 1, mark)
    } else if 0 <= pos <= s.len() {
        seq![s.subrange(pos, s.len() as int)]
    } else {
        Seq::empty()
    }
}

/// The pieces of `s` that lie between the occurrences of `mark`.
pub open spec fn split_on(s: Seq<char>, mark: char) -> Seq<Seq<char>> {
    pieces_from(s, 0, mark)
}

/// The pieces of `s` that lie between the occurrences of `mark`.
pub fn split(s: &[char], mark: char) -> (pieces: Vec<Vec<char>>)
    ensures
        pieces.len() == split_on(s@, mark).len(),
        forall|i: int| 0 <= i < pieces.len() ==> (#[trigger] pieces@[i])@ == split_on(s@, mark)[i],
{
    let mut pieces: Vec<Vec<char>> = Vec::new();
    let mut pos: usize = 0;
    let ghost mut done: Seq<Seq<char>> = Seq::empty();
    assert(done + pieces_from(s@, 0, mark) =~= split_on(s@, mark));
    loop
        invariant
            pos <= s.len(),
            pieces.len() == done.len(),
            forall|i: int| 0 <= i < pieces.len() ==> (#[trigger] pieces@[i])@ == done[i],
            split_on(s@, mark) == done + pieces_from(s@, pos as int, mark),
        decreases s.len() - pos,
    {
        let end = find_char(s, pos, mark);
        let piece = copy_range(s, pos, end);
        proof {
            let tail = if end < s.len() {
                pieces_from(s@, end + 1, mark)
            } else {
                Seq::empty()
            };
            assert(pieces_from(s@, pos as int, mark) =~= seq![piece@] + tail);
            assert(done + (seq![piece@] + tail) =~= done.push(piece@) + tail);
            done = done.push(piece@);
        }
        pieces.push(piece);
        if end >= s.len() {
            assert(done + Seq::<Seq<char>>::empty() =~= done);
            return pieces;
        }
        pos = end + 1;
    }
}

/// A line without the carriage return at its end, if it has one.
pub open spec fn without_return(line: Seq<char>) -> Seq<char> {
    if line.len() > 0 && line.last() == '\r' {
        line.drop_last()
    } else {
        line
    }
}

/// The lines of `s` from `pos` on. A line ends with a line feed, which is
/// left out together with a carriage return directly before it; what follows
/// the last line feed is a line if it is not empty.
pub open spec fn lines_from(s: Seq<char>, pos: int) -> Seq<Seq<char>>
    decreases s.len() - pos,
{
    let end = find_from(s, pos, '\n');
    if 0 <= pos <= end < s.len() {
        seq![without_return(s.subrange(pos, end))] + lines_from(s, end + 1)
    } else if 0 <= pos < s.len() {
        seq![s.subrange(pos, s.len() as int)]
    } else {
        Seq::empty()
    }
}

/// The lines of `s`.
pub open spec fn lines_of(s: Seq<char>) -> Seq<Seq<char>> {
    lines_from(s, 0)
}

/// The lines of `s`.
pub fn lines(s: &[char]) -> (found: Vec<Vec<char>>)
    ensures
        found.len() == lines_of(s@).len(),
        forall|i: int| 0 <= i < found.len() ==> (#[trigger] found@[i])@ == lines_of(s@)[i],
{
    let mut found: Vec<Vec<char>> = Vec::new();
    let mut pos: usize = 0;
    let ghost mut done: Seq<Seq<char>> = Seq::empty();
    assert(done + lines_from(s@, 0) =~= lines_of(s@));
    while pos < s.len()
        invariant
            pos <= s.len(),
            found.len() == done.len(),
            forall|i: int| 0 <= i < found.len() ==> (#[trigger] found@[i])@ == done[i],
            lines_of(s@) == done + lines_from(s@, pos as int),
        decreases s.len() - pos,
    {
        let end = find_char(s, pos, '\n');
        let stop = if end < s.len() && end > pos && s[end - 1] == '\r' {
            end - 1
        } else {
            end
        };
        let line = copy_range(s, pos, stop);
        proof {
            let tail = if end < s.len() {
                lines_from(s@, end + 1)
            } else {
                Seq::empty()
            };
            if end < s.len() {
                let whole = s@.subrange(pos as int, end as int);
                if end > pos {
                    assert(whole.last() == s@[end - 1]);
                }
                assert(line@ =~= without_return(whole));
            }
            assert(lines_from(s@, pos as int) =~= seq![line@] + tail);
            assert(done + (seq![line@] + tail) =~= done.push(line@) + tail);
            done = done.push(line@);
        }
        found.push(line);
        if end >= s.len() {
            assert(done + Seq::<Seq<char>>::empty() =~= done);
            return found;
        }
        pos = end + 1;
    }
    assert(done + Seq::<Seq<char>>::empty() =~= done);
    found
}

/// The end of the run of characters other than white space that begins at `pos`.
pub open spec fn word_end(s: Seq<char>, pos: int) -> int
    decreases s.len() - pos,
{
    if 0 <= pos < s.len() && !is_space(s[pos]) {
        word_end(s, pos + 1)
    } else {
        pos
    }
}

/// The words of `s` from `pos` on: the runs of characters other than white
/// space.
pub open spec fn words_from(s: Seq<char>, pos: int) -> Seq<Seq<char>>
    decreases s.len() - pos,
{
    let start = skip_spaces(s, pos);
    let end = word_end(s, start);
    if 0 <= pos <= start < end <= s.len() {
        seq![s.subrange(start, end)] + words_from(s, end)
    } else {
        Seq::empty()
    }
}

/// The words of `s`.
pub open spec fn words_of(s: Seq<char>) -> Seq<Seq<char>> {
    words_from(s, 0)
}

/// The words of `s`.
pub fn words(s: &[char]) -> (found: Vec<Vec<char>>)
    ensures
        found.len() == words_of(s@).len(),
        forall|i: int| 0 <= i < found.len() ==> (#[trigger] found@[i])@ == words_of(s@)[i],
{
    let mut found: Vec<Vec<char>> = Vec::new();
    let mut pos: usize = 0;
    let ghost mut done: Seq<Seq<char>> = Seq::empty();
    assert(done + words_from(s@, 0) =~= words_of(s@));
    loop
        invariant
            pos <= s.len(),
            found.len() == done.len(),
            forall|i: int| 0 <= i < found.len() ==> (#[trigger] found@[i])@ == done[i],
            words_of(s@) == done + words_from(s@, pos as int),
        decreases s.len() - pos,
    {
        let start = skip_spaces_from(s, pos);
        let mut end: usize = start;
        while end < s.len() && !is_space_char(s[end])
            invariant
                start <= end <= s.len(),
                word_end(s@, start as int) == word_end(s@, end as int),
            decreases s.len() - end,
        {
            end += 1;
        }
        if end == start {
            assert(done + Seq::<Seq<char>>::empty() =~= done);
            return found;
        }
        let word = copy_range(s, start, end);
        proof {
            let tail = words_from(s@, end as int);
            assert(words_from(s@, pos as int) =~= seq![word@] + tail);
            assert(done + (seq![word@] + tail) =~= done.push(word@) + tail);
            done = done.push(word@);
        }
        found.push(word);
        pos = end;
    }
}

/// The position of the first element at or after `pos` that meets `test`;
/// the length of `s` where there is none.
pub open spec fn first_from<A>(s: Seq<A>, pos: int, test: spec_fn(A) -> bool) -> int
    decreases s.len() - pos,
{
    if 0 <= pos < s.len() && !test(s[pos]) {
        first_from(s, pos + 1, test)
    } else if pos > s.len() {
        s.len() as int
    } else {
        pos
    }
}

/// `first_from` moves forward within `s`, passes no element that meets the
/// test and stops at one that does.
pub proof fn lemma_first_from<A>(s: Seq<A>, pos: int, test: spec_fn(A) -> bool)
    requires
        0 <= pos <= s.len(),
    ensures
        pos <= first_from(s, pos, test) <= s.len(),
        forall|i: int| pos <= i < first_from(s, pos, test) ==> !test(#[trigger] s[i]),
        first_from(s, pos, test) < s.len() ==> test(s[first_from(s, pos, test)]),
    decreases s.len() - pos,
{
    if pos < s.len() && !test(s[pos]) {
        lemma_first_from(s, pos + 1, test);
    }
}

/// The character sequences that a list of strings holds.
pub open spec fn strings_of(items: Seq<String>) -> Seq<Seq<char>> {
    Seq::new(items.len(), |i: int| items[i]@)
}

/// The character sequences that a list of character vectors holds.
pub open spec fn texts_of(items: Seq<Vec<char>>) -> Seq<Seq<char>> {
    Seq::new(items.len(), |i: int| items[i]@)
}

/// A message that quotes a piece of the input between two fixed texts.
pub open spec fn quoting(before: Seq<char>, quoted: Seq<char>, after: Seq<char>) -> Seq<char> {
    before + quoted + after
}

/// The message `before` + `quoted` + `after`.
pub fn quote(before: &str, quoted: &[char], after: &str) -> (message: String)
    ensures
        message@ == quoting(before@, quoted@, after@),
{
    let mut out: Vec<char> = Vec::new();
    push_str(&mut out, before);
    push_chars(&mut out, quoted);
    push_str(&mut out, after);
    string_of(out.as_slice())
}

/// Whether `s` holds exactly the text `literal`.
pub fn str_is(s: &str, literal: &str) -> (same: bool)
    ensures
        same == (s@ == literal@),
{
    let chars = chars_of(s);
    is_text(chars.as_slice(), literal)
}

} // verus!
