//! Character-level helpers for the textual parts of the configuration.

use vstd::prelude::*;

verus! {

/// The characters of `s`, in order.
pub fn chars_of(s: &str) -> (chars: Vec<char>)
    ensures
        chars@ == s@,
{
    let mut chars: Vec<char> = Vec::new();
    for c in it: s.chars()
        invariant
            chars@ == s@.take(it.index() as int),
            it.seq() == s@,
    {
        chars.push(c);
        assert(s@.take(it.index() + 1) =~= s@.take(it.index() as int).push(s@[it.index() as int]));
    }
    assert(s@.take(s@.len() as int) =~= s@);
    chars
}

/// `String::from_iter`: the string made of the characters of `chars`, in
/// order.
#[verifier::external_body]
pub(crate) fn string_of(chars: &Vec<char>) -> (out: String)
    ensures
        out@ == chars@,
{
    chars.iter().collect()
}

/// `needle` stands in `hay` from position `i` on.
pub open spec fn occurs_at<T>(hay: Seq<T>, needle: Seq<T>, i: int) -> bool {
    0 <= i && i + needle.len() <= hay.len() && hay.subrange(i, i + needle.len()) == needle
}

/// `needle` stands somewhere in `hay` as a contiguous run. The empty run
/// stands in every sequence.
pub open spec fn contains_run<T>(hay: Seq<T>, needle: Seq<T>) -> bool {
    exists|i: int| occurs_at(hay, needle, i)
}

/// Whether the characters `needle` stand in `hay` from position `at` on.
pub fn chars_match_at(hay: &Vec<char>, needle: &Vec<char>, at: usize) -> (found: bool)
    requires
        at + needle@.len() <= hay@.len(),
    ensures
        found == occurs_at(hay@, needle@, at as int),
{
    let n: usize = needle.len();
    let h: usize = hay.len();
    let mut j: usize = 0;
    while j < n
        invariant
            n == needle@.len(),
            h == hay@.len(),
            at + n <= h,
            j <= n,
            forall|k: int| 0 <= k < j ==> hay@[at + k] == needle@[k],
        decreases n - j,
    {
        if hay[at + j] != needle[j] {
            assert(hay@.subrange(at as int, at + n)[j as int] == hay@[at + j]);
            return false;
        }
        j += 1;
    }
    assert(hay@.subrange(at as int, at + n) =~= needle@);
    true
}

/// Whether the characters `needle` stand somewhere in `hay`.
pub fn chars_contain(hay: &Vec<char>, needle: &Vec<char>) -> (found: bool)
    ensures
        found == contains_run(hay@, needle@),
{
    let h: usize = hay.len();
    let n: usize = needle.len();
    if n > h {
        return false;
    }
    let last: usize = h - n;
    let mut i: usize = 0;
    loop
        invariant
            h == hay@.len(),
            n == needle@.len(),
            last == h - n,
            i <= last,
            forall|k: int| 0 <= k < i ==> !occurs_at(hay@, needle@, k),
        decreases last - i,
    {
        if chars_match_at(hay, needle, i) {
            return true;
        }
        if i == last {
            return false;
        }
        i += 1;
    }
}

/// Whether the character `c` occurs in `chars`.
pub fn chars_have(chars: &Vec<char>, c: char) -> (found: bool)
    ensures
        found == chars@.contains(c),
{
    let n: usize = chars.len();
    let mut i: usize = 0;
    while i < n
        invariant
            n == chars@.len(),
            i <= n,
            forall|k: int| 0 <= k < i ==> chars@[k] != c,
        decreases n - i,
    {
        if chars[i] == c {
            return true;
        }
        i += 1;
    }
    false
}

/// Whether `chars` holds exactly the characters of `text`.
pub fn chars_are(chars: &Vec<char>, text: &str) -> (same: bool)
    ensures
        same == (chars@ == text@),
{
    let other: Vec<char> = chars_of(text);
    let n: usize = chars.len();
    if other.len() != n {
        return false;
    }
    let mut i: usize = 0;
    while i < n
        invariant
            n == chars@.len(),
            n == other@.len(),
            other@ == text@,
            i <= n,
            forall|k: int| 0 <= k < i ==> chars@[k] == other@[k],
        decreases n - i,
    {
        if chars[i] != other[i] {
            assert(chars@[i as int] != other@[i as int]);
            return false;
        }
        i += 1;
    }
    assert(chars@ =~= other@);
    true
}

/// A copy of the characters of `chars` from `from` up to `to`.
pub fn sub_chars(chars: &Vec<char>, from: usize, to: usize) -> (part: Vec<char>)
    requires
        from <= to <= chars@.len(),
    ensures
        part@ == chars@.subrange(from as int, to as int),
{
    let mut part: Vec<char> = Vec::new();
    let mut i: usize = from;
    while i < to
        invariant
            from <= i <= to,
            to <= chars@.len(),
            part@ == chars@.subrange(from as int, i as int),
        decreases to - i,
    {
        part.push(chars[i]);
        i += 1;
        assert(part@ =~= chars@.subrange(from as int, i as int));
    }
    part
}

/// The position of the first `c` in `text`, or the length of `text` where
/// it holds none.
pub open spec fn first_index(text: Seq<char>, c: char) -> int
    decreases text.len(),
{
    if text.len() == 0 {
        0
    } else if text[0] == c {
        0
    } else {
        1 + first_index(text.skip(1), c)
    }
}

/// `first_index` is the least position that holds `c`, and never past the end.
pub proof fn lemma_first_index(text: Seq<char>, c: char)
    ensures
        0 <= first_index(text, c) <= text.len(),
        first_index(text, c) < text.len() ==> text[first_index(text, c)] == c,
        forall|j: int| 0 <= j < first_index(text, c) ==> text[j] != c,
        first_index(text, c) < text.len() <==> text.contains(c),
    decreases text.len(),
{
    if text.len() > 0 && text[0] != c {
        let rest = text.skip(1);
        lemma_first_index(rest, c);
        assert forall|j: int| 0 <= j < first_index(text, c) implies text[j] != c by {
            if j > 0 {
                assert(text[j] == rest[j - 1]);
            }
        }
        if first_index(rest, c) < rest.len() {
            assert(text[first_index(text, c)] == rest[first_index(rest, c)]);
        } else {
            assert forall|j: int| 0 <= j < text.len() implies text[j] != c by {}
        }
    }
}

/// The position of the first `c` at or after `from` in `chars`, or the
/// length of `chars` where none follows.
pub fn find_char(chars: &Vec<char>, from: usize, c: char) -> (at: usize)
    requires
        from <= chars@.len(),
    ensures
        at == from + first_index(chars@.skip(from as int), c),
        from <= at <= chars@.len(),
{
    let n: usize = chars.len();
    let mut i: usize = from;
    proof {
        lemma_first_index(chars@.skip(from as int), c);
    }
    while i < n
        invariant
            n == chars@.len(),
            from <= i <= n,
            forall|j: int| from <= j < i ==> chars@[j] != c,
        decreases n - i,
    {
        if chars[i] == c {
            proof {
                let rest = chars@.skip(from as int);
                lemma_first_index(rest, c);
                let f = first_index(rest, c);
                assert(rest[i - from] == c);
                if f < i - from {
                    assert(rest[f] == chars@[from + f]);
                }
            }
            return i;
        }
        i += 1;
    }
    proof {
        let rest = chars@.skip(from as int);
        lemma_first_index(rest, c);
        let f = first_index(rest, c);
        if f < rest.len() {
            assert(rest[f] == chars@[from + f]);
        }
    }
    n
}

/// The fields of `text` between the separators `sep`. A text without a
/// separator is one field; two separators in a row hold an empty field.
pub open spec fn fields(text: Seq<char>, sep: char) -> Seq<Seq<char>>
    decreases text.len(),
{
    let cut = first_index(text, sep);
    if 0 <= cut < text.len() {
        seq![text.take(cut)] + fields(text.skip(cut + 1), sep)
    } else {
        seq![text]
    }
}

/// The contents of each list of characters.
pub open spec fn char_views(parts: Seq<Vec<char>>) -> Seq<Seq<char>> {
    parts.map_values(|part: Vec<char>| part@)
}

/// Splits `chars` into its fields between the separators `sep`.
pub fn split_chars(chars: &Vec<char>, sep: char) -> (parts: Vec<Vec<char>>)
    ensures
        char_views(parts@) == fields(chars@, sep),
        parts@.len() >= 1,
{
    let n: usize = chars.len();
    let mut parts: Vec<Vec<char>> = Vec::new();
    let mut from: usize = 0;
    assert(chars@.skip(0) =~= chars@);
    assert(char_views(parts@) =~= Seq::<Seq<char>>::empty());
    loop
        invariant
            n == chars@.len(),
            from <= n,
            fields(chars@, sep) == char_views(parts@) + fields(chars@.skip(from as int), sep),
        decreases n - from,
    {
        let cut: usize = find_char(chars, from, sep);
        let field: Vec<char> = sub_chars(chars, from, cut);
        let ghost rest = chars@.skip(from as int);
        let ghost before = parts@;
        proof {
            lemma_first_index(rest, sep);
            assert(rest.take(cut - from) =~= chars@.subrange(from as int, cut as int));
        }
        parts.push(field);
        assert(char_views(parts@) =~= char_views(before).push(field@));
        if cut == n {
            assert(char_views(before) + seq![field@] =~= char_views(parts@));
            return parts;
        }
        proof {
            assert(rest.skip(cut - from + 1) =~= chars@.skip(cut + 1));
            assert(char_views(before) + (seq![field@] + fields(chars@.skip(cut + 1), sep))
                =~= char_views(parts@) + fields(chars@.skip(cut + 1), sep));
        }
        from = cut + 1;
    }
}

/// Unicode's white space, as `str::trim` takes it.
pub open spec fn is_space(c: char) -> bool {
    let u = c as u32;
    ||| 0x09 <= u <= 0x0D
    ||| u == 0x20
    ||| u == 0x85
    ||| u == 0xA0
    ||| u == 0x1680
    ||| 0x2000 <= u <= 0x200A
    ||| u == 0x2028
    ||| u == 0x2029
    ||| u == 0x202F
    ||| u == 0x205F
    ||| u == 0x3000
}

/// Whether `c` is white space.
pub fn char_is_space(c: char) -> (space: bool)
    ensures
        space == is_space(c),
{
    let u: u32 = c as u32;
    (0x09 <= u && u <= 0x0D) || u == 0x20 || u == 0x85 || u == 0xA0 || u == 0x1680 || (0x2000 <= u
        && u <= 0x200A) || u == 0x2028 || u == 0x2029 || u == 0x202F || u == 0x205F || u == 0x3000
}

/// `text` without the white space it starts with.
pub open spec fn trim_start(text: Seq<char>) -> Seq<char>
    decreases text.len(),
{
    if text.len() > 0 && is_space(text[0]) {
        trim_start(text.skip(1))
    } else {
        text
    }
}

/// `text` without the white space it ends with.
pub open spec fn trim_end(text: Seq<char>) -> Seq<char>
    decreases text.len(),
{
    if text.len() > 0 && is_space(text.last()) {
        trim_end(text.drop_last())
    } else {
        text
    }
}

/// `text` without the white space at either end.
pub open spec fn trimmed(text: Seq<char>) -> Seq<char> {
    trim_end(trim_start(text))
}

proof fn lemma_trim_start_from(text: Seq<char>, k: int)
    requires
        0 <= k <= text.len(),
        forall|j: int| 0 <= j < k ==> is_space(text[j]),
    ensures
        trim_start(text) == trim_start(text.skip(k)),
    decreases k,
{
    if k > 0 {
        lemma_trim_start_from(text.skip(1), k - 1);
        assert(text.skip(1).skip(k - 1) =~= text.skip(k));
    } else {
        assert(text.skip(0) =~= text);
    }
}

proof fn lemma_trim_end_to(text: Seq<char>, k: int)
    requires
        0 <= k <= text.len(),
        forall|j: int| k <= j < text.len() ==> is_space(text[j]),
    ensures
        trim_end(text) == trim_end(text.take(k)),
    decreases text.len() - k,
{
    if k < text.len() {
        lemma_trim_end_to(text.drop_last(), k);
        assert(text.drop_last().take(k) =~= text.take(k));
    } else {
        assert(text.take(k) =~= text);
    }
}

/// A copy of `chars` without the white space at either end.
pub fn trim_chars(chars: &Vec<char>) -> (kept: Vec<char>)
    ensures
        kept@ == trimmed(chars@),
{
    let n: usize = chars.len();
    let mut from: usize = 0;
    while from < n && char_is_space(chars[from])
        invariant
            n == chars@.len(),
            from <= n,
            forall|j: int| 0 <= j < from ==> is_space(chars@[j]),
        decreases n - from,
    {
        from += 1;
    }
    let mut to: usize = n;
    while to > from && char_is_space(chars[to - 1])
        invariant
            n == chars@.len(),
            from <= to <= n,
            forall|j: int| to <= j < n ==> is_space(chars@[j]),
        decreases to,
    {
        to -= 1;
    }
    proof {
        let tail = chars@.skip(from as int);
        lemma_trim_start_from(chars@, from as int);
        assert(trim_start(chars@) == tail);
        assert forall|j: int| to - from <= j < tail.len() implies is_space(tail[j]) by {
            assert(tail[j] == chars@[from + j]);
        }
        lemma_trim_end_to(tail, to - from);
        let body = tail.take(to - from);
        assert(body =~= chars@.subrange(from as int, to as int));
        if body.len() > 0 {
            assert(body.last() == chars@[to - 1]);
        }
        assert(trim_end(body) == body);
    }
    sub_chars(chars, from, to)
}

/// Why a text is no decimal number of the wanted type.
#[derive(Debug, Clone, Copy, PartialEq, Eq, Structural)]
pub enum IntError {
    /// The text is empty.
    Empty,
    /// A character is no decimal digit, or a sign stands alone.
    InvalidDigit,
    /// The number is above the type's largest value.
    PosOverflow,
    /// The number is below the type's smallest value.
    NegOverflow,
}

/// `c` is a decimal digit.
pub open spec fn is_digit(c: char) -> bool {
    '0' <= c <= '9'
}

/// Reads `digits` from the left as a decimal number, kept within `min` and
/// `max`; where `negative`, each digit counts downwards. The first
/// character that is no digit, or that takes the number out of range, decides
/// the error.
pub open spec fn accumulate(digits: Seq<char>, negative: bool, min: int, max: int) -> Result<
    int,
    IntError,
>
    decreases digits.len(),
{
    if digits.len() == 0 {
        Ok(0)
    } else {
        match accumulate(digits.drop_last(), negative, min, max) {
            Err(e) => Err(e),
            Ok(v) => {
                let d = digits.last() as u32 - '0' as u32;
                if !is_digit(digits.last()) {
                    Err(IntError::InvalidDigit)
                } else if negative {
                    if v * 10 - d < min {
                        Err(IntError::NegOverflow)
                    } else {
                        Ok(v * 10 - d)
                    }
                } else {
                    if v * 10 + d > max {
                        Err(IntError::PosOverflow)
                    } else {
                        Ok(v * 10 + d)
                    }
                }
            },
        }
    }
}

/// The number that `text` spells in decimal, as `str::parse` reads it for an
/// integer type that spans `min` to `max`: an optional `+`, or `-` for a
/// signed type, then at least one digit, and nothing else.
pub open spec fn parse_int(text: Seq<char>, signed: bool, min: int, max: int) -> Result<
    int,
    IntError,
> {
    if text.len() == 0 {
        Err(IntError::Empty)
    } else if text.len() == 1 && (text[0] == '+' || text[0] == '-') {
        Err(IntError::InvalidDigit)
    } else if text[0] == '+' {
        accumulate(text.skip(1), false, min, max)
    } else if signed && text[0] == '-' {
        accumulate(text.skip(1), true, min, max)
    } else {
        accumulate(text, false, min, max)
    }
}

proof fn lemma_accumulate_error_stays(
    digits: Seq<char>,
    k: int,
    negative: bool,
    min: int,
    max: int,
)
    requires
        0 <= k <= digits.len(),
        accumulate(digits.take(k), negative, min, max) is Err,
    ensures
        accumulate(digits, negative, min, max) == accumulate(digits.take(k), negative, min, max),
    decreases digits.len() - k,
{
    if k < digits.len() {
        assert(digits.drop_last().take(k) =~= digits.take(k));
        lemma_accumulate_error_stays(digits.drop_last(), k, negative, min, max);
    } else {
        assert(digits.take(k) =~= digits);
    }
}

proof fn lemma_accumulate_range(digits: Seq<char>, negative: bool, min: int, max: int)
    requires
        min <= 0 <= max,
    ensures
        accumulate(digits, negative, min, max) matches Ok(v) ==> min <= v <= max && (negative
            ==> v <= 0) && (!negative ==> 0 <= v),
    decreases digits.len(),
{
    if digits.len() > 0 {
        lemma_accumulate_range(digits.drop_last(), negative, min, max);
    }
}

fn accumulate_chars(chars: &Vec<char>, from: usize, negative: bool, min: i128, max: i128) -> (out:
    Result<i128, IntError>)
    requires
        from <= chars@.len(),
        i64::MIN <= min <= 0 <= max <= u64::MAX,
    ensures
        out matches Ok(v) ==> accumulate(chars@.skip(from as int), negative, min as int, max as int)
            == Ok::<int, IntError>(v as int),
        out matches Err(e) ==> accumulate(chars@.skip(from as int), negative, min as int, max as int)
            == Err::<int, IntError>(e),
{
    let n: usize = chars.len();
    let ghost digits = chars@.skip(from as int);
    let mut acc: i128 = 0;
    let mut i: usize = from;
    while i < n
        invariant
            n == chars@.len(),
            from <= i <= n,
            digits == chars@.skip(from as int),
            i64::MIN <= min <= 0 <= max <= u64::MAX,
            min <= acc <= max,
            negative ==> acc <= 0,
            !negative ==> 0 <= acc,
            accumulate(digits.take(i - from), negative, min as int, max as int) == Ok::<
                int,
                IntError,
            >(acc as int),
        decreases n - i,
    {
        let c: char = chars[i];
        proof {
            assert(digits.take(i - from + 1).drop_last() =~= digits.take(i - from));
            assert(digits.take(i - from + 1).last() == c);
        }
        if c < '0' || c > '9' {
            proof {
                lemma_accumulate_error_stays(digits, i - from + 1, negative, min as int, max as int);
            }
            return Err(IntError::InvalidDigit);
        }
        let d: i128 = (c as u32 - '0' as u32) as i128;
        if negative {
            if acc * 10 - d < min {
                proof {
                    lemma_accumulate_error_stays(
                        digits,
                        i - from + 1,
                        negative,
                        min as int,
                        max as int,
                    );
                }
                return Err(IntError::NegOverflow);
            }
            acc = acc * 10 - d;
        } else {
            if acc * 10 + d > max {
                proof {
                    lemma_accumulate_error_stays(
                        digits,
                        i - from + 1,
                        negative,
                        min as int,
                        max as int,
                    );
                }
                return Err(IntError::PosOverflow);
            }
            acc = acc * 10 + d;
        }
        i += 1;
    }
    assert(digits.take(n - from) =~= digits);
    Ok(acc)
}

fn parse_chars(chars: &Vec<char>, signed: bool, min: i128, max: i128) -> (out: Result<
    i128,
    IntError,
>)
    requires
        i64::MIN <= min <= 0 <= max <= u64::MAX,
    ensures
        out matches Ok(v) ==> parse_int(chars@, signed, min as int, max as int) == Ok::<
            int,
            IntError,
        >(v as int) && min <= v <= max,
        out matches Err(e) ==> parse_int(chars@, signed, min as int, max as int) == Err::<
            int,
            IntError,
        >(e),
{
    proof {
        lemma_accumulate_range(chars@, false, min as int, max as int);
        lemma_accumulate_range(chars@.skip(1), false, min as int, max as int);
        lemma_accumulate_range(chars@.skip(1), true, min as int, max as int);
        assert(chars@.skip(0) =~= chars@);
    }
    let n: usize = chars.len();
    if n == 0 {
        return Err(IntError::Empty);
    }
    let first: char = chars[0];
    if n == 1 && (first == '+' || first == '-') {
        return Err(IntError::InvalidDigit);
    }
    if first == '+' {
        accumulate_chars(chars, 1, false, min, max)
    } else if signed && first == '-' {
        accumulate_chars(chars, 1, true, min, max)
    } else {
        accumulate_chars(chars, 0, false, min, max)
    }
}

/// The number up to `max` that `text` spells, or why it spells none.
pub open spec fn parse_unsigned_spec(text: Seq<char>, max: u64) -> Result<u64, IntError> {
    match parse_int(text, false, 0, max as int) {
        Ok(v) => Ok(v as u64),
        Err(e) => Err(e),
    }
}

/// Reads `chars` as a decimal number of an unsigned type whose largest
/// value is `max`.
pub fn parse_unsigned(chars: &Vec<char>, max: u64) -> (out: Result<u64, IntError>)
    ensures
        out == parse_unsigned_spec(chars@, max),
        out matches Ok(v) ==> v <= max,
{
    match parse_chars(chars, false, 0, max as i128) {
        Ok(v) => Ok(v as u64),
        Err(e) => Err(e),
    }
}

/// The position of the first occurrence of `needle` in `hay` at or after
/// `from`, or the length of `hay` where none follows.
pub open spec fn first_run(hay: Seq<char>, needle: Seq<char>, from: int) -> int
    decreases hay.len() - from + 1,
{
    if from < 0 || from + needle.len() > hay.len() {
        hay.len() as int
    } else if occurs_at(hay, needle, from) {
        from
    } else {
        first_run(hay, needle, from + 1)
    }
}

/// The position of the first occurrence of `needle` in `hay` at or after
/// `from`, or the length of `hay` where none follows.
pub fn find_run(hay: &Vec<char>, needle: &Vec<char>, from: usize) -> (at: usize)
    requires
        from <= hay@.len(),
    ensures
        at == first_run(hay@, needle@, from as int),
        from <= at <= hay@.len(),
        at < hay@.len() ==> at + needle@.len() <= hay@.len(),
{
    let h: usize = hay.len();
    let n: usize = needle.len();
    if n > h || from > h - n {
        return h;
    }
    let last: usize = h - n;
    let mut i: usize = from;
    loop
        invariant
            h == hay@.len(),
            n == needle@.len(),
            last == h - n,
            from <= i <= last,
            first_run(hay@, needle@, from as int) == first_run(hay@, needle@, i as int),
        decreases last - i,
    {
        if chars_match_at(hay, needle, i) {
            if n == 0 && i == h {
                return h;
            }
            return i;
        }
        if i == last {
            assert(first_run(hay@, needle@, i + 1) == h);
            return h;
        }
        i += 1;
    }
}

/// The `u16` that `text` spells, or why it spells none.
pub open spec fn parse_u16_spec(text: Seq<char>) -> Result<u16, IntError> {
    match parse_int(text, false, 0, u16::MAX as int) {
        Ok(v) => Ok(v as u16),
        Err(e) => Err(e),
    }
}

/// The `i64` that `text` spells, or why it spells none.
pub open spec fn parse_i64_spec(text: Seq<char>) -> Result<i64, IntError> {
    match parse_int(text, true, i64::MIN as int, i64::MAX as int) {
        Ok(v) => Ok(v as i64),
        Err(e) => Err(e),
    }
}

/// Reads `chars` as a decimal `u16`.
pub fn parse_u16(chars: &Vec<char>) -> (out: Result<u16, IntError>)
    ensures
        out == parse_u16_spec(chars@),
{
    match parse_chars(chars, false, 0, 65535) {
        Ok(v) => Ok(v as u16),
        Err(e) => Err(e),
    }
}

/// Reads `chars` as a decimal `i64`.
pub fn parse_i64(chars: &Vec<char>) -> (out: Result<i64, IntError>)
    ensures
        out == parse_i64_spec(chars@),
{
    match parse_chars(chars, true, -9223372036854775808, 9223372036854775807) {
        Ok(v) => Ok(v as i64),
        Err(e) => Err(e),
    }
}

} // verus!
