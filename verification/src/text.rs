//! Text as sequences of characters: trimming, splitting, and numbers.
use vstd::prelude::*;

verus! {

/// The characters with the Unicode White_Space property.
pub open spec fn is_space(c: char) -> bool {
    let code = c as u32;
    ||| 0x09 <= code <= 0x0d
    ||| code == 0x20
    ||| code == 0x85
    ||| code == 0xa0
    ||| code == 0x1680
    ||| 0x2000 <= code <= 0x200a
    ||| code == 0x2028
    ||| code == 0x2029
    ||| code == 0x202f
    ||| code == 0x205f
    ||| code == 0x3000
}

pub fn is_white_space(c: char) -> (space: bool)
    ensures
        space == is_space(c),
{
    let code: u32 = c as u32;
    (0x09 <= code && code <= 0x0d) || code == 0x20 || code == 0x85 || code == 0xa0 || code == 0x1680
        || (0x2000 <= code && code <= 0x200a) || code == 0x2028 || code == 0x2029 || code == 0x202f
        || code == 0x205f || code == 0x3000
}

/// Text without leading white space.
pub open spec fn trim_start(s: Seq<char>) -> Seq<char>
    decreases s.len(),
{
    if s.len() > 0 && is_space(s[0]) {
        trim_start(s.skip(1))
    } else {
        s
    }
}

/// Text without trailing white space.
pub open spec fn trim_end(s: Seq<char>) -> Seq<char>
    decreases s.len(),
{
    if s.len() > 0 && is_space(s.last()) {
        trim_end(s.drop_last())
    } else {
        s
    }
}

/// Text without white space at either end.
pub open spec fn trimmed(s: Seq<char>) -> Seq<char> {
    trim_end(trim_start(s))
}

/// The place of the first `c`, or the length where there is none.
pub open spec fn find(s: Seq<char>, c: char) -> nat
    decreases s.len(),
{
    if s.len() == 0 || s[0] == c {
        0
    } else {
        1 + find(s.skip(1), c)
    }
}

/// The parts of a text between the separators `c`; one more than there are
/// separators.
pub open spec fn parts(s: Seq<char>, c: char) -> Seq<Seq<char>>
    decreases s.len(),
{
    let k = find(s, c);
    if k >= s.len() {
        seq![s]
    } else {
        seq![s.take(k as int)] + parts(s.skip(k as int + 1), c)
    }
}

/// A line without the carriage return before its line feed.
pub open spec fn without_return(line: Seq<char>) -> Seq<char> {
    if line.len() > 0 && line.last() == '\r' {
        line.drop_last()
    } else {
        line
    }
}

/// The lines of a text: each ends with a line feed, before which a carriage return
/// is dropped; the last may be unterminated, and then keeps every character.
pub open spec fn lines_of(s: Seq<char>) -> Seq<Seq<char>>
    decreases s.len(),
{
    let k = find(s, '\n');
    if s.len() == 0 {
        Seq::empty()
    } else if k >= s.len() {
        seq![s]
    } else {
        seq![without_return(s.take(k as int))] + lines_of(s.skip(k as int + 1))
    }
}

/// The place of the first white space, or the length where there is none.
pub open spec fn find_space(s: Seq<char>) -> nat
    decreases s.len(),
{
    if s.len() == 0 || is_space(s[0]) {
        0
    } else {
        1 + find_space(s.skip(1))
    }
}

/// The maximal runs of characters that are not white space.
pub open spec fn words_of(s: Seq<char>) -> Seq<Seq<char>>
    decreases s.len(),
{
    if s.len() == 0 {
        Seq::empty()
    } else if is_space(s[0]) {
        words_of(s.skip(1))
    } else {
        let k = find_space(s);
        proof {
            find_space_is_in_range(s);
        }
        seq![s.take(k as int)] + words_of(s.skip(k as int))
    }
}

pub proof fn find_space_is_in_range(s: Seq<char>)
    ensures
        find_space(s) <= s.len(),
        s.len() > 0 && !is_space(s[0]) ==> find_space(s) > 0,
        forall|i: int| 0 <= i < find_space(s) ==> !is_space(#[trigger] s[i]),
        find_space(s) < s.len() ==> is_space(s[find_space(s) as int]),
    decreases s.len(),
{
    if s.len() > 0 && !is_space(s[0]) {
        find_space_is_in_range(s.skip(1));
        assert forall|i: int| 0 <= i < find_space(s) implies !is_space(#[trigger] s[i]) by {
            if i > 0 {
                assert(s.skip(1)[i - 1] == s[i]);
            }
        }
    }
}

pub proof fn find_is_in_range(s: Seq<char>, c: char)
    ensures
        find(s, c) <= s.len(),
        forall|i: int| 0 <= i < find(s, c) ==> #[trigger] s[i] != c,
        find(s, c) < s.len() ==> s[find(s, c) as int] == c,
    decreases s.len(),
{
    if s.len() > 0 && s[0] != c {
        find_is_in_range(s.skip(1), c);
        assert forall|i: int| 0 <= i < find(s, c) implies #[trigger] s[i] != c by {
            if i > 0 {
                assert(s.skip(1)[i - 1] == s[i]);
            }
        }
    }
}

/// The place found is the only one before which `c` is missing.
pub proof fn find_is_the_first(s: Seq<char>, c: char, k: nat)
    requires
        k <= s.len(),
        forall|i: int| 0 <= i < k ==> #[trigger] s[i] != c,
        k < s.len() ==> s[k as int] == c,
    ensures
        find(s, c) == k,
    decreases s.len(),
{
    find_is_in_range(s, c);
    let f = find(s, c);
    if f < k {
        assert(s[f as int] != c);
    }
}

/// The contents of a list of texts.
pub open spec fn views(texts: Seq<&str>) -> Seq<Seq<char>> {
    Seq::new(texts.len(), |i: int| texts[i]@)
}

/// The characters of a text.
pub fn chars_of(text: &str) -> (chars: Vec<char>)
    ensures
        chars@ == text@,
{
    let mut chars: Vec<char> = Vec::new();
    for c in it: text.chars()
        invariant
            it.seq() == text@,
            chars@ == text@.take(it.index()),
    {
        chars.push(c);
        assert(text@.take(it.index() + 1) =~= text@.take(it.index()).push(c));
    }
    assert(text@.take(text@.len() as int) =~= text@);
    chars
}

/// Whether two texts are the same.
pub fn same(first: &str, second: &str) -> (equal: bool)
    ensures
        equal == (first@ == second@),
{
    let a = chars_of(first);
    let b = chars_of(second);
    if a.len() != b.len() {
        return false;
    }
    for i in 0..a.len()
        invariant
            a@ == first@,
            b@ == second@,
            a@.len() == b@.len(),
            forall|j: int| 0 <= j < i ==> a@[j] == b@[j],
    {
        if a[i] != b[i] {
            return false;
        }
    }
    assert(first@ =~= second@);
    true
}

/// `str::trim`.
pub fn trim<'a>(text: &'a str) -> (rest: &'a str)
    ensures
        rest@ == trimmed(text@),
{
    let chars = chars_of(text);
    let mut from: usize = 0;
    assert(text@.skip(0) =~= text@);
    while from < chars.len() && is_white_space(chars[from])
        invariant
            chars@ == text@,
            from <= chars@.len(),
            trim_start(text@) == trim_start(text@.skip(from as int)),
        decreases chars.len() - from,
    {
        assert(text@.skip(from as int).skip(1) =~= text@.skip(from as int + 1));
        from = from + 1;
    }
    let ghost start = text@.skip(from as int);
    assert(trim_start(text@) == start);
    let mut to: usize = chars.len();
    assert(text@.subrange(from as int, to as int) =~= start);
    while to > from && is_white_space(chars[to - 1])
        invariant
            chars@ == text@,
            from <= to <= chars@.len(),
            trim_end(start) == trim_end(text@.subrange(from as int, to as int)),
        decreases to,
    {
        assert(text@.subrange(from as int, to as int).drop_last() =~= text@.subrange(
            from as int,
            to - 1,
        ));
        to = to - 1;
    }
    text.substring_char(from, to)
}

/// The place of the first `c` from `from` on.
fn find_from(chars: &Vec<char>, from: usize, c: char) -> (place: usize)
    requires
        from <= chars@.len(),
    ensures
        from <= place <= chars@.len(),
        place - from == find(chars@.skip(from as int), c),
{
    let mut place: usize = from;
    while place < chars.len() && chars[place] != c
        invariant
            from <= place <= chars@.len(),
            place - from + find(chars@.skip(place as int), c) == find(chars@.skip(from as int), c),
        decreases chars.len() - place,
    {
        assert(chars@.skip(place as int).skip(1) =~= chars@.skip(place as int + 1));
        place = place + 1;
    }
    place
}

/// `str::split` at a character.
pub fn split<'a>(text: &'a str, c: char) -> (pieces: Vec<&'a str>)
    ensures
        views(pieces@) == parts(text@, c),
        pieces@.len() >= 1,
{
    let chars = chars_of(text);
    let mut pieces: Vec<&'a str> = Vec::new();
    let mut from: usize = 0;
    assert(text@.skip(0) =~= text@);
    loop
        invariant
            chars@ == text@,
            from <= chars@.len(),
            views(pieces@) + parts(text@.skip(from as int), c) == parts(text@, c),
        decreases chars.len() - from,
    {
        let place = find_from(&chars, from, c);
        let ghost rest = text@.skip(from as int);
        let ghost before = views(pieces@);
        let piece = text.substring_char(from, place);
        pieces.push(piece);
        proof {
            assert(views(pieces@) =~= before.push(piece@));
            assert(piece@ =~= rest.take(place - from));
        }
        if place == chars.len() {
            proof {
                assert(piece@ =~= rest);
                assert(views(pieces@) =~= before + seq![rest]);
            }
            return pieces;
        }
        proof {
            assert(rest.skip(place - from + 1) =~= text@.skip(place as int + 1));
            assert(before.push(piece@) + parts(text@.skip(place as int + 1), c) =~= before + (seq![
                piece@,
            ] + parts(text@.skip(place as int + 1), c)));
        }
        from = place + 1;
    }
}

/// `str::split_once` at a character.
pub fn split_once<'a>(text: &'a str, c: char) -> (pair: Option<(&'a str, &'a str)>)
    ensures
        ({
            let k = find(text@, c);
            match pair {
                Some((before, after)) => k < text@.len() && before@ == text@.take(k as int)
                    && after@ == text@.skip(k as int + 1),
                None => k >= text@.len(),
            }
        }),
{
    let chars = chars_of(text);
    assert(text@.skip(0) =~= text@);
    let place = find_from(&chars, 0, c);
    if place == chars.len() {
        return None;
    }
    let before = text.substring_char(0, place);
    let after = text.substring_char(place + 1, chars.len());
    assert(before@ =~= text@.take(place as int));
    assert(after@ =~= text@.skip(place as int + 1));
    Some((before, after))
}

/// `str::lines`.
pub fn lines<'a>(text: &'a str) -> (found: Vec<&'a str>)
    ensures
        views(found@) == lines_of(text@),
{
    let chars = chars_of(text);
    let mut found: Vec<&'a str> = Vec::new();
    let mut from: usize = 0;
    assert(text@.skip(0) =~= text@);
    assert(views(found@) =~= Seq::empty());
    while from < chars.len()
        invariant
            chars@ == text@,
            from <= chars@.len(),
            views(found@) + lines_of(text@.skip(from as int)) == lines_of(text@),
        decreases chars.len() - from,
    {
        let place = find_from(&chars, from, '\n');
        let ghost rest = text@.skip(from as int);
        let ghost before = views(found@);
        if place == chars.len() {
            let line = text.substring_char(from, place);
            found.push(line);
            proof {
                assert(line@ =~= rest);
                assert(views(found@) =~= before + seq![rest]);
            }
            return found;
        }
        let end: usize = if place > from && chars[place - 1] == '\r' {
            place - 1
        } else {
            place
        };
        let line = text.substring_char(from, end);
        found.push(line);
        proof {
            let whole = rest.take(place - from);
            assert(line@ =~= without_return(whole));
            assert(views(found@) =~= before.push(line@));
            assert(rest.skip(place - from + 1) =~= text@.skip(place as int + 1));
            assert(before.push(line@) + lines_of(text@.skip(place as int + 1)) =~= before + (seq![
                line@,
            ] + lines_of(text@.skip(place as int + 1))));
        }
        from = place + 1;
    }
    assert(text@.skip(from as int) =~= Seq::empty());
    assert(views(found@) + Seq::<Seq<char>>::empty() =~= views(found@));
    found
}

/// `str::split_whitespace`.
pub fn words<'a>(text: &'a str) -> (found: Vec<&'a str>)
    ensures
        views(found@) == words_of(text@),
{
    let chars = chars_of(text);
    let mut found: Vec<&'a str> = Vec::new();
    let mut from: usize = 0;
    assert(text@.skip(0) =~= text@);
    assert(views(found@) =~= Seq::empty());
    while from < chars.len()
        invariant
            chars@ == text@,
            from <= chars@.len(),
            views(found@) + words_of(text@.skip(from as int)) == words_of(text@),
        decreases chars.len() - from,
    {
        let ghost rest = text@.skip(from as int);
        let ghost before = views(found@);
        if is_white_space(chars[from]) {
            assert(rest.skip(1) =~= text@.skip(from as int + 1));
            from = from + 1;
        } else {
            let mut place: usize = from;
            while place < chars.len() && !is_white_space(chars[place])
                invariant
                    chars@ == text@,
                    from <= place <= chars@.len(),
                    rest == text@.skip(from as int),
                    place - from + find_space(text@.skip(place as int)) == find_space(rest),
                decreases chars.len() - place,
            {
                assert(text@.skip(place as int).skip(1) =~= text@.skip(place as int + 1));
                place = place + 1;
            }
            let word = text.substring_char(from, place);
            found.push(word);
            proof {
                find_space_is_in_range(rest);
                assert(word@ =~= rest.take(place - from));
                assert(views(found@) =~= before.push(word@));
                assert(rest.skip(place - from) =~= text@.skip(place as int));
                assert(before.push(word@) + words_of(text@.skip(place as int)) =~= before + (seq![
                    word@,
                ] + words_of(text@.skip(place as int))));
            }
            from = place;
        }
    }
    assert(text@.skip(from as int) =~= Seq::empty());
    assert(views(found@) + Seq::<Seq<char>>::empty() =~= views(found@));
    found
}

/// Why a text is no number of the type asked for.
#[derive(Debug, Clone, Copy, PartialEq, Eq, Structural)]
pub enum IntError {
    Empty,
    InvalidDigit,
    Overflow,
}

/// The value of a digit, up to base 16.
pub open spec fn digit_value(c: char) -> nat {
    let code = c as u32;
    if 0x30 <= code <= 0x39 {
        (code - 0x30) as nat
    } else if 0x61 <= code <= 0x66 {
        (code - 0x61 + 10) as nat
    } else if 0x41 <= code <= 0x46 {
        (code - 0x41 + 10) as nat
    } else {
        16
    }
}

/// The number that digits write, the first digit that is none or that exceeds the
/// limit deciding the error.
pub open spec fn digits_value(s: Seq<char>, radix: nat, max: nat) -> Result<nat, IntError>
    decreases s.len(),
{
    if s.len() == 0 {
        Ok(0)
    } else {
        match digits_value(s.drop_last(), radix, max) {
            Err(error) => Err(error),
            Ok(value) => {
                let digit = digit_value(s.last());
                if digit >= radix {
                    Err(IntError::InvalidDigit)
                } else if value * radix + digit > max {
                    Err(IntError::Overflow)
                } else {
                    Ok(value * radix + digit)
                }
            },
        }
    }
}

/// An unsigned number up to `max`: digits, with an optional plus sign before them.
pub open spec fn int_value(s: Seq<char>, radix: nat, max: nat) -> Result<nat, IntError> {
    if s.len() == 0 {
        Err(IntError::Empty)
    } else if s.len() == 1 && (s[0] == '+' || s[0] == '-') {
        Err(IntError::InvalidDigit)
    } else if s[0] == '+' {
        digits_value(s.skip(1), radix, max)
    } else {
        digits_value(s, radix, max)
    }
}

fn digit_of(c: char) -> (digit: u8)
    ensures
        digit == digit_value(c),
{
    let code: u32 = c as u32;
    if 0x30 <= code && code <= 0x39 {
        (code - 0x30) as u8
    } else if 0x61 <= code && code <= 0x66 {
        (code - 0x61 + 10) as u8
    } else if 0x41 <= code && code <= 0x46 {
        (code - 0x41 + 10) as u8
    } else {
        16
    }
}

/// Reads an unsigned number up to `max`, as `from_str_radix` does for a type with
/// that maximum.
pub fn parse_int(text: &str, radix: u8, max: u64) -> (value: Result<u64, IntError>)
    requires
        2 <= radix <= 16,
    ensures
        match value {
            Ok(value) => int_value(text@, radix as nat, max as nat) == Ok::<nat, IntError>(
                value as nat,
            ),
            Err(error) => int_value(text@, radix as nat, max as nat) == Err::<nat, IntError>(error),
        },
{
    let chars = chars_of(text);
    if chars.len() == 0 {
        return Err(IntError::Empty);
    }
    let plus = chars[0] == '+';
    if chars.len() == 1 && (plus || chars[0] == '-') {
        return Err(IntError::InvalidDigit);
    }
    let from: usize = if plus {
        1
    } else {
        0
    };
    let ghost digits = text@.skip(from as int);
    assert(text@.skip(0) =~= text@);
    let mut value: u64 = 0;
    let mut i: usize = from;
    assert(digits.take(0) =~= Seq::empty());
    while i < chars.len()
        invariant
            2 <= radix <= 16,
            chars@ == text@,
            from <= i <= chars@.len(),
            digits == text@.skip(from as int),
            int_value(text@, radix as nat, max as nat) == digits_value(
                digits,
                radix as nat,
                max as nat,
            ),
            digits_value(digits.take(i - from), radix as nat, max as nat) == Ok::<nat, IntError>(
                value as nat,
            ),
        decreases chars.len() - i,
    {
        let digit = digit_of(chars[i]);
        let ghost next = digits.take(i - from + 1);
        proof {
            assert(next.drop_last() =~= digits.take(i - from));
            assert(next.last() == text@[i as int]);
            if digits_value(next, radix as nat, max as nat) is Err {
                an_error_stays(digits, i - from + 1, radix as nat, max as nat);
            }
        }
        if digit >= radix {
            return Err(IntError::InvalidDigit);
        }
        assert(value as int * radix as int <= u64::MAX * 16) by (nonlinear_arith)
            requires
                value <= u64::MAX,
                radix <= 16,
        ;
        let grown: u128 = value as u128 * radix as u128 + digit as u128;
        if grown > max as u128 {
            return Err(IntError::Overflow);
        }
        value = grown as u64;
        i = i + 1;
    }
    assert(digits.take(i - from) =~= digits);
    Ok(value)
}

proof fn an_error_stays(s: Seq<char>, k: int, radix: nat, max: nat)
    requires
        0 <= k <= s.len(),
        digits_value(s.take(k), radix, max) is Err,
    ensures
        digits_value(s, radix, max) == digits_value(s.take(k), radix, max),
    decreases s.len(),
{
    if k < s.len() {
        assert(s.drop_last().take(k) =~= s.take(k));
        an_error_stays(s.drop_last(), k, radix, max);
    } else {
        assert(s.take(k) =~= s);
    }
}

/// A number that was read is within the limit.
pub proof fn numbers_keep_the_limit(s: Seq<char>, radix: nat, max: nat)
    ensures
        int_value(s, radix, max) matches Ok(value) ==> value <= max,
{
}

/// The digit of a value below 16.
pub open spec fn digit_char(value: nat) -> char {
    "0123456789abcdef"@[value as int]
}

/// Digits are distinct characters that are no separators, and each has its value.
pub proof fn digit_chars_are_digits(value: nat)
    requires
        value < 16,
    ensures
        digit_value(digit_char(value)) == value,
        !is_space(digit_char(value)),
        digit_char(value) != '+',
        digit_char(value) != '-',
        digit_char(value) != ',',
        digit_char(value) != '.',
        digit_char(value) != '=',
        digit_char(value) != '\n',
        digit_char(value) != '\r',
{
    reveal_strlit("0123456789abcdef");
}

/// A number in decimal digits.
pub open spec fn decimal(value: nat) -> Seq<char>
    decreases value,
{
    if value < 10 {
        seq![digit_char(value)]
    } else {
        decimal(value / 10).push(digit_char(value % 10))
    }
}

/// The last `width` hexadecimal digits of a number.
pub open spec fn hex(value: nat, width: nat) -> Seq<char>
    decreases width,
{
    if width == 0 {
        Seq::empty()
    } else {
        hex(value / 16, (width - 1) as nat).push(digit_char(value % 16))
    }
}

/// 16 to the power of `width`.
pub open spec fn hex_limit(width: nat) -> nat
    decreases width,
{
    if width == 0 {
        1
    } else {
        16 * hex_limit((width - 1) as nat)
    }
}

/// `count` spaces.
pub open spec fn spaces(count: nat) -> Seq<char> {
    Seq::new(count, |i: int| ' ')
}

/// Text set to the right in a field of `width` characters.
pub open spec fn padded_left(s: Seq<char>, width: nat) -> Seq<char> {
    if s.len() < width {
        spaces((width - s.len()) as nat) + s
    } else {
        s
    }
}

/// Text set to the left in a field of `width` characters.
pub open spec fn padded_right(s: Seq<char>, width: nat) -> Seq<char> {
    if s.len() < width {
        s + spaces((width - s.len()) as nat)
    } else {
        s
    }
}

/// Texts with a separator between each two.
pub open spec fn joined(texts: Seq<Seq<char>>, separator: Seq<char>) -> Seq<char>
    decreases texts.len(),
{
    if texts.len() == 0 {
        Seq::empty()
    } else if texts.len() == 1 {
        texts[0]
    } else {
        texts[0] + separator + joined(texts.skip(1), separator)
    }
}

/// Lines, each ended by a line feed.
pub open spec fn terminated(lines: Seq<Seq<char>>) -> Seq<char>
    decreases lines.len(),
{
    if lines.len() == 0 {
        Seq::empty()
    } else {
        lines[0] + seq!['\n'] + terminated(lines.skip(1))
    }
}

/// The contents of a list of owned texts.
pub open spec fn contents(texts: Seq<String>) -> Seq<Seq<char>> {
    Seq::new(texts.len(), |i: int| texts[i]@)
}

/// Joins texts with a separator between each two.
pub fn join(texts: &Vec<String>, separator: &str) -> (whole: String)
    ensures
        whole@ == joined(contents(texts@), separator@),
{
    let mut whole = String::new();
    let ghost all = contents(texts@);
    assert(all.skip(0) =~= all);
    let mut i: usize = 0;
    while i < texts.len()
        invariant
            all == contents(texts@),
            i <= texts@.len(),
            i < texts@.len() ==> whole@ + joined(all.skip(i as int), separator@) == joined(
                all,
                separator@,
            ),
            i == texts@.len() ==> whole@ == joined(all, separator@),
        decreases texts.len() - i,
    {
        let ghost before = whole@;
        let ghost rest = all.skip(i as int);
        whole.append(texts[i].as_str());
        if i + 1 < texts.len() {
            whole.append(separator);
        }
        proof {
            assert(rest.skip(1) =~= all.skip(i as int + 1));
            assert(rest[0] == texts@[i as int]@);
            if i + 1 < texts@.len() {
                assert(whole@ + joined(all.skip(i as int + 1), separator@) =~= before + joined(
                    rest,
                    separator@,
                ));
            } else {
                assert(whole@ =~= before + joined(rest, separator@));
            }
        }
        i = i + 1;
    }
    whole
}

/// Joins lines, ending each with a line feed.
pub fn terminate(lines: &Vec<String>) -> (whole: String)
    ensures
        whole@ == terminated(contents(lines@)),
{
    let mut whole = String::new();
    let ghost all = contents(lines@);
    assert(all.skip(0) =~= all);
    let mut i: usize = 0;
    while i < lines.len()
        invariant
            all == contents(lines@),
            i <= lines@.len(),
            whole@ + terminated(all.skip(i as int)) == terminated(all),
        decreases lines.len() - i,
    {
        let ghost before = whole@;
        let ghost rest = all.skip(i as int);
        whole.append(lines[i].as_str());
        whole.append("\n");
        proof {
            reveal_strlit("\n");
            assert("\n"@ =~= seq!['\n']);
            assert(rest.skip(1) =~= all.skip(i as int + 1));
            assert(rest[0] == lines@[i as int]@);
            assert(whole@ + terminated(all.skip(i as int + 1)) =~= before + terminated(rest));
        }
        i = i + 1;
    }
    assert(whole@ =~= terminated(all));
    whole
}

/// Texts without the separator are the parts of what they are joined to.
pub proof fn joined_texts_split_again(texts: Seq<Seq<char>>, c: char)
    requires
        texts.len() > 0,
        forall|i: int| 0 <= i < texts.len() ==> !(#[trigger] texts[i]).contains(c),
    ensures
        parts(joined(texts, seq![c]), c) == texts,
    decreases texts.len(),
{
    if texts.len() == 1 {
        parts_of_one(texts[0], c);
        assert(texts =~= seq![texts[0]]);
    } else {
        let rest = texts.skip(1);
        assert forall|i: int| 0 <= i < rest.len() implies !(#[trigger] rest[i]).contains(c) by {
            assert(rest[i] == texts[i + 1]);
        }
        joined_texts_split_again(rest, c);
        parts_begin(texts[0], c, joined(rest, seq![c]));
        assert(texts =~= seq![texts[0]] + rest);
    }
}

/// Terminated lines are read again as themselves.
pub proof fn terminated_lines_read_back(lines: Seq<Seq<char>>)
    requires
        forall|i: int|
            0 <= i < lines.len() ==> !(#[trigger] lines[i]).contains('\n') && (lines[i].len() > 0
                ==> lines[i].last() != '\r'),
    ensures
        lines_of(terminated(lines)) == lines,
    decreases lines.len(),
{
    if lines.len() == 0 {
        assert(lines_of(terminated(lines)) =~= lines);
    } else {
        let rest = lines.skip(1);
        assert forall|i: int| 0 <= i < rest.len() implies !(#[trigger] rest[i]).contains('\n') && (
        rest[i].len() > 0 ==> rest[i].last() != '\r') by {
            assert(rest[i] == lines[i + 1]);
        }
        terminated_lines_read_back(rest);
        assert(!lines[0].contains('\n'));
        lines_begin(lines[0], terminated(rest));
        assert(lines =~= seq![lines[0]] + rest);
    }
}

/// Appends one digit.
pub fn push_digit(out: &mut String, value: u8)
    requires
        value < 16,
    ensures
        final(out)@ == old(out)@.push(digit_char(value as nat)),
{
    proof {
        reveal_strlit("0123456789abcdef");
    }
    let at: usize = value as usize;
    let digit = "0123456789abcdef".substring_char(at, at + 1);
    assert(digit@ =~= seq![digit_char(value as nat)]);
    assert(out@ + seq![digit_char(value as nat)] =~= out@.push(digit_char(value as nat)));
    out.append(digit);
}

/// Appends a number in decimal.
pub fn push_decimal(out: &mut String, value: u64)
    ensures
        final(out)@ == old(out)@ + decimal(value as nat),
    decreases value,
{
    if value >= 10 {
        push_decimal(out, value / 10);
    }
    push_digit(out, (value % 10) as u8);
    assert(out@ =~= old(out)@ + decimal(value as nat));
}

/// Appends the last `width` hexadecimal digits of a number.
pub fn push_hex(out: &mut String, value: u64, width: u8)
    ensures
        final(out)@ == old(out)@ + hex(value as nat, width as nat),
    decreases width,
{
    if width > 0 {
        push_hex(out, value / 16, width - 1);
        push_digit(out, (value % 16) as u8);
    }
    assert(out@ =~= old(out)@ + hex(value as nat, width as nat));
}

/// Appends `count` spaces.
pub fn push_spaces(out: &mut String, count: usize)
    ensures
        final(out)@ == old(out)@ + spaces(count as nat),
{
    proof {
        reveal_strlit(" ");
        assert(" "@ =~= seq![' ']);
    }
    let ghost before = out@;
    assert(before + spaces(0) =~= before);
    for i in 0..count
        invariant
            out@ == before + spaces(i as nat),
            " "@ == seq![' '],
    {
        assert(spaces(i as nat) + seq![' '] =~= spaces(i as nat + 1));
        assert((before + spaces(i as nat)) + seq![' '] =~= before + spaces(i as nat + 1));
        out.append(" ");
    }
}

/// Appends a number in decimal, set to the right in `width` characters.
pub fn push_decimal_padded(out: &mut String, value: u64, width: usize)
    ensures
        final(out)@ == old(out)@ + padded_left(decimal(value as nat), width as nat),
{
    let mut digits = String::new();
    push_decimal(&mut digits, value);
    assert(digits@ =~= decimal(value as nat));
    let len = digits.as_str().unicode_len();
    let ghost before = out@;
    if len < width {
        push_spaces(out, width - len);
    }
    out.append(digits.as_str());
    assert(out@ =~= before + padded_left(decimal(value as nat), width as nat));
}

/// Appends a text, set to the left in `width` characters.
pub fn push_padded(out: &mut String, text: &str, width: usize)
    ensures
        final(out)@ == old(out)@ + padded_right(text@, width as nat),
{
    let len = text.unicode_len();
    let ghost before = out@;
    out.append(text);
    if len < width {
        push_spaces(out, width - len);
    }
    assert(out@ =~= before + padded_right(text@, width as nat));
}

/// A decimal text is a sequence of decimal digits.
pub proof fn decimal_has_digits(value: nat)
    ensures
        decimal(value).len() > 0,
        forall|i: int|
            0 <= i < decimal(value).len() ==> exists|d: nat|
                d < 10 && #[trigger] decimal(value)[i] == digit_char(d),
    decreases value,
{
    let s = decimal(value);
    if value >= 10 {
        decimal_has_digits(value / 10);
        let front = decimal(value / 10);
        assert(s =~= front.push(digit_char(value % 10)));
        assert forall|i: int| 0 <= i < s.len() implies exists|d: nat|
            d < 10 && #[trigger] s[i] == digit_char(d) by {
            if i < front.len() {
                assert(s[i] == front[i]);
            } else {
                assert(s[i] == digit_char(value % 10));
            }
        }
    } else {
        assert(s[0] == digit_char(value));
    }
}

proof fn decimal_digits_read_back(value: nat, max: nat)
    requires
        value <= max,
    ensures
        digits_value(decimal(value), 10, max) == Ok::<nat, IntError>(value),
    decreases value,
{
    let s = decimal(value);
    digit_chars_are_digits(value % 10);
    assert(digits_value(Seq::empty(), 10, max) == Ok::<nat, IntError>(0));
    if value >= 10 {
        decimal_digits_read_back(value / 10, max);
        assert(s.drop_last() =~= decimal(value / 10));
        assert(s.last() == digit_char(value % 10));
    } else {
        assert(s.drop_last() =~= Seq::empty());
        assert(s.last() == digit_char(value));
    }
}

/// A number reads back from its decimal text.
pub proof fn decimal_reads_back(value: nat, max: nat)
    requires
        value <= max,
    ensures
        int_value(decimal(value), 10, max) == Ok::<nat, IntError>(value),
{
    decimal_has_digits(value);
    decimal_digits_read_back(value, max);
    let first = decimal(value)[0];
    let d = choose|d: nat| d < 10 && first == digit_char(d);
    digit_chars_are_digits(d);
}

/// A number above the limit does not read back.
pub proof fn large_decimals_overflow(value: nat, max: nat)
    requires
        value > max,
    ensures
        int_value(decimal(value), 10, max) == Err::<nat, IntError>(IntError::Overflow),
{
    decimal_has_digits(value);
    decimal_digits_overflow(value, max);
    let first = decimal(value)[0];
    let d = choose|d: nat| d < 10 && first == digit_char(d);
    digit_chars_are_digits(d);
}

proof fn decimal_digits_overflow(value: nat, max: nat)
    requires
        value > max,
    ensures
        digits_value(decimal(value), 10, max) == Err::<nat, IntError>(IntError::Overflow),
    decreases value,
{
    let s = decimal(value);
    digit_chars_are_digits(value % 10);
    assert(digits_value(Seq::empty(), 10, max) == Ok::<nat, IntError>(0));
    if value >= 10 {
        assert(s.drop_last() =~= decimal(value / 10));
        assert(s.last() == digit_char(value % 10));
        if value / 10 > max {
            decimal_digits_overflow(value / 10, max);
        } else {
            decimal_digits_read_back(value / 10, max);
        }
    } else {
        assert(s.drop_last() =~= Seq::empty());
        assert(s.last() == digit_char(value));
    }
}

/// A hexadecimal text is a sequence of hexadecimal digits of the given length.
pub proof fn hex_has_digits(value: nat, width: nat)
    ensures
        hex(value, width).len() == width,
        forall|i: int|
            0 <= i < width ==> exists|d: nat|
                d < 16 && #[trigger] hex(value, width)[i] == digit_char(d),
    decreases width,
{
    if width > 0 {
        let front = hex(value / 16, (width - 1) as nat);
        hex_has_digits(value / 16, (width - 1) as nat);
        let s = hex(value, width);
        assert forall|i: int| 0 <= i < width implies exists|d: nat|
            d < 16 && #[trigger] s[i] == digit_char(d) by {
            if i < width - 1 {
                assert(s[i] == front[i]);
            } else {
                assert(s[i] == digit_char(value % 16));
            }
        }
    }
}

proof fn hex_digits_read_back(value: nat, width: nat, max: nat)
    requires
        value <= max,
        value < hex_limit(width),
    ensures
        digits_value(hex(value, width), 16, max) == Ok::<nat, IntError>(value),
    decreases width,
{
    let s = hex(value, width);
    if width > 0 {
        digit_chars_are_digits(value % 16);
        assert(value / 16 < hex_limit((width - 1) as nat));
        hex_digits_read_back(value / 16, (width - 1) as nat, max);
        assert(s.drop_last() =~= hex(value / 16, (width - 1) as nat));
        assert(s.last() == digit_char(value % 16));
    }
}

/// A number reads back from its hexadecimal text when the width holds it.
pub proof fn hex_reads_back(value: nat, width: nat, max: nat)
    requires
        value <= max,
        value < hex_limit(width),
        width > 0,
    ensures
        int_value(hex(value, width), 16, max) == Ok::<nat, IntError>(value),
{
    hex_has_digits(value, width);
    hex_digits_read_back(value, width, max);
    let first = hex(value, width)[0];
    let d = choose|d: nat| d < 16 && first == digit_char(d);
    digit_chars_are_digits(d);
}

/// The place of the first white space is the only one with none before it.
pub proof fn find_space_is_the_first(s: Seq<char>, k: nat)
    requires
        k <= s.len(),
        forall|i: int| 0 <= i < k ==> !is_space(#[trigger] s[i]),
        k < s.len() ==> is_space(s[k as int]),
    ensures
        find_space(s) == k,
{
    find_space_is_in_range(s);
    let f = find_space(s);
    if f < k {
        assert(!is_space(s[f as int]));
    }
}

/// A text begins with its first word when a space follows it.
pub proof fn words_begin(word: Seq<char>, rest: Seq<char>)
    requires
        word.len() > 0,
        forall|i: int| 0 <= i < word.len() ==> !is_space(#[trigger] word[i]),
    ensures
        words_of(word + seq![' '] + rest) == seq![word] + words_of(rest),
{
    let s = word + seq![' '] + rest;
    assert forall|i: int| 0 <= i < word.len() implies !is_space(#[trigger] s[i]) by {
        assert(s[i] == word[i]);
    }
    find_space_is_the_first(s, word.len());
    assert(s.take(word.len() as int) =~= word);
    let tail = s.skip(word.len() as int);
    assert(tail[0] == ' ');
    assert(tail.skip(1) =~= rest);
    assert(words_of(tail) == words_of(rest));
    assert(!is_space(s[0]));
    assert(words_of(s) == seq![word] + words_of(tail));
}

/// A text without white space is its only word.
pub proof fn words_of_one(word: Seq<char>)
    requires
        word.len() > 0,
        forall|i: int| 0 <= i < word.len() ==> !is_space(#[trigger] word[i]),
    ensures
        words_of(word) == seq![word],
{
    find_space_is_the_first(word, word.len());
    assert(word.take(word.len() as int) =~= word);
    assert(words_of(word.skip(word.len() as int)) =~= Seq::empty());
    assert(!is_space(word[0]));
    assert(words_of(word) =~= seq![word]);
}

/// Text without white space at its ends stays as it is.
pub proof fn trimmed_stays(s: Seq<char>)
    requires
        s.len() > 0 ==> !is_space(s[0]) && !is_space(s.last()),
    ensures
        trimmed(s) == s,
{
}

/// A text begins with its first part when the separator follows it.
pub proof fn parts_begin(first: Seq<char>, c: char, rest: Seq<char>)
    requires
        !first.contains(c),
    ensures
        parts(first + seq![c] + rest, c) == seq![first] + parts(rest, c),
        find(first + seq![c] + rest, c) == first.len(),
        (first + seq![c] + rest).take(first.len() as int) == first,
        (first + seq![c] + rest).skip(first.len() as int + 1) == rest,
{
    let s = first + seq![c] + rest;
    assert forall|i: int| 0 <= i < first.len() implies #[trigger] s[i] != c by {
        assert(first.contains(first[i]));
    }
    find_is_the_first(s, c, first.len());
    assert(s.take(first.len() as int) =~= first);
    assert(s.skip(first.len() as int + 1) =~= rest);
}

/// A text without the separator is its only part.
pub proof fn parts_of_one(s: Seq<char>, c: char)
    requires
        !s.contains(c),
    ensures
        parts(s, c) == seq![s],
{
    assert forall|i: int| 0 <= i < s.len() implies #[trigger] s[i] != c by {
        assert(s.contains(s[i]));
    }
    find_is_the_first(s, c, s.len());
}

/// A text begins with its first line when a line feed follows it.
pub proof fn lines_begin(line: Seq<char>, rest: Seq<char>)
    requires
        !line.contains('\n'),
        line.len() > 0 ==> line.last() != '\r',
    ensures
        lines_of(line + seq!['\n'] + rest) == seq![line] + lines_of(rest),
{
    parts_begin(line, '\n', rest);
}

/// Trimming takes white space from both ends and nothing else: what is left begins and ends
/// with something else, or is empty, and stands in the text between white space alone.
pub proof fn trimming_takes_white_space_alone(s: Seq<char>)
    ensures
        trimmed(s).len() > 0 ==> !is_space(trimmed(s)[0]) && !is_space(trimmed(s).last()),
        exists|from: int|
            #![trigger s.skip(from)]
            0 <= from && from + trimmed(s).len() <= s.len() && trimmed(s) == s.subrange(
                from,
                from + trimmed(s).len(),
            ) && (forall|i: int|
                0 <= i < from || from + trimmed(s).len() <= i < s.len() ==> is_space(
                    #[trigger] s[i],
                )),
{
    let middle = trim_start(s);
    let from = s.len() - middle.len();
    start_is_trimmed(s);
    end_is_trimmed(middle);
    let t = trimmed(s);
    assert(s.skip(from) == middle);
    assert(t =~= s.subrange(from, from + t.len()));
    assert forall|i: int| 0 <= i < from || from + t.len() <= i < s.len() implies is_space(
        #[trigger] s[i],
    ) by {
        if i >= from {
            assert(middle[i - from] == s[i]);
        }
    }
    if t.len() > 0 {
        assert(t[0] == middle[0]);
    }
}

proof fn start_is_trimmed(s: Seq<char>)
    ensures
        ({
            let rest = trim_start(s);
            let from = s.len() - rest.len();
            &&& rest.len() <= s.len()
            &&& rest == s.skip(from)
            &&& rest.len() > 0 ==> !is_space(rest[0])
            &&& forall|i: int| 0 <= i < from ==> is_space(#[trigger] s[i])
        }),
    decreases s.len(),
{
    if s.len() > 0 && is_space(s[0]) {
        start_is_trimmed(s.skip(1));
        let rest = trim_start(s);
        let from = s.len() - rest.len();
        assert(rest =~= s.skip(from));
        assert forall|i: int| 0 <= i < from implies is_space(#[trigger] s[i]) by {
            if i > 0 {
                assert(s.skip(1)[i - 1] == s[i]);
            }
        }
    } else {
        assert(s.skip(0) =~= s);
    }
}

proof fn end_is_trimmed(s: Seq<char>)
    ensures
        ({
            let rest = trim_end(s);
            &&& rest.len() <= s.len()
            &&& rest == s.take(rest.len() as int)
            &&& rest.len() > 0 ==> !is_space(rest.last())
            &&& forall|i: int| rest.len() <= i < s.len() ==> is_space(#[trigger] s[i])
        }),
    decreases s.len(),
{
    if s.len() > 0 && is_space(s.last()) {
        end_is_trimmed(s.drop_last());
        let rest = trim_end(s);
        assert(rest =~= s.take(rest.len() as int));
        assert forall|i: int| rest.len() <= i < s.len() implies is_space(#[trigger] s[i]) by {
            if i < s.len() - 1 {
                assert(s.drop_last()[i] == s[i]);
            }
        }
    } else {
        assert(s.take(s.len() as int) =~= s);
    }
}

/// The blank, the tab and the ends of lines are white space; letters, digits and the signs
/// that separate fields are not.
pub proof fn blanks_are_white_space(c: char)
    ensures
        is_space(' ') && is_space('\t') && is_space('\n') && is_space('\r'),
        '!' <= c <= '~' ==> !is_space(c),
{
}

/// Splitting loses nothing: the parts joined by the separator are the text again, none of
/// them holds the separator, and there is at least one.
pub proof fn parts_make_up_the_text(s: Seq<char>, c: char)
    ensures
        parts(s, c).len() > 0,
        joined(parts(s, c), seq![c]) == s,
        forall|i: int| 0 <= i < parts(s, c).len() ==> !(#[trigger] parts(s, c)[i]).contains(c),
    decreases s.len(),
{
    let k = find(s, c);
    let all = parts(s, c);
    find_is_in_range(s, c);
    if k >= s.len() {
        assert(!s.contains(c));
    } else {
        let first = s.take(k as int);
        let rest = s.skip(k as int + 1);
        parts_make_up_the_text(rest, c);
        assert(!first.contains(c)) by {
            if first.contains(c) {
                let i = choose|i: int| 0 <= i < first.len() && first[i] == c;
                assert(s[i] == c);
            }
        }
        assert(all.skip(1) =~= parts(rest, c));
        assert(joined(all, seq![c]) =~= s);
        assert forall|i: int| 0 <= i < all.len() implies !(#[trigger] all[i]).contains(c) by {
            if i > 0 {
                assert(all[i] == parts(rest, c)[i - 1]);
            }
        }
    }
}

/// No line holds a line feed, and a text without one is its own only line.
pub proof fn lines_end_at_line_feeds(s: Seq<char>)
    ensures
        forall|i: int| 0 <= i < lines_of(s).len() ==> !(#[trigger] lines_of(s)[i]).contains('\n'),
        s.len() > 0 && !s.contains('\n') ==> lines_of(s) == seq![s],
        s.len() == 0 ==> lines_of(s).len() == 0,
    decreases s.len(),
{
    let k = find(s, '\n');
    let all = lines_of(s);
    find_is_in_range(s, '\n');
    if s.len() > 0 && k < s.len() {
        assert(s.contains('\n'));
        let rest = s.skip(k as int + 1);
        lines_end_at_line_feeds(rest);
        let first = without_return(s.take(k as int));
        assert(!first.contains('\n')) by {
            if first.contains('\n') {
                let i = choose|i: int| 0 <= i < first.len() && first[i] == '\n';
                assert(s[i] == '\n');
            }
        }
        assert forall|i: int| 0 <= i < all.len() implies !(#[trigger] all[i]).contains('\n') by {
            if i > 0 {
                assert(all[i] == lines_of(rest)[i - 1]);
            }
        }
    } else if s.len() > 0 {
        assert(!s.contains('\n'));
    }
}

/// A carriage return before a line feed belongs to the end of the line, whatever follows.
pub proof fn carriage_returns_end_lines(line: Seq<char>, rest: Seq<char>)
    requires
        !line.contains('\n'),
        line.len() > 0 ==> line.last() != '\r',
    ensures
        lines_of(line + seq!['\r', '\n'] + rest) == seq![line] + lines_of(rest),
{
    let ended = line.push('\r');
    assert(!ended.contains('\n')) by {
        if ended.contains('\n') {
            let i = choose|i: int| 0 <= i < ended.len() && ended[i] == '\n';
            assert(line[i] == '\n');
        }
    }
    parts_begin(ended, '\n', rest);
    assert(line + seq!['\r', '\n'] + rest =~= ended + seq!['\n'] + rest);
    assert(ended.drop_last() =~= line);
}

/// A word holds no white space and is not empty.
pub proof fn words_hold_no_white_space(s: Seq<char>, i: int)
    requires
        0 <= i < words_of(s).len(),
    ensures
        words_of(s)[i].len() > 0,
        forall|j: int| 0 <= j < words_of(s)[i].len() ==> !is_space(#[trigger] words_of(s)[i][j]),
    decreases s.len(),
{
    if s.len() > 0 && is_space(s[0]) {
        words_hold_no_white_space(s.skip(1), i);
    } else if s.len() > 0 {
        let k = find_space(s);
        find_space_is_in_range(s);
        if i > 0 {
            assert(words_of(s)[i] == words_of(s.skip(k as int))[i - 1]);
            words_hold_no_white_space(s.skip(k as int), i - 1);
        } else {
            assert(words_of(s)[0] == s.take(k as int));
        }
    }
}

/// One more digit multiplies a number by the base and adds the digit; a character that is
/// no digit of the base is none; an empty text is no number; a plus sign before digits
/// changes nothing, a minus sign makes them no number.
pub proof fn digits_write_numbers(s: Seq<char>, c: char, radix: nat, max: nat)
    requires
        2 <= radix <= 16,
        s.len() > 0,
    ensures
        int_value(Seq::empty(), radix, max) == Err::<nat, IntError>(IntError::Empty),
        int_value(s, radix, max) matches Ok(value) ==> (digit_value(c) < radix && value * radix
            + digit_value(c) <= max ==> int_value(s.push(c), radix, max) == Ok::<nat, IntError>(
            value * radix + digit_value(c),
        )),
        int_value(s, radix, max) is Ok && digit_value(c) >= radix ==> int_value(
            s.push(c),
            radix,
            max,
        ) == Err::<nat, IntError>(IntError::InvalidDigit),
        s[0] != '+' ==> int_value(seq!['+'] + s, radix, max) == digits_value(s, radix, max),
        s[0] != '+' && s[0] != '-' ==> int_value(seq!['+'] + s, radix, max) == int_value(
            s,
            radix,
            max,
        ),
        '0' <= c <= '9' ==> digit_value(c) == c as u32 - '0' as u32,
        'a' <= c <= 'f' ==> digit_value(c) == 10 + c as u32 - 'a' as u32,
        'A' <= c <= 'F' ==> digit_value(c) == 10 + c as u32 - 'A' as u32,
        !('0' <= c <= '9') && !('a' <= c <= 'f') && !('A' <= c <= 'F') ==> digit_value(c) >= 16,
{
    let more = s.push(c);
    assert(more.drop_last() =~= s);
    assert(more.skip(1).drop_last() =~= s.skip(1));
    assert((seq!['+'] + s).skip(1) =~= s);
    if s.len() == 1 {
        assert(s.skip(1) =~= Seq::empty());
    }
}

/// Decimal digits follow one another by tens, the first is zero for zero alone, and the
/// sixteen digits are 0 to 9 and a to f.
pub proof fn decimals_grow_by_digits(value: nat, digit: nat)
    requires
        digit < 10,
    ensures
        value > 0 ==> decimal(10 * value + digit) == decimal(value).push(digit_char(digit)),
        decimal(digit) == seq![digit_char(digit)],
        digit_char(digit) as u32 == '0' as u32 + digit,
        digit < 6 ==> digit_char(10 + digit) as u32 == 'a' as u32 + digit,
        value > 0 ==> decimal(value)[0] != '0',
    decreases value,
{
    reveal_strlit("0123456789abcdef");
    if value > 0 {
        assert((10 * value + digit) / 10 == value);
        assert((10 * value + digit) % 10 == digit);
        if value >= 10 {
            decimals_grow_by_digits(value / 10, value % 10);
            decimal_has_digits(value / 10);
            assert(decimal(value)[0] == decimal(value / 10)[0]);
        }
    }
}

/// Hexadecimal digits follow one another by sixteens, in as many places as are asked for.
pub proof fn hexadecimals_grow_by_digits(value: nat, digit: nat, width: nat)
    requires
        digit < 16,
    ensures
        hex(16 * value + digit, width + 1) == hex(value, width).push(digit_char(digit)),
        hex(value, width).len() == width,
{
    hex_has_digits(value, width);
    assert((16 * value + digit) / 16 == value);
    assert((16 * value + digit) % 16 == digit);
}

/// A padded text is as wide as its field, or itself where it is wider, and ends or begins
/// with itself.
pub proof fn padding_fills_the_field(s: Seq<char>, width: nat)
    ensures
        s.len() >= width ==> padded_left(s, width) == s && padded_right(s, width) == s,
        s.len() < width ==> padded_left(s, width).len() == width && padded_right(s, width).len()
            == width,
        s.len() < width ==> padded_left(s, width).skip(width - s.len()) == s && padded_right(
            s,
            width,
        ).take(s.len() as int) == s,
        s.len() < width ==> padded_left(s, width)[0] == ' ' && padded_right(s, width).last() == ' ',
{
    if s.len() < width {
        assert(padded_left(s, width).skip(width - s.len()) =~= s);
        assert(padded_right(s, width).take(s.len() as int) =~= s);
    }
}

/// A sign alone is no number, and a minus sign makes none of the digits behind it.
pub proof fn a_sign_alone_is_no_number(s: Seq<char>, radix: nat, max: nat)
    requires
        2 <= radix <= 16,
    ensures
        int_value(seq!['+'], radix, max) == Err::<nat, IntError>(IntError::InvalidDigit),
        int_value(seq!['-'], radix, max) == Err::<nat, IntError>(IntError::InvalidDigit),
        int_value(seq!['-'] + s, radix, max) == Err::<nat, IntError>(IntError::InvalidDigit),
{
    let signed = seq!['-'] + s;
    assert(signed.take(1) =~= seq!['-']);
    assert(seq!['-'].drop_last() =~= Seq::empty());
    assert(digits_value(Seq::empty(), radix, max) == Ok::<nat, IntError>(0));
    assert(digits_value(seq!['-'], radix, max) == Err::<nat, IntError>(IntError::InvalidDigit));
    an_error_stays(signed, 1, radix, max);
    assert(signed.take(signed.len() as int) =~= signed);
}

} // verus!
