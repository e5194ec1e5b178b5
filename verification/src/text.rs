//! Text as sequences of characters: searching, splitting, and the reading
//! and writing of numbers.

use vstd::prelude::*;

verus! {

/// The characters of a string slice, one by one.
pub fn to_chars(s: &str) -> (chars: Vec<char>)
    ensures
        chars@ == s@,
{
    let mut chars: Vec<char> = Vec::new();
    for c in it: s.chars()
        invariant
            chars@ == it.seq().take(it.index()),
            it.seq() == s@,
    {
        chars.push(c);
    }
    chars
}

/// `String::from_iter` over the characters of a slice: the string that
/// consists of exactly these characters, in this order.
#[verifier::external_body]
pub(crate) fn string_from_chars(chars: &[char]) -> (s: String)
    ensures
        s@ == chars@,
{
    String::from_iter(chars.iter())
}

/// `needle` stands in `hay` at position `i`.
pub open spec fn occurs_at(hay: Seq<char>, needle: Seq<char>, i: int) -> bool {
    &&& 0 <= i
    &&& i + needle.len() <= hay.len()
    &&& hay.subrange(i, i + needle.len()) == needle
}

/// `needle` stands somewhere in `hay` as a contiguous run.
pub open spec fn contains_seq(hay: Seq<char>, needle: Seq<char>) -> bool {
    exists|i: int| occurs_at(hay, needle, i)
}

/// `hay` begins with `prefix`.
pub open spec fn starts_with_seq(hay: Seq<char>, prefix: Seq<char>) -> bool {
    occurs_at(hay, prefix, 0)
}

/// Whether `needle` stands in `hay` at position `at`.
pub fn matches_at(hay: &[char], needle: &[char], at: usize) -> (found: bool)
    ensures
        found == occurs_at(hay@, needle@, at as int),
{
    if needle.len() > hay.len() || at > hay.len() - needle.len() {
        return false;
    }
    let mut k: usize = 0;
    while k < needle.len()
        invariant
            k <= needle.len(),
            at + needle.len() <= hay.len(),
            forall|j: int| 0 <= j < k ==> hay@[at + j] == needle@[j],
        decreases needle.len() - k,
    {
        if hay[at + k] != needle[k] {
            proof {
                assert(hay@.subrange(at as int, at + needle.len())[k as int] == hay@[at + k]);
            }
            return false;
        }
        k += 1;
    }
    proof {
        assert(hay@.subrange(at as int, at + needle.len()) =~= needle@);
    }
    true
}

/// Whether `needle` stands somewhere in `hay`.
pub fn contains_chars(hay: &[char], needle: &[char]) -> (found: bool)
    ensures
        found == contains_seq(hay@, needle@),
{
    if needle.len() > hay.len() {
        return false;
    }
    let last = hay.len() - needle.len();
    let mut i: usize = 0;
    while i < last
        invariant
            last == hay.len() - needle.len(),
            i <= last,
            forall|j: int| 0 <= j < i ==> !occurs_at(hay@, needle@, j),
        decreases last - i,
    {
        if matches_at(hay, needle, i) {
            return true;
        }
        i += 1;
    }
    matches_at(hay, needle, last)
}

/// Whether the text `needle` stands somewhere in the text `hay`.
pub fn str_contains(hay: &str, needle: &str) -> (found: bool)
    ensures
        found == contains_seq(hay@, needle@),
{
    let h = to_chars(hay);
    let n = to_chars(needle);
    contains_chars(h.as_slice(), n.as_slice())
}

/// The sixteen digits of lower-case hexadecimal notation.
pub open spec fn digit_alphabet() -> Seq<char> {
    seq!['0', '1', '2', '3', '4', '5', '6', '7', '8', '9', 'a', 'b', 'c', 'd', 'e', 'f']
}

/// The digits of `n` in the given radix, most significant first, without
/// leading zeros; zero is the single digit `0`.
pub open spec fn digits_of(n: nat, radix: nat) -> Seq<char>
    recommends
        2 <= radix <= 16,
    decreases n,
{
    if n < radix || radix < 2 {
        seq![digit_alphabet()[n as int]]
    } else {
        proof {
            assert(n / radix < n) by (nonlinear_arith)
                requires
                    n >= radix,
                    radix >= 2,
            ;
        }
        digits_of(n / radix, radix).push(digit_alphabet()[(n % radix) as int])
    }
}

/// `s`, with zeros put in front until it is `width` characters long.
pub open spec fn zero_padded(s: Seq<char>, width: nat) -> Seq<char> {
    if s.len() >= width {
        s
    } else {
        Seq::new((width - s.len()) as nat, |i: int| '0') + s
    }
}

/// The number in hexadecimal notation with the prefix `0x`.
pub open spec fn hex_text(n: u64) -> Seq<char> {
    seq!['0', 'x'] + digits_of(n as nat, 16)
}

/// The number in hexadecimal notation with the prefix `0x`, the digits
/// padded with zeros to at least six.
pub open spec fn hex_text_padded(n: u64) -> Seq<char> {
    seq!['0', 'x'] + zero_padded(digits_of(n as nat, 16), 6)
}

/// The number in decimal notation.
pub open spec fn decimal_text(n: u64) -> Seq<char> {
    digits_of(n as nat, 10)
}

fn digit_char(d: u64) -> (c: char)
    requires
        d < 16,
    ensures
        c == digit_alphabet()[d as int],
{
    match d {
        0 => '0',
        1 => '1',
        2 => '2',
        3 => '3',
        4 => '4',
        5 => '5',
        6 => '6',
        7 => '7',
        8 => '8',
        9 => '9',
        10 => 'a',
        11 => 'b',
        12 => 'c',
        13 => 'd',
        14 => 'e',
        _ => 'f',
    }
}

/// Appends the digits of `n` in the given radix to `out`.
pub fn push_digits(out: &mut Vec<char>, n: u64, radix: u64)
    requires
        2 <= radix <= 16,
    ensures
        final(out)@ == old(out)@ + digits_of(n as nat, radix as nat),
    decreases n,
{
    if n >= radix {
        proof {
            assert(n / radix < n) by (nonlinear_arith)
                requires
                    n >= radix,
                    radix >= 2,
            ;
        }
        push_digits(out, n / radix, radix);
    }
    let ghost mid = out@;
    out.push(digit_char(n % radix));
    proof {
        let d = digit_alphabet()[(n % radix) as int];
        assert(out@ == mid.push(d));
        if n >= radix {
            assert(mid == old(out)@ + digits_of((n / radix) as nat, radix as nat));
            assert(digits_of(n as nat, radix as nat) == digits_of(
                (n / radix) as nat,
                radix as nat,
            ).push(d));
        } else {
            assert(mid == old(out)@);
            assert(n % radix == n) by (nonlinear_arith)
                requires
                    0 <= n < radix,
            ;
            assert(digits_of(n as nat, radix as nat) == seq![d]);
        }
        assert(out@ =~= old(out)@ + digits_of(n as nat, radix as nat));
    }
}

/// Appends `0x` and the hexadecimal digits of `n` to `out`.
pub fn push_hex(out: &mut Vec<char>, n: u64)
    ensures
        final(out)@ == old(out)@ + hex_text(n),
{
    out.push('0');
    out.push('x');
    push_digits(out, n, 16);
    proof {
        assert(final(out)@ =~= old(out)@ + hex_text(n));
    }
}

/// Appends `0x` and the hexadecimal digits of `n`, padded to six, to `out`.
pub fn push_hex_padded(out: &mut Vec<char>, n: u64)
    ensures
        final(out)@ == old(out)@ + hex_text_padded(n),
{
    out.push('0');
    out.push('x');
    let mut digits: Vec<char> = Vec::new();
    push_digits(&mut digits, n, 16);
    let ghost before = out@;
    let mut k: usize = digits.len();
    proof {
        assert(out@ =~= before + Seq::new(0nat, |i: int| '0'));
        if k >= 6 {
            assert(out@ + digits@ =~= before + zero_padded(digits@, 6));
        }
    }
    while k < 6
        invariant
            digits@ == digits_of(n as nat, 16),
            digits.len() <= k,
            k < 6 ==> out@ == before + Seq::new((k - digits.len()) as nat, |i: int| '0'),
            k >= 6 ==> out@ + digits@ == before + zero_padded(digits@, 6),
        decreases 6 - k,
    {
        out.push('0');
        k += 1;
        proof {
            let pad = Seq::new((k - digits.len()) as nat, |i: int| '0');
            assert(out@ =~= before + pad);
            if k >= 6 {
                assert(out@ + digits@ =~= before + zero_padded(digits@, 6));
            }
        }
    }
    let mut j: usize = 0;
    let ghost padded = out@;
    while j < digits.len()
        invariant
            j <= digits.len(),
            out@ == padded + digits@.take(j as int),
        decreases digits.len() - j,
    {
        out.push(digits[j]);
        j += 1;
        proof {
            assert(out@ =~= padded + digits@.take(j as int));
        }
    }
    proof {
        assert(digits@.take(digits.len() as int) =~= digits@);
        assert(out@ =~= old(out)@ + hex_text_padded(n));
    }
}

/// Appends the characters of `s` to `out`.
pub fn push_str(out: &mut Vec<char>, s: &str)
    ensures
        final(out)@ == old(out)@ + s@,
{
    let chars = to_chars(s);
    let ghost before = out@;
    let mut j: usize = 0;
    while j < chars.len()
        invariant
            j <= chars.len(),
            out@ == before + chars@.take(j as int),
        decreases chars.len() - j,
    {
        out.push(chars[j]);
        j += 1;
        proof {
            assert(out@ =~= before + chars@.take(j as int));
        }
    }
    proof {
        assert(chars@.take(chars.len() as int) =~= chars@);
    }
}

/// What a digit character is worth in the given radix, if it is a digit of
/// that radix: `0` to `9`, then the letters of either case from ten on.
pub open spec fn digit_value(c: char, radix: int) -> Option<int> {
    let code = c as u32 as int;
    let worth = if 0x30 <= code <= 0x39 {
        code - 0x30
    } else if 0x61 <= code <= 0x7a {
        code - 0x61 + 10
    } else if 0x41 <= code <= 0x5a {
        code - 0x41 + 10
    } else {
        radix
    };
    if worth < radix {
        Some(worth)
    } else {
        None
    }
}

/// Every character of `s` is a digit of the radix.
pub open spec fn all_digits(s: Seq<char>, radix: int) -> bool {
    forall|i: int| 0 <= i < s.len() ==> (#[trigger] digit_value(s[i], radix)) is Some
}

/// The number that a run of digits denotes, most significant digit first.
pub open spec fn digits_value(s: Seq<char>, radix: int) -> int
    decreases s.len(),
{
    if s.len() == 0 {
        0
    } else {
        digits_value(s.drop_last(), radix) * radix + match digit_value(s.last(), radix) {
            Some(d) => d,
            None => 0,
        }
    }
}

/// The unsigned 64-bit number that a text denotes: an optional `+`, then one
/// or more digits of the radix and nothing else, the value within range.
pub open spec fn number_of(s: Seq<char>, radix: int) -> Option<u64> {
    let body = if s.len() > 0 && s[0] == '+' {
        s.subrange(1, s.len() as int)
    } else {
        s
    };
    if body.len() > 0 && all_digits(body, radix) && digits_value(body, radix) <= u64::MAX {
        Some(digits_value(body, radix) as u64)
    } else {
        None
    }
}

proof fn lemma_digits_value_prefix(s: Seq<char>, radix: int, k: int)
    requires
        radix >= 1,
        0 <= k <= s.len(),
    ensures
        0 <= digits_value(s.take(k), radix) <= digits_value(s, radix),
    decreases s.len(),
{
    if s.len() == 0 {
        assert(s.take(k) =~= s);
    } else if k == s.len() {
        assert(s.take(k) =~= s);
        lemma_digits_value_prefix(s.drop_last(), radix, k - 1);
        assert(s.drop_last().take(k - 1) =~= s.drop_last());
        assert(digits_value(s.drop_last(), radix) * radix >= 0) by (nonlinear_arith)
            requires
                digits_value(s.drop_last(), radix) >= 0,
                radix >= 1,
        ;
    } else {
        lemma_digits_value_prefix(s.drop_last(), radix, k);
        assert(s.drop_last().take(k) =~= s.take(k));
        assert(digits_value(s.drop_last(), radix) * radix >= digits_value(s.drop_last(), radix))
            by (nonlinear_arith)
            requires
                digits_value(s.drop_last(), radix) >= 0,
                radix >= 1,
        ;
    }
}

fn digit_of(c: char, radix: u32) -> (d: Option<u32>)
    requires
        2 <= radix <= 36,
    ensures
        match d {
            Some(v) => digit_value(c, radix as int) == Some(v as int),
            None => digit_value(c, radix as int) is None,
        },
{
    let code: u32 = c as u32;
    let worth: u32 = if 0x30 <= code && code <= 0x39 {
        code - 0x30
    } else if 0x61 <= code && code <= 0x7a {
        code - 0x61 + 10
    } else if 0x41 <= code && code <= 0x5a {
        code - 0x41 + 10
    } else {
        radix
    };
    if worth < radix {
        Some(worth)
    } else {
        None
    }
}

/// Reads an unsigned number in the given radix.
pub fn parse_unsigned(s: &[char], radix: u32) -> (value: Option<u64>)
    requires
        2 <= radix <= 36,
    ensures
        value == number_of(s@, radix as int),
{
    let start: usize = if s.len() > 0 && s[0] == '+' {
        1
    } else {
        0
    };
    let ghost body = s@.subrange(start as int, s.len() as int);
    proof {
        if start == 0 {
            assert(body =~= s@);
        }
    }
    if start == s.len() {
        return None;
    }
    let mut acc: u64 = 0;
    let mut i: usize = start;
    while i < s.len()
        invariant
            2 <= radix <= 36,
            start <= i <= s.len(),
            body == s@.subrange(start as int, s.len() as int),
            body == (if s@.len() > 0 && s@[0] == '+' {
                s@.subrange(1, s@.len() as int)
            } else {
                s@
            }),
            all_digits(body.take(i - start), radix as int),
            acc == digits_value(body.take(i - start), radix as int),
        decreases s.len() - i,
    {
        let ghost next = body.take(i - start + 1);
        proof {
            assert(next.drop_last() =~= body.take(i - start));
            assert(next.last() == s@[i as int]);
            assert(body[i - start] == s@[i as int]);
            assert(digits_value(next, radix as int) == acc * radix + match digit_value(
                s@[i as int],
                radix as int,
            ) {
                Some(d) => d,
                None => 0,
            });
        }
        let digit = match digit_of(s[i], radix) {
            Some(d) => d,
            None => {
                return None;
            },
        };
        let shifted = match acc.checked_mul(radix as u64) {
            Some(v) => v,
            None => {
                proof {
                    lemma_digits_value_prefix(body, radix as int, i - start + 1);
                }
                return None;
            },
        };
        let sum = match shifted.checked_add(digit as u64) {
            Some(v) => v,
            None => {
                proof {
                    lemma_digits_value_prefix(body, radix as int, i - start + 1);
                }
                return None;
            },
        };
        proof {
            assert forall|j: int| 0 <= j < next.len() implies (#[trigger] digit_value(
                next[j],
                radix as int,
            )) is Some by {
                if j < next.len() - 1 {
                    assert(next[j] == body.take(i - start)[j]);
                }
            }
        }
        acc = sum;
        i += 1;
    }
    proof {
        assert(body.take(i - start) =~= body);
    }
    Some(acc)
}

/// The classes of characters at which a scan stops.
#[derive(Clone, Copy)]
pub enum Class {
    /// The line feed.
    Newline,
    /// A character with the Unicode property `White_Space`.
    Blank,
    /// Any character without that property.
    Mark,
    /// The hyphen between two addresses.
    Dash,
    /// The separator of path components.
    Slash,
}

/// The characters with the Unicode property `White_Space`.
pub open spec fn is_blank(c: char) -> bool {
    let code = c as u32;
    ||| 0x09 <= code <= 0x0d
    ||| code == 0x20
    ||| code == 0x85
    ||| code == 0xa0
    ||| code == 0x1680
    ||| 0x2000 <= code <= 0x200a
    ||| code == 0x2028
    ||| code == 0x2029
    ||| code == 0x202f
    ||| code == 0x205f
    ||| code == 0x3000
}

/// Membership of a character in a class.
pub open spec fn in_class(c: char, class: Class) -> bool {
    match class {
        Class::Newline => c == '\n',
        Class::Blank => is_blank(c),
        Class::Mark => !is_blank(c),
        Class::Dash => c == '-',
        Class::Slash => c == '/',
    }
}

/// The first position at or after `from` that holds a character of the
/// class; the length of `s` if there is none.
pub open spec fn scan(s: Seq<char>, from: int, class: Class) -> int
    decreases s.len() - from,
{
    if from < 0 || from >= s.len() {
        s.len() as int
    } else if in_class(s[from], class) {
        from
    } else {
        scan(s, from + 1, class)
    }
}

/// Where a scan ends: not before its start, on a character of the class or
/// at the end, and with no character of the class passed over.
pub proof fn lemma_scan(s: Seq<char>, from: int, class: Class)
    requires
        0 <= from <= s.len(),
    ensures
        from <= scan(s, from, class) <= s.len(),
        scan(s, from, class) < s.len() ==> in_class(s[scan(s, from, class)], class),
        forall|j: int| from <= j < scan(s, from, class) ==> !in_class(#[trigger] s[j], class),
    decreases s.len() - from,
{
    if from < s.len() && !in_class(s[from], class) {
        lemma_scan(s, from + 1, class);
    }
}

/// Whether a character belongs to a class.
pub fn class_has(c: char, class: Class) -> (member: bool)
    ensures
        member == in_class(c, class),
{
    let code: u32 = c as u32;
    let blank = (0x09 <= code && code <= 0x0d) || code == 0x20 || code == 0x85 || code == 0xa0
        || code == 0x1680 || (0x2000 <= code && code <= 0x200a) || code == 0x2028 || code
        == 0x2029 || code == 0x202f || code == 0x205f || code == 0x3000;
    match class {
        Class::Newline => c == '\n',
        Class::Blank => blank,
        Class::Mark => !blank,
        Class::Dash => c == '-',
        Class::Slash => c == '/',
    }
}

/// Finds the first character of a class at or after `from`.
pub fn scan_to(s: &[char], from: usize, class: Class) -> (at: usize)
    requires
        from <= s@.len(),
    ensures
        at == scan(s@, from as int, class),
        from <= at <= s@.len(),
{
    let mut i: usize = from;
    while i < s.len() && !class_has(s[i], class)
        invariant
            from <= i <= s@.len(),
            scan(s@, from as int, class) == scan(s@, i as int, class),
        decreases s@.len() - i,
    {
        i += 1;
    }
    i
}

/// The fields of a line from `from` on: the maximal runs of characters that
/// are not blank, in order.
pub open spec fn fields_from(s: Seq<char>, from: int) -> Seq<Seq<char>>
    decreases s.len() - from,
{
    let a = scan(s, from, Class::Mark);
    if from < 0 || a < from || a >= s.len() {
        Seq::empty()
    } else {
        let b = scan(s, a, Class::Blank);
        if b <= a || b > s.len() {
            Seq::empty()
        } else {
            seq![s.subrange(a, b)] + fields_from(s, b)
        }
    }
}

/// The fields of a line.
pub open spec fn fields(s: Seq<char>) -> Seq<Seq<char>> {
    fields_from(s, 0)
}

/// The character sequences that a list of character vectors holds.
pub open spec fn texts(parts: Seq<Vec<char>>) -> Seq<Seq<char>> {
    Seq::new(parts.len(), |i: int| parts[i]@)
}

/// A copy of the characters of `s` from `from` up to `to`.
pub fn copy_range(s: &[char], from: usize, to: usize) -> (part: Vec<char>)
    requires
        from <= to <= s@.len(),
    ensures
        part@ == s@.subrange(from as int, to as int),
{
    let mut part: Vec<char> = Vec::new();
    let mut i: usize = from;
    while i < to
        invariant
            from <= i <= to <= s@.len(),
            part@ == s@.subrange(from as int, i as int),
        decreases to - i,
    {
        part.push(s[i]);
        i += 1;
        proof {
            assert(part@ =~= s@.subrange(from as int, i as int));
        }
    }
    part
}

/// Splits a line into its fields.
pub fn split_fields(s: &[char]) -> (parts: Vec<Vec<char>>)
    ensures
        texts(parts@) == fields(s@),
{
    let mut parts: Vec<Vec<char>> = Vec::new();
    let mut i: usize = 0;
    proof {
        assert(texts(parts@) =~= Seq::<Seq<char>>::empty());
    }
    loop
        invariant
            i <= s@.len(),
            fields(s@) == texts(parts@) + fields_from(s@, i as int),
        decreases s@.len() - i,
    {
        let a = scan_to(s, i, Class::Mark);
        if a >= s.len() {
            proof {
                assert(fields_from(s@, i as int) =~= Seq::<Seq<char>>::empty());
                assert(texts(parts@) + Seq::<Seq<char>>::empty() =~= texts(parts@));
            }
            return parts;
        }
        let b = scan_to(s, a, Class::Blank);
        proof {
            lemma_scan(s@, i as int, Class::Mark);
            lemma_scan(s@, a as int, Class::Blank);
            assert(b > a);
        }
        let ghost before = texts(parts@);
        let part = copy_range(s, a, b);
        parts.push(part);
        proof {
            assert(texts(parts@) =~= before.push(s@.subrange(a as int, b as int)));
            assert(fields_from(s@, i as int) == seq![s@.subrange(a as int, b as int)]
                + fields_from(s@, b as int));
            assert(fields(s@) =~= texts(parts@) + fields_from(s@, b as int));
        }
        i = b;
    }
}

/// What follows the last slash at or after `from`; everything from `from`
/// on where there is no slash.
pub open spec fn last_component(path: Seq<char>, from: int) -> Seq<char>
    decreases path.len() - from,
{
    let slash = scan(path, from, Class::Slash);
    if from < 0 || from > path.len() {
        Seq::empty()
    } else if slash < from || slash >= path.len() {
        path.subrange(from, path.len() as int)
    } else {
        last_component(path, slash + 1)
    }
}

/// Cuts the last component out of a path: what follows its last slash.
pub fn last_component_of(path: &[char]) -> (name: Vec<char>)
    ensures
        name@ == last_component(path@, 0),
{
    let mut from: usize = 0;
    loop
        invariant
            from <= path@.len(),
            last_component(path@, 0) == last_component(path@, from as int),
        decreases path@.len() - from,
    {
        let slash = scan_to(path, from, Class::Slash);
        if slash >= path.len() {
            let mut name: Vec<char> = Vec::new();
            let mut j: usize = from;
            while j < path.len()
                invariant
                    from <= j <= path@.len(),
                    name@ == path@.subrange(from as int, j as int),
                decreases path@.len() - j,
            {
                name.push(path[j]);
                j += 1;
                proof {
                    assert(name@ =~= path@.subrange(from as int, j as int));
                }
            }
            return name;
        }
        from = slash + 1;
    }
}

/// The last component of a path holds no slash.
pub proof fn lemma_last_component_has_no_slash(path: Seq<char>, from: int)
    requires
        0 <= from <= path.len(),
    ensures
        forall|j: int|
            0 <= j < last_component(path, from).len() ==> (#[trigger] last_component(
                path,
                from,
            )[j]) != '/',
    decreases path.len() - from,
{
    let slash = scan(path, from, Class::Slash);
    lemma_scan(path, from, Class::Slash);
    if slash < path.len() {
        lemma_last_component_has_no_slash(path, slash + 1);
        assert(last_component(path, from) == last_component(path, slash + 1));
    } else {
        assert forall|j: int| 0 <= j < last_component(path, from).len() implies (
        #[trigger] last_component(path, from)[j]) != '/' by {
            assert(last_component(path, from)[j] == path[from + j]);
            assert(!in_class(path[from + j], Class::Slash));
        }
    }
}

} // verus!
