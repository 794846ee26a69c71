//! Decimal numbers and text fields as they appear in service advertisements and on
//! the clipboard.
use vstd::prelude::*;

verus! {

/// Appending a character to a `String` (`String::push`): the string's characters
/// gain `ch` at the end.
pub assume_specification[ String::push ](string: &mut String, ch: char)
    ensures
        final(string)@ == old(string)@.push(ch),
;

/// The decimal digit character of `d`, for `d` below ten.
pub open spec fn digit_char(d: nat) -> char {
    (48 + d) as char
}

/// The decimal representation of `n`, without leading zeros.
pub open spec fn decimal(n: nat) -> Seq<char>
    decreases n,
{
    if n < 10 {
        seq![digit_char(n)]
    } else {
        decimal(n / 10).push(digit_char(n % 10))
    }
}

/// The character of the decimal digit `d`.
fn digit(d: u64) -> (c: char)
    requires
        d < 10,
    ensures
        c == digit_char(d as nat),
{
    ((d as u8) + 48) as char
}

/// Appends the decimal representation of `n`.
pub fn push_decimal(out: &mut String, n: u64)
    ensures
        final(out)@ == old(out)@ + decimal(n as nat),
{
    let mut lower: Vec<char> = Vec::new();
    let mut rest: u64 = n;
    let ghost mut suffix: Seq<char> = Seq::empty();
    while rest >= 10
        invariant
            decimal(n as nat) == decimal(rest as nat) + suffix,
            lower@.len() == suffix.len(),
            forall|k: int| 0 <= k < suffix.len() ==> #[trigger] lower@[k] == suffix[suffix.len() - 1 - k],
        decreases rest,
    {
        let c = digit(rest % 10);
        proof {
            assert(decimal(rest as nat) == decimal((rest / 10) as nat).push(c));
            assert(decimal((rest / 10) as nat).push(c) + suffix =~= decimal((rest / 10) as nat) + (seq![c] + suffix));
            suffix = seq![c] + suffix;
        }
        lower.push(c);
        rest = rest / 10;
    }
    let ghost start = out@;
    out.push(digit(rest));
    assert(decimal(rest as nat) == seq![digit_char(rest as nat)]);
    let mut j: usize = lower.len();
    while j > 0
        invariant
            j <= lower@.len(),
            lower@.len() == suffix.len(),
            forall|k: int| 0 <= k < suffix.len() ==> #[trigger] lower@[k] == suffix[suffix.len() - 1 - k],
            out@ == start + decimal(rest as nat) + suffix.take(suffix.len() - j),
        decreases j,
    {
        j = j - 1;
        out.push(lower[j]);
        assert(suffix.take(suffix.len() - j) =~= suffix.take(suffix.len() - j - 1).push(suffix[suffix.len() - 1 - j]));
    }
    assert(suffix.take(suffix.len() as int) =~= suffix);
}


/// Whether `b` is the ASCII code of a decimal digit.
pub open spec fn is_digit_byte(b: u8) -> bool {
    48 <= b <= 57
}

/// Whether every byte of `d` is a decimal digit.
pub open spec fn all_digits(d: Seq<u8>) -> bool {
    forall|i: int| 0 <= i < d.len() ==> is_digit_byte(#[trigger] d[i])
}

/// The number written by the decimal digits `d` (most significant first).
pub open spec fn digits_value(d: Seq<u8>) -> nat
    decreases d.len(),
{
    if d.len() == 0 {
        0
    } else {
        digits_value(d.drop_last()) * 10 + (d.last() - 48) as nat
    }
}

/// The `u32` that Rust's `str::parse::<u32>` reads from the bytes `b`: an optional
/// `+`, then one or more decimal digits whose value fits in a `u32`; `None` for
/// anything else.
pub open spec fn parse_u32_spec(b: Seq<u8>) -> Option<u32> {
    if b.len() == 0 {
        None
    } else {
        let d = if b[0] == 43 {
            b.drop_first()
        } else {
            b
        };
        if d.len() > 0 && all_digits(d) && digits_value(d) <= u32::MAX {
            Some(digits_value(d) as u32)
        } else {
            None
        }
    }
}

/// More digits never make a smaller number.
proof fn lemma_digits_value_prefix(d: Seq<u8>, k: int)
    requires
        all_digits(d),
        0 <= k <= d.len(),
    ensures
        digits_value(d.take(k)) <= digits_value(d),
    decreases d.len() - k,
{
    if k < d.len() {
        lemma_digits_value_prefix(d, k + 1);
        assert(d.take(k + 1).drop_last() =~= d.take(k));
    } else {
        assert(d.take(k) =~= d);
    }
}

/// Reads a `u32` from its decimal text as `str::parse::<u32>` does.
pub fn parse_u32(b: &[u8]) -> (r: Option<u32>)
    ensures
        r == parse_u32_spec(b@),
{
    if b.len() == 0 {
        return None;
    }
    let mut i: usize = if b[0] == 43u8 { 1 } else { 0 };
    let first = i;
    if i == b.len() {
        return None;
    }
    let ghost d = if b@[0] == 43 { b@.drop_first() } else { b@ };
    let mut acc: u64 = 0;
    while i < b.len()
        invariant
            first <= i <= b@.len(),
            first < b@.len(),
            first == (if b@[0] == 43 { 1int } else { 0int }),
            d == b@.skip(first as int),
            all_digits(d.take(i - first)),
            acc == digits_value(d.take(i - first)),
            acc <= u32::MAX,
        decreases b@.len() - i,
    {
        let c = b[i];
        assert(d[i - first] == c);
        if c < 48u8 || c > 57u8 {
            assert(!all_digits(d));
            return None;
        }
        let next = acc * 10 + (c - 48u8) as u64;
        assert(d.take(i + 1 - first).drop_last() =~= d.take(i - first));
        assert(d.take(i + 1 - first).last() == c);
        assert(digits_value(d.take(i + 1 - first)) == next);
        i = i + 1;
        if next > u32::MAX as u64 {
            proof {
                if all_digits(d) {
                    lemma_digits_value_prefix(d, i - first);
                    assert(digits_value(d) > u32::MAX);
                }
                assert(d == (if b@[0] == 43 { b@.drop_first() } else { b@ }));
                assert(parse_u32_spec(b@) is None);
            }
            return None;
        }
        acc = next;
    }
    assert(d.take(i - first) =~= d);
    Some(acc as u32)
}

/// The end of the field of `b` that starts at `start`: the index of the first `x`
/// at or after `start`, or the length of `b` when there is none.
pub open spec fn field_end(b: Seq<u8>, start: int) -> int
    decreases b.len() - start,
{
    if start >= b.len() {
        b.len() as int
    } else if b[start] == 120 {
        start
    } else {
        field_end(b, start + 1)
    }
}

proof fn lemma_field_end_bounds(b: Seq<u8>, start: int)
    requires
        0 <= start <= b.len(),
    ensures
        start <= field_end(b, start) <= b.len(),
        field_end(b, start) < b.len() ==> b[field_end(b, start)] == 120,
        forall|j: int| start <= j < field_end(b, start) ==> b[j] != 120,
    decreases b.len() - start,
{
    if start < b.len() && b[start] != 120 {
        lemma_field_end_bounds(b, start + 1);
    }
}

/// Finds [`field_end`].
fn find_field_end(b: &[u8], start: usize) -> (e: usize)
    requires
        start <= b@.len(),
    ensures
        e == field_end(b@, start as int),
{
    let mut j = start;
    while j < b.len() && b[j] != 120u8
        invariant
            start <= j <= b@.len(),
            field_end(b@, start as int) == field_end(b@, j as int),
        decreases b@.len() - j,
    {
        j = j + 1;
    }
    j
}

/// The screen size that an advertised `resolution` value gives: the text up to the
/// first `x` is the width and the text after it, up to any further `x`, the height,
/// each read as by `str::parse::<u32>`; a missing or unreadable width counts as
/// 1920 and a missing or unreadable height as 1080.
pub open spec fn resolution_of(b: Seq<u8>) -> (u32, u32) {
    let e1 = field_end(b, 0);
    let w = match parse_u32_spec(b.take(e1)) {
        Some(v) => v,
        None => 1920,
    };
    let h = if e1 < b.len() {
        match parse_u32_spec(b.subrange(e1 + 1, field_end(b, e1 + 1))) {
            Some(v) => v,
            None => 1080,
        }
    } else {
        1080
    };
    (w, h)
}

/// Reads the screen size from an advertised `resolution` value.
pub fn parse_resolution(text: &str) -> (wh: (u32, u32))
    ensures
        wh == resolution_of(vstd::utf8::encode_utf8(text@)),
{
    let b = text.as_bytes();
    let e1 = find_field_end(b, 0);
    proof { lemma_field_end_bounds(b@, 0); }
    let w = match parse_u32(vstd::slice::slice_subrange(b, 0, e1)) {
        Some(v) => v,
        None => 1920,
    };
    assert(b@.subrange(0, e1 as int) =~= b@.take(e1 as int));
    let h = if e1 < b.len() {
        let e2 = find_field_end(b, e1 + 1);
        proof { lemma_field_end_bounds(b@, e1 + 1); }
        match parse_u32(vstd::slice::slice_subrange(b, e1 + 1, e2)) {
            Some(v) => v,
            None => 1080,
        }
    } else {
        1080
    };
    (w, h)
}

/// The advertised `resolution` value of a screen: width, `x`, height, in decimal.
pub open spec fn resolution_text(width: u32, height: u32) -> Seq<char> {
    decimal(width as nat).push('x') + decimal(height as nat)
}

/// Writes the advertised `resolution` value of a screen.
pub fn format_resolution(width: u32, height: u32) -> (text: String)
    ensures
        text@ == resolution_text(width, height),
{
    let mut text = String::new();
    push_decimal(&mut text, width as u64);
    text.push('x');
    push_decimal(&mut text, height as u64);
    assert(text@ =~= resolution_text(width, height));
    text
}


/// The ASCII bytes of a character sequence made of ASCII characters.
pub open spec fn ascii_bytes(chars: Seq<char>) -> Seq<u8> {
    Seq::new(chars.len(), |i: int| chars[i] as u8)
}

/// A digit character is the ASCII character of its digit.
proof fn lemma_digit_char(d: nat)
    requires
        d < 10,
    ensures
        digit_char(d) as u8 == 48 + d,
        '\0' <= digit_char(d) <= '\u{7f}',
{
    assert(digit_char(d) as u32 == 48 + d);
}

/// A decimal representation is made of ASCII digits and reads back as its number.
pub proof fn lemma_decimal_reads_back(n: nat)
    ensures
        decimal(n).len() >= 1,
        vstd::utf8::is_ascii_chars(decimal(n)),
        all_digits(ascii_bytes(decimal(n))),
        digits_value(ascii_bytes(decimal(n))) == n,
    decreases n,
{
    if n < 10 {
        lemma_digit_char(n);
        let b = ascii_bytes(decimal(n));
        assert(b.len() == 1);
        assert(b[0] == 48 + n);
        assert(b.drop_last() =~= Seq::<u8>::empty());
        assert(digits_value(b) == digits_value(b.drop_last()) * 10 + (b.last() - 48) as nat);
    } else {
        lemma_decimal_reads_back(n / 10);
        lemma_digit_char(n % 10);
        let c = digit_char(n % 10);
        assert(ascii_bytes(decimal(n)).drop_last() =~= ascii_bytes(decimal(n / 10)));
        let b = ascii_bytes(decimal(n));
        let p = ascii_bytes(decimal(n / 10));
        assert(b.last() == c as u8);
        assert forall|i: int| 0 <= i < b.len() implies is_digit_byte(#[trigger] b[i]) by {
            if i < p.len() {
                assert(b[i] == p[i]);
            }
        }
        assert(digits_value(b) == digits_value(b.drop_last()) * 10 + (b.last() - 48) as nat);
        assert(n == (n / 10) * 10 + n % 10);
    }
}

/// The advertised `resolution` value of a screen reads back as that screen's size.
pub proof fn lemma_resolution_roundtrip(width: u32, height: u32)
    ensures
        resolution_of(vstd::utf8::encode_utf8(resolution_text(width, height))) == (width, height),
{
    let dw = decimal(width as nat);
    let dh = decimal(height as nat);
    let t = resolution_text(width, height);
    lemma_decimal_reads_back(width as nat);
    lemma_decimal_reads_back(height as nat);
    assert(vstd::utf8::is_ascii_chars(t));
    vstd::utf8::is_ascii_chars_encode_utf8(t);
    let b = vstd::utf8::encode_utf8(t);
    assert(b =~= ascii_bytes(dw).push(120u8) + ascii_bytes(dh));
    let e1 = dw.len() as int;
    assert forall|j: int| 0 <= j <= e1 implies field_end(b, j) == e1 by {
        lemma_field_end_from(b, j, e1);
    }
    assert(b.take(e1) =~= ascii_bytes(dw));
    assert(field_end(b, e1 + 1) == b.len()) by {
        lemma_field_end_from(b, e1 + 1, b.len() as int);
    }
    assert(b.subrange(e1 + 1, b.len() as int) =~= ascii_bytes(dh));
}

/// No `x` between `start` and `end`, and an `x` (or the end of `b`) at `end`.
proof fn lemma_field_end_from(b: Seq<u8>, start: int, end: int)
    requires
        0 <= start <= end <= b.len(),
        end < b.len() ==> b[end] == 120,
        forall|j: int| start <= j < end ==> b[j] != 120,
    ensures
        field_end(b, start) == end,
    decreases end - start,
{
    if start < end {
        lemma_field_end_from(b, start + 1, end);
    }
}


/// The characters of `parts` joined with newlines between them, as `[String]::join("\n")`
/// gives them.
pub open spec fn joined_lines(parts: Seq<Seq<char>>) -> Seq<char>
    decreases parts.len(),
{
    if parts.len() == 0 {
        Seq::empty()
    } else if parts.len() == 1 {
        parts[0]
    } else {
        joined_lines(parts.drop_last()).push('\n') + parts.last()
    }
}

/// The characters of each string.
pub open spec fn string_views(parts: Seq<String>) -> Seq<Seq<char>> {
    parts.map_values(|p: String| p@)
}

/// Joins `parts` with newlines between them.
pub fn join_lines(parts: &Vec<String>) -> (text: String)
    ensures
        text@ == joined_lines(string_views(parts@)),
{
    let mut text = String::new();
    let mut i: usize = 0;
    while i < parts.len()
        invariant
            i <= parts@.len(),
            text@ == joined_lines(string_views(parts@.take(i as int))),
        decreases parts@.len() - i,
    {
        let ghost before = text@;
        if i > 0 {
            text.push('\n');
        }
        text.append(parts[i].as_str());
        proof {
            let v = string_views(parts@.take(i + 1));
            assert(v.drop_last() =~= string_views(parts@.take(i as int)));
            assert(v.last() == parts@[i as int]@);
            if i == 0 {
                assert(before =~= Seq::<char>::empty());
                assert(text@ =~= v[0]);
            }
        }
        i = i + 1;
    }
    assert(parts@.take(i as int) =~= parts@);
    text
}

} // verus!
