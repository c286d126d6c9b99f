use vstd::prelude::*;

verus! {

broadcast use vstd::string::group_string_axioms;

/// Whether a character carries the Unicode `White_Space` property
/// (PropList.txt): U+0009..U+000D, U+0020, U+0085, U+00A0, U+1680,
/// U+2000..U+200A, U+2028, U+2029, U+202F, U+205F and U+3000.
pub open spec fn is_white_space(c: char) -> bool {
    let u = c as u32;
    ||| 0x09 <= u <= 0x0D
    ||| u == 0x20
    ||| u == 0x85
    ||| u == 0xA0
    ||| u == 0x1680
    ||| 0x2000 <= u <= 0x200A
    ||| u == 0x2028
    ||| u == 0x2029
    ||| u == 0x202F
    ||| u == 0x205F
    ||| u == 0x3000
}

/// `char::is_whitespace`: std documents it as "has the Unicode `White_Space`
/// property"; the contract states that property by its list of code points.
#[verifier::external_body]
pub(crate) fn char_is_whitespace(c: char) -> (res: bool)
    ensures
        res == is_white_space(c),
{
    c.is_whitespace()
}

/// `String::push`: appends one character at the end of the string.
#[verifier::external_body]
pub(crate) fn push_char(s: &mut String, c: char)
    ensures
        final(s)@ == old(s)@.push(c),
{
    s.push(c);
}

/// The characters of a string slice, in order.
pub fn chars_of(s: &str) -> (v: Vec<char>)
    ensures
        v@ == s@,
{
    let mut v: Vec<char> = Vec::new();
    for c in it: s.chars()
        invariant
            it.seq() == s@,
            v@ == it.seq().take(it.index() as int),
    {
        v.push(c);
    }
    v
}

/// Appends `v[lo..hi]` to `out`.
pub fn push_chars(out: &mut String, v: &Vec<char>, lo: usize, hi: usize)
    requires
        lo <= hi <= v.len(),
    ensures
        final(out)@ == old(out)@ + v@.subrange(lo as int, hi as int),
{
    let mut i = lo;
    while i < hi
        invariant
            lo <= i <= hi <= v.len(),
            out@ == old(out)@ + v@.subrange(lo as int, i as int),
        decreases hi - i,
    {
        push_char(out, v[i]);
        i = i + 1;
        assert(v@.subrange(lo as int, i as int) == v@.subrange(lo as int, i - 1).push(v@[i - 1]));
    }
}

/// A string holding exactly the characters `v[lo..hi]`.
pub fn string_from_chars(v: &Vec<char>, lo: usize, hi: usize) -> (s: String)
    requires
        lo <= hi <= v.len(),
    ensures
        s@ == v@.subrange(lo as int, hi as int),
{
    let mut s = String::new();
    push_chars(&mut s, v, lo, hi);
    s
}

/// `n` copies of the character `c`.
pub open spec fn repeat_char(c: char, n: nat) -> Seq<char> {
    Seq::new(n, |i: int| c)
}

/// Appends `n` copies of `c` to `out`.
pub fn push_repeated(out: &mut String, c: char, n: usize)
    ensures
        final(out)@ == old(out)@ + repeat_char(c, n as nat),
{
    let mut i: usize = 0;
    while i < n
        invariant
            i <= n,
            out@ == old(out)@ + repeat_char(c, i as nat),
        decreases n - i,
    {
        push_char(out, c);
        i = i + 1;
        assert(repeat_char(c, i as nat) == repeat_char(c, (i - 1) as nat).push(c));
    }
}

/// Index of the first character that is not white space, if there is one.
pub open spec fn first_non_white_space(s: Seq<char>) -> Option<nat>
    decreases s.len(),
{
    if s.len() == 0 {
        None
    } else if !is_white_space(s[0]) {
        Some(0)
    } else {
        match first_non_white_space(s.drop_first()) {
            Some(i) => Some(i + 1),
            None => None,
        }
    }
}

/// Characterises `first_non_white_space` by what it finds.
pub proof fn lemma_first_non_white_space(s: Seq<char>)
    ensures
        first_non_white_space(s) matches Some(i) ==> {
            &&& i < s.len()
            &&& !is_white_space(s[i as int])
            &&& forall|j: int| 0 <= j < i ==> is_white_space(#[trigger] s[j])
        },
        first_non_white_space(s) is None ==> forall|j: int|
            0 <= j < s.len() ==> is_white_space(#[trigger] s[j]),
    decreases s.len(),
{
    if s.len() > 0 {
        lemma_first_non_white_space(s.drop_first());
        if is_white_space(s[0]) {
            assert forall|j: int| 1 <= j < s.len() implies #[trigger] s[j] == s.drop_first()[j - 1] by {}
        }
    }
}

/// Position of the first character of `v` that is not white space, or 0
/// when every character is white space.
pub fn first_non_white_space_pos(v: &Vec<char>) -> (res: usize)
    ensures
        res == match first_non_white_space(v@) {
            Some(i) => i,
            None => 0,
        },
{
    let mut i: usize = 0;
    proof {
        lemma_first_non_white_space(v@);
    }
    while i < v.len()
        invariant
            i <= v.len(),
            forall|j: int| 0 <= j < i ==> is_white_space(#[trigger] v@[j]),
            first_non_white_space(v@) matches Some(k) ==> {
                &&& k < v@.len()
                &&& !is_white_space(v@[k as int])
                &&& forall|j: int| 0 <= j < k ==> is_white_space(#[trigger] v@[j])
            },
            first_non_white_space(v@) is None ==> forall|j: int|
                0 <= j < v@.len() ==> is_white_space(#[trigger] v@[j]),
        decreases v.len() - i,
    {
        if !char_is_whitespace(v[i]) {
            return i;
        }
        i = i + 1;
    }
    0
}


/// Number of columns a tab character takes when it is rendered.
pub const TAB_WIDTH: usize = 4;

/// The rendering of a row: every tab becomes `TAB_WIDTH` spaces, every other
/// character stays as it is.
pub open spec fn expand_tabs(s: Seq<char>) -> Seq<char>
    decreases s.len(),
{
    if s.len() == 0 {
        Seq::empty()
    } else if s.last() == '\t' {
        expand_tabs(s.drop_last()) + repeat_char(' ', TAB_WIDTH as nat)
    } else {
        expand_tabs(s.drop_last()).push(s.last())
    }
}

/// The character of a decimal digit.
pub open spec fn digit_char(d: nat) -> char {
    if d == 0 { '0' }
    else if d == 1 { '1' }
    else if d == 2 { '2' }
    else if d == 3 { '3' }
    else if d == 4 { '4' }
    else if d == 5 { '5' }
    else if d == 6 { '6' }
    else if d == 7 { '7' }
    else if d == 8 { '8' }
    else { '9' }
}

/// The decimal representation of a natural number, without leading zeros.
pub open spec fn decimal(n: nat) -> Seq<char>
    decreases n,
{
    if n < 10 {
        seq![digit_char(n)]
    } else {
        decimal(n / 10).push(digit_char(n % 10))
    }
}

fn digit(d: usize) -> (c: char)
    requires
        d < 10,
    ensures
        c == digit_char(d as nat),
{
    if d == 0 { '0' }
    else if d == 1 { '1' }
    else if d == 2 { '2' }
    else if d == 3 { '3' }
    else if d == 4 { '4' }
    else if d == 5 { '5' }
    else if d == 6 { '6' }
    else if d == 7 { '7' }
    else if d == 8 { '8' }
    else { '9' }
}

/// Appends the decimal representation of `n` to `out`.
pub fn push_decimal(out: &mut String, n: usize)
    ensures
        final(out)@ == old(out)@ + decimal(n as nat),
    decreases n,
{
    if n >= 10 {
        push_decimal(out, n / 10);
    }
    push_char(out, digit(n % 10));
}

/// `s` preceded by as many spaces as it takes to reach `width` characters.
pub open spec fn pad_left(s: Seq<char>, width: nat) -> Seq<char> {
    if s.len() < width {
        repeat_char(' ', (width - s.len()) as nat) + s
    } else {
        s
    }
}

/// Appends `n` in decimal, right-aligned in a field of at least `width`
/// characters.
pub fn push_decimal_padded(out: &mut String, n: usize, width: usize)
    ensures
        final(out)@ == old(out)@ + pad_left(decimal(n as nat), width as nat),
{
    let mut digits = String::new();
    push_decimal(&mut digits, n);
    let len = digits.as_str().unicode_len();
    if len < width {
        push_repeated(out, ' ', width - len);
    }
    let ghost before = out@;
    out.append(digits.as_str());
    assert(out@ == old(out)@ + pad_left(decimal(n as nat), width as nat));
}

/// Number of bytes in the UTF-8 encoding of a character.
pub open spec fn utf8_width(c: char) -> nat {
    let u = c as u32;
    if u < 0x80 {
        1
    } else if u < 0x800 {
        2
    } else if u < 0x10000 {
        3
    } else {
        4
    }
}

/// Number of bytes in the UTF-8 encoding of a sequence of characters.
pub open spec fn utf8_len(s: Seq<char>) -> nat
    decreases s.len(),
{
    if s.len() == 0 {
        0
    } else {
        utf8_len(s.drop_last()) + utf8_width(s.last())
    }
}

/// The UTF-8 length of a concatenation is the sum of the lengths.
pub proof fn lemma_utf8_len_concat(a: Seq<char>, b: Seq<char>)
    ensures
        utf8_len(a + b) == utf8_len(a) + utf8_len(b),
    decreases b.len(),
{
    if b.len() > 0 {
        lemma_utf8_len_concat(a, b.drop_last());
        assert((a + b).drop_last() == a + b.drop_last());
    }
}

fn char_utf8_width(c: char) -> (w: usize)
    ensures
        w == utf8_width(c),
{
    let u = c as u32;
    if u < 0x80 {
        1
    } else if u < 0x800 {
        2
    } else if u < 0x10000 {
        3
    } else {
        4
    }
}

/// The UTF-8 length of `v`, or `None` when it exceeds `bound`.
pub fn utf8_len_up_to(v: &Vec<char>, bound: usize) -> (res: Option<usize>)
    ensures
        match res {
            Some(n) => n == utf8_len(v@) && n <= bound,
            None => utf8_len(v@) > bound,
        },
{
    let mut total: usize = 0;
    let mut i: usize = 0;
    while i < v.len()
        invariant
            i <= v.len(),
            total == utf8_len(v@.take(i as int)),
            total <= bound,
        decreases v.len() - i,
    {
        let w = char_utf8_width(v[i]);
        assert(v@.take(i + 1).drop_last() == v@.take(i as int));
        if w > bound - total {
            proof {
                lemma_utf8_len_concat(v@.take(i + 1), v@.skip(i + 1));
                assert(v@.take(i + 1) + v@.skip(i + 1) == v@);
            }
            return None;
        }
        total = total + w;
        i = i + 1;
    }
    assert(v@.take(v.len() as int) == v@);
    Some(total)
}


/// A line with one carriage return removed from its end, if it has one.
pub open spec fn strip_cr(line: Seq<char>) -> Seq<char> {
    if line.len() > 0 && line.last() == '\r' {
        line.drop_last()
    } else {
        line
    }
}

/// Scanning `s` from the left: the lines completed by a `'\n'` so far, and
/// the characters read since the last `'\n'`.
pub open spec fn line_scan(s: Seq<char>) -> (Seq<Seq<char>>, Seq<char>)
    decreases s.len(),
{
    if s.len() == 0 {
        (Seq::empty(), Seq::empty())
    } else {
        let (done, cur) = line_scan(s.drop_last());
        if s.last() == '\n' {
            (done.push(strip_cr(cur)), Seq::empty())
        } else {
            (done, cur.push(s.last()))
        }
    }
}

/// The lines of a text: it is split at each `'\n'` and at each `"\r\n"`, the
/// line endings are dropped, and the final line ending is optional (a text
/// that ends with one has no empty line after it).
pub open spec fn split_lines(s: Seq<char>) -> Seq<Seq<char>> {
    let (done, cur) = line_scan(s);
    if cur.len() == 0 {
        done
    } else {
        done.push(cur)
    }
}

/// The lines of `text`, each as a `String`.
pub fn lines_of(text: &str) -> (lines: Vec<String>)
    ensures
        lines@.len() == split_lines(text@).len(),
        forall|i: int| 0 <= i < lines@.len() ==> #[trigger] lines@[i]@ == split_lines(text@)[i],
{
    let v = chars_of(text);
    let mut lines: Vec<String> = Vec::new();
    let mut start: usize = 0;
    let mut i: usize = 0;
    while i < v.len()
        invariant
            start <= i <= v.len(),
            v@ == text@,
            line_scan(v@.take(i as int)).1 == v@.subrange(start as int, i as int),
            lines@.len() == line_scan(v@.take(i as int)).0.len(),
            forall|k: int| 0 <= k < lines@.len() ==> #[trigger] lines@[k]@ == line_scan(v@.take(i as int)).0[k],
        decreases v.len() - i,
    {
        assert(v@.take(i + 1).drop_last() == v@.take(i as int));
        if v[i] == '\n' {
            let end = if i > start && v[i - 1] == '\r' { i - 1 } else { i };
            let line = string_from_chars(&v, start, end);
            assert(line@ == strip_cr(v@.subrange(start as int, i as int)));
            lines.push(line);
            start = i + 1;
        } else {
            assert(v@.subrange(start as int, i + 1) == v@.subrange(start as int, i as int).push(v@[i as int]));
        }
        i = i + 1;
    }
    assert(v@.take(v.len() as int) == v@);
    if start < v.len() {
        lines.push(string_from_chars(&v, start, v.len()));
    }
    lines
}

} // verus!
