//! Character-level text rules: whitespace, trimming, lines, and the two
//! sections of a level definition.
//!
//! Every rule is stated over `Seq<char>`, the view of `str`, and each
//! executable function is proved against that statement.

use vstd::prelude::*;

verus! {

/// Whether `c` has the Unicode property `White_Space`.
pub open spec fn is_whitespace(c: char) -> bool {
    let n = c as u32;
    ||| 0x09 <= n <= 0x0d
    ||| n == 0x20
    ||| n == 0x85
    ||| n == 0xa0
    ||| n == 0x1680
    ||| 0x2000 <= n <= 0x200a
    ||| n == 0x2028
    ||| n == 0x2029
    ||| n == 0x202f
    ||| n == 0x205f
    ||| n == 0x3000
}

/// A text is blank when it holds nothing but whitespace; the empty text is blank.
pub open spec fn blank(s: Seq<char>) -> bool {
    forall|i: int| 0 <= i < s.len() ==> is_whitespace(#[trigger] s[i])
}

/// `s` without its leading whitespace.
pub open spec fn trim_start(s: Seq<char>) -> Seq<char>
    decreases s.len(),
{
    if s.len() > 0 && is_whitespace(s.first()) {
        trim_start(s.drop_first())
    } else {
        s
    }
}

/// `s` without its trailing whitespace.
pub open spec fn trim_end(s: Seq<char>) -> Seq<char>
    decreases s.len(),
{
    if s.len() > 0 && is_whitespace(s.last()) {
        trim_end(s.drop_last())
    } else {
        s
    }
}

/// `s` without its leading and trailing whitespace.
pub open spec fn trimmed(s: Seq<char>) -> Seq<char> {
    trim_end(trim_start(s))
}

/// The number of characters before the first line feed of `s`, or the length
/// of `s` if it holds none.
pub open spec fn line_end(s: Seq<char>) -> nat
    decreases s.len(),
{
    if s.len() == 0 || s.first() == '\n' {
        0
    } else {
        1 + line_end(s.drop_first())
    }
}

/// A terminated line loses one carriage return that stood before its line feed.
pub open spec fn strip_carriage_return(line: Seq<char>) -> Seq<char> {
    if line.len() > 0 && line.last() == '\r' {
        line.drop_last()
    } else {
        line
    }
}

/// The lines of a text. A line ends at a line feed, or at a carriage return
/// directly followed by one; the terminator is not part of the line. What
/// follows the last line feed is a line of its own unless it is empty, and it
/// keeps a trailing carriage return.
pub open spec fn split_lines(s: Seq<char>) -> Seq<Seq<char>>
    decreases s.len(),
{
    if s.len() == 0 {
        Seq::empty()
    } else {
        let n = line_end(s);
        if n >= s.len() {
            seq![s]
        } else {
            seq![strip_carriage_return(s.take(n as int))] + split_lines(s.skip(n as int + 1))
        }
    }
}

/// The views of a vector of string slices.
pub open spec fn views(lines: Seq<&str>) -> Seq<Seq<char>> {
    Seq::new(lines.len(), |i: int| lines[i]@)
}

/// Whether the delimiter token `---` stands at position `i` of `s`.
pub open spec fn delimiter_at(s: Seq<char>, i: int) -> bool {
    &&& 0 <= i
    &&& i + 3 <= s.len()
    &&& s[i] == '-'
    &&& s[i + 1] == '-'
    &&& s[i + 2] == '-'
}

/// Whether the delimiter token occurs anywhere in `s`.
pub open spec fn has_delimiter(s: Seq<char>) -> bool {
    exists|i: int| delimiter_at(s, i)
}

/// Whether position `i` is the leftmost occurrence of the delimiter in `s`.
pub open spec fn first_delimiter_at(s: Seq<char>, i: int) -> bool {
    &&& delimiter_at(s, i)
    &&& forall|j: int| 0 <= j < i ==> !delimiter_at(s, j)
}

/// A definition is cut at each occurrence of the delimiter, found from left
/// to right without overlap. It has exactly two sections when the delimiter
/// occurs, and does not occur again behind its leftmost occurrence.
pub open spec fn has_two_sections(s: Seq<char>) -> bool {
    exists|i: int| first_delimiter_at(s, i) && !has_delimiter(s.skip(i + 3))
}

/// The two sections of a definition that has exactly two: what stands before
/// the delimiter and what stands behind it.
pub open spec fn sections(s: Seq<char>) -> (Seq<char>, Seq<char>)
    recommends
        has_two_sections(s),
{
    let i = choose|i: int| first_delimiter_at(s, i);
    (s.take(i), s.skip(i + 3))
}

/// `trim_start` drops exactly the whitespace before the first character that
/// is none.
pub proof fn lemma_trim_start(s: Seq<char>, a: int)
    requires
        0 <= a <= s.len(),
        forall|j: int| 0 <= j < a ==> is_whitespace(#[trigger] s[j]),
        a < s.len() ==> !is_whitespace(s[a]),
    ensures
        trim_start(s) == s.skip(a),
    decreases a,
{
    if a == 0 {
        assert(s.skip(0) =~= s);
    } else {
        let t = s.drop_first();
        assert forall|j: int| 0 <= j < a - 1 implies is_whitespace(#[trigger] t[j]) by {
            assert(t[j] == s[j + 1]);
        }
        lemma_trim_start(t, a - 1);
        assert(t.skip(a - 1) =~= s.skip(a));
    }
}

/// `trim_end` drops exactly the whitespace behind the last character that is
/// none.
pub proof fn lemma_trim_end(s: Seq<char>, b: int)
    requires
        0 <= b <= s.len(),
        forall|j: int| b <= j < s.len() ==> is_whitespace(#[trigger] s[j]),
        b > 0 ==> !is_whitespace(s[b - 1]),
    ensures
        trim_end(s) == s.take(b),
    decreases s.len() - b,
{
    if b == s.len() {
        assert(s.take(b) =~= s);
    } else {
        lemma_trim_end(s.drop_last(), b);
        assert(s.drop_last().take(b) =~= s.take(b));
    }
}

/// A text is blank exactly when trimming leaves nothing of it.
pub proof fn lemma_blank_iff_trimmed_empty(s: Seq<char>)
    ensures
        blank(s) <==> trimmed(s).len() == 0,
    decreases s.len(),
{
    if s.len() == 0 {
    } else if is_whitespace(s.first()) {
        let t = s.drop_first();
        lemma_blank_iff_trimmed_empty(t);
        if blank(s) {
            assert forall|i: int| 0 <= i < t.len() implies is_whitespace(#[trigger] t[i]) by {
                assert(t[i] == s[i + 1]);
            }
        }
        if blank(t) {
            assert forall|i: int| 0 <= i < s.len() implies is_whitespace(#[trigger] s[i]) by {
                if i > 0 {
                    assert(s[i] == t[i - 1]);
                }
            }
        }
    } else {
        lemma_trim_end_keeps_first(s);
    }
}

/// Trimming the end of a text that starts with a character that is no
/// whitespace leaves that character in place.
proof fn lemma_trim_end_keeps_first(s: Seq<char>)
    requires
        s.len() > 0,
        !is_whitespace(s.first()),
    ensures
        trim_end(s).len() > 0,
    decreases s.len(),
{
    if is_whitespace(s.last()) {
        lemma_trim_end_keeps_first(s.drop_last());
    }
}

/// `line_end` is the position of the first line feed.
pub proof fn lemma_line_end(s: Seq<char>, k: int)
    requires
        0 <= k <= s.len(),
        forall|j: int| 0 <= j < k ==> #[trigger] s[j] != '\n',
        k < s.len() ==> s[k] == '\n',
    ensures
        line_end(s) == k,
    decreases k,
{
    if k > 0 {
        let t = s.drop_first();
        assert forall|j: int| 0 <= j < k - 1 implies #[trigger] t[j] != '\n' by {
            assert(t[j] == s[j + 1]);
        }
        lemma_line_end(t, k - 1);
    }
}

/// The delimiter stands at `j` in what follows position `k` exactly when it
/// stands at `j + k` in the whole.
pub proof fn lemma_delimiter_shift(s: Seq<char>, k: int, j: int)
    requires
        0 <= k <= s.len(),
        0 <= j,
    ensures
        delimiter_at(s.skip(k), j) <==> delimiter_at(s, j + k),
{
}

/// A text has at most one leftmost occurrence of the delimiter.
pub proof fn lemma_first_delimiter_unique(s: Seq<char>, i: int, j: int)
    requires
        first_delimiter_at(s, i),
        first_delimiter_at(s, j),
    ensures
        i == j,
{
}

/// Whether `c` is whitespace.
pub fn char_is_whitespace(c: char) -> (b: bool)
    ensures
        b == is_whitespace(c),
{
    let n: u32 = c as u32;
    (0x09 <= n && n <= 0x0d) || n == 0x20 || n == 0x85 || n == 0xa0 || n == 0x1680 || (0x2000 <= n
        && n <= 0x200a) || n == 0x2028 || n == 0x2029 || n == 0x202f || n == 0x205f || n == 0x3000
}

/// The characters of `s`, in order.
pub fn to_chars(s: &str) -> (v: Vec<char>)
    ensures
        v@ == s@,
{
    let mut v: Vec<char> = Vec::new();
    for c in it: s.chars()
        invariant
            it.seq() == s@,
            v@ == it.seq().take(it.index() as int),
    {
        v.push(c);
    }
    v
}

/// Whether `s` holds nothing but whitespace.
pub fn is_blank(s: &str) -> (b: bool)
    ensures
        b == blank(s@),
{
    let chars = to_chars(s);
    let mut i: usize = 0;
    while i < chars.len()
        invariant
            i <= chars.len(),
            chars@ == s@,
            forall|j: int| 0 <= j < i ==> is_whitespace(#[trigger] s@[j]),
        decreases chars.len() - i,
    {
        if !char_is_whitespace(chars[i]) {
            return false;
        }
        i += 1;
    }
    true
}

/// `s` without its leading and trailing whitespace.
pub fn trim(s: &str) -> (t: &str)
    ensures
        t@ == trimmed(s@),
{
    let chars = to_chars(s);
    let len = chars.len();
    let mut start: usize = 0;
    while start < len && char_is_whitespace(chars[start])
        invariant
            start <= len,
            len == chars.len(),
            chars@ == s@,
            forall|j: int| 0 <= j < start ==> is_whitespace(#[trigger] s@[j]),
        decreases len - start,
    {
        start += 1;
    }
    let mut end: usize = len;
    while end > start && char_is_whitespace(chars[end - 1])
        invariant
            start <= end <= len,
            len == chars.len(),
            chars@ == s@,
            forall|j: int| end <= j < len ==> is_whitespace(#[trigger] s@[j]),
        decreases end,
    {
        end -= 1;
    }
    proof {
        let rest = s@.skip(start as int);
        lemma_trim_start(s@, start as int);
        assert forall|j: int| end - start <= j < rest.len() implies is_whitespace(
            #[trigger] rest[j],
        ) by {
            assert(rest[j] == s@[j + start]);
        }
        lemma_trim_end(rest, end - start);
        assert(rest.take(end - start) =~= s@.subrange(start as int, end as int));
    }
    s.substring_char(start, end)
}

/// The lines of `s`, as slices of it.
pub fn lines(s: &str) -> (r: Vec<&str>)
    ensures
        views(r@) == split_lines(s@),
{
    let chars = to_chars(s);
    let len = chars.len();
    let mut r: Vec<&str> = Vec::new();
    let mut start: usize = 0;
    let mut i: usize = 0;
    proof {
        assert(s@.skip(0) =~= s@);
    }
    while i < len
        invariant
            start <= i <= len,
            len == chars.len(),
            chars@ == s@,
            forall|j: int| start <= j < i ==> #[trigger] s@[j] != '\n',
            split_lines(s@) == views(r@) + split_lines(s@.skip(start as int)),
        decreases len - i,
    {
        if chars[i] == '\n' {
            let stop: usize = if i > start && chars[i - 1] == '\r' {
                (i - 1) as usize
            } else {
                i
            };
            let line = s.substring_char(start, stop);
            proof {
                let rest = s@.skip(start as int);
                assert forall|j: int| 0 <= j < i - start implies #[trigger] rest[j] != '\n' by {
                    assert(rest[j] == s@[j + start]);
                }
                lemma_line_end(rest, i - start);
                assert(strip_carriage_return(rest.take(i - start)) =~= line@);
                assert(rest.skip(i - start + 1) =~= s@.skip(i + 1));
                assert(views(r@.push(line)) =~= views(r@) + seq![line@]);
            }
            r.push(line);
            start = i + 1;
        }
        i += 1;
    }
    if start < len {
        let line = s.substring_char(start, len);
        proof {
            let rest = s@.skip(start as int);
            assert forall|j: int| 0 <= j < len - start implies #[trigger] rest[j] != '\n' by {
                assert(rest[j] == s@[j + start]);
            }
            lemma_line_end(rest, len - start);
            assert(views(r@.push(line)) =~= views(r@) + seq![line@]);
        }
        r.push(line);
    }
    r
}

/// The leftmost occurrence of the delimiter at or behind position `from`.
fn find_delimiter(chars: &Vec<char>, from: usize) -> (r: Option<usize>)
    requires
        from <= chars.len(),
    ensures
        match r {
            Some(i) => {
                &&& from <= i
                &&& delimiter_at(chars@, i as int)
                &&& forall|j: int| from <= j < i ==> !delimiter_at(chars@, j)
            },
            None => forall|j: int| from <= j ==> !delimiter_at(chars@, j),
        },
{
    let len = chars.len();
    let mut i: usize = from;
    while len - i >= 3
        invariant
            from <= i <= len,
            len == chars.len(),
            forall|j: int| from <= j < i ==> !delimiter_at(chars@, j),
        decreases len - i,
    {
        if chars[i] == '-' && chars[i + 1] == '-' && chars[i + 2] == '-' {
            return Some(i);
        }
        i += 1;
    }
    None
}

/// Cuts a definition into its two sections, if it has exactly two.
pub fn split_sections(s: &str) -> (r: Option<(&str, &str)>)
    ensures
        r is Some <==> has_two_sections(s@),
        r matches Some((head, tail)) ==> (head@, tail@) == sections(s@),
{
    let chars = to_chars(s);
    let len = chars.len();
    match find_delimiter(&chars, 0) {
        None => None,
        Some(i) => {
            assert(first_delimiter_at(s@, i as int));
            assert forall|k: int| first_delimiter_at(s@, k) implies k == i by {
                lemma_first_delimiter_unique(s@, k, i as int);
            }
            match find_delimiter(&chars, i + 3) {
                Some(k) => {
                    assert(has_delimiter(s@.skip(i + 3))) by {
                        lemma_delimiter_shift(s@, i + 3, k - (i + 3));
                    }
                    None
                },
                None => {
                    proof {
                        assert forall|j: int| !#[trigger] delimiter_at(s@.skip(i + 3), j) by {
                            if 0 <= j {
                                lemma_delimiter_shift(s@, i + 3, j);
                            }
                        }
                    }
                    Some((s.substring_char(0, i), s.substring_char(i + 3, len)))
                },
            }
        },
    }
}

} // verus!
