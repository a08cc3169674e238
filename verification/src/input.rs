//! What a user types for a spectrum: a number, or a range written
//! `[from ~ to]`, and the cell text a submitted spectrum is printed as.
use vstd::prelude::*;

verus! {

/// The characters that Unicode gives the `White_Space` property, which
/// trimming removes from both ends of a text.
pub open spec fn is_white_space(c: char) -> bool {
    ||| '\u{9}' <= c <= '\u{d}'
    ||| c == ' '
    ||| c == '\u{85}'
    ||| c == '\u{a0}'
    ||| c == '\u{1680}'
    ||| '\u{2000}' <= c <= '\u{200a}'
    ||| c == '\u{2028}'
    ||| c == '\u{2029}'
    ||| c == '\u{202f}'
    ||| c == '\u{205f}'
    ||| c == '\u{3000}'
}

/// `text` without the white space at its start.
pub open spec fn trim_start(text: Seq<char>) -> Seq<char>
    decreases text.len(),
{
    if text.len() > 0 && is_white_space(text[0]) {
        trim_start(text.drop_first())
    } else {
        text
    }
}

/// `text` without the white space at its end.
pub open spec fn trim_end(text: Seq<char>) -> Seq<char>
    decreases text.len(),
{
    if text.len() > 0 && is_white_space(text.last()) {
        trim_end(text.drop_last())
    } else {
        text
    }
}

/// `text` without the white space at either end.
pub open spec fn trim(text: Seq<char>) -> Seq<char> {
    trim_end(trim_start(text))
}

/// Whether `c` is white space.
pub fn is_whitespace(c: char) -> (white: bool)
    ensures
        white == is_white_space(c),
{
    ('\u{9}' <= c && c <= '\u{d}') || c == ' ' || c == '\u{85}' || c == '\u{a0}' || c == '\u{1680}'
        || ('\u{2000}' <= c && c <= '\u{200a}') || c == '\u{2028}' || c == '\u{2029}' || c
        == '\u{202f}' || c == '\u{205f}' || c == '\u{3000}'
}

/// `text` with the white space at both ends removed.
pub fn trim_text(text: &str) -> (trimmed: &str)
    ensures
        trimmed@ == trim(text@),
        exists|a: int, b: int|
            #![trigger text@.subrange(a, b)]
            0 <= a <= b <= text@.len() && trimmed@ == text@.subrange(a, b) && (forall|k: int|
                0 <= k < a ==> is_white_space(text@[k])) && (forall|k: int|
                b <= k < text@.len() ==> is_white_space(text@[k])) && (a < b ==> !is_white_space(
                text@[a]) && !is_white_space(text@[b - 1])),
{
    let n = text.unicode_len();
    let mut a: usize = 0;
    assert(text@.subrange(0, n as int) =~= text@);
    while a < n && is_whitespace(text.get_char(a))
        invariant
            a <= n,
            n == text@.len(),
            trim_start(text@) == trim_start(text@.subrange(a as int, n as int)),
            forall|k: int| 0 <= k < a ==> is_white_space(text@[k]),
        decreases n - a,
    {
        assert(text@.subrange(a as int, n as int).drop_first() =~= text@.subrange(
            a + 1,
            n as int,
        ));
        a += 1;
    }
    assert(trim_start(text@) == text@.subrange(a as int, n as int));
    let mut b: usize = n;
    while b > a && is_whitespace(text.get_char(b - 1))
        invariant
            a <= b <= n,
            n == text@.len(),
            trim(text@) == trim_end(text@.subrange(a as int, b as int)),
            forall|k: int| 0 <= k < a ==> is_white_space(text@[k]),
            forall|k: int| b <= k < n ==> is_white_space(text@[k]),
            a == n || !is_white_space(text@[a as int]),
        decreases b - a,
    {
        assert(text@.subrange(a as int, b as int).drop_last() =~= text@.subrange(
            a as int,
            b - 1,
        ));
        b -= 1;
    }
    let trimmed = text.substring_char(a, b);
    assert(trimmed@ == text@.subrange(a as int, b as int));
    trimmed
}

/// Whether two texts are equal.
pub fn text_equals(left: &str, right: &str) -> (equal: bool)
    ensures
        equal == (left@ == right@),
{
    let n = left.unicode_len();
    if n != right.unicode_len() {
        return false;
    }
    let mut i: usize = 0;
    while i < n
        invariant
            i <= n,
            n == left@.len(),
            n == right@.len(),
            forall|k: int| 0 <= k < i ==> left@[k] == right@[k],
        decreases n - i,
    {
        if left.get_char(i) != right.get_char(i) {
            return false;
        }
        i += 1;
    }
    assert(left@ =~= right@);
    true
}

/// The position of the first `c` in `text`, if `text` holds one.
pub open spec fn first_index(text: Seq<char>, c: char) -> Option<int>
    decreases text.len(),
{
    if text.len() == 0 {
        None
    } else if text[0] == c {
        Some(0)
    } else {
        match first_index(text.drop_first(), c) {
            Some(k) => Some(k + 1),
            None => None,
        }
    }
}

/// Whether `text` begins with '[' and ends with ']'.
pub open spec fn is_bracketed(text: Seq<char>) -> bool {
    text.len() > 0 && text[0] == '[' && text.last() == ']'
}

/// What lies between the brackets of a bracketed text.
pub open spec fn inside_brackets(text: Seq<char>) -> Seq<char> {
    text.subrange(1, text.len() - 1)
}

proof fn lemma_first_index(text: Seq<char>, c: char, k: int)
    requires
        0 <= k <= text.len(),
        forall|j: int| 0 <= j < k ==> text[j] != c,
    ensures
        k < text.len() && text[k] == c ==> first_index(text, c) == Some(k),
        k == text.len() ==> first_index(text, c) is None,
    decreases k,
{
    if k > 0 {
        lemma_first_index(text.drop_first(), c, k - 1);
    }
}

/// The position of the first `c` in `text`, if `text` holds one.
pub fn find_char(text: &str, c: char) -> (found: Option<usize>)
    ensures
        match found {
            Some(k) => first_index(text@, c) == Some(k as int) && k < text@.len() && text@[k as int]
                == c && forall|j: int| 0 <= j < k ==> text@[j] != c,
            None => first_index(text@, c) is None && forall|j: int|
                0 <= j < text@.len() ==> text@[j] != c,
        },
{
    let n = text.unicode_len();
    let mut i: usize = 0;
    while i < n
        invariant
            i <= n,
            n == text@.len(),
            forall|j: int| 0 <= j < i ==> text@[j] != c,
        decreases n - i,
    {
        if text.get_char(i) == c {
            proof {
                lemma_first_index(text@, c, i as int);
            }
            return Some(i);
        }
        i += 1;
    }
    proof {
        lemma_first_index(text@, c, n as int);
    }
    None
}

/// The two sides of the first `~` in `text`, each trimmed, or `None` where
/// `text` holds no `~`.
pub open spec fn range_sides(text: Seq<char>) -> Option<(Seq<char>, Seq<char>)> {
    match first_index(text, '~') {
        Some(k) => Some((trim(text.take(k)), trim(text.skip(k + 1)))),
        None => None,
    }
}

fn split_range(text: &str) -> (sides: Option<(String, String)>)
    ensures
        match sides {
            Some((from, to)) => range_sides(text@) == Some((from@, to@)),
            None => range_sides(text@) is None,
        },
{
    match find_char(text, '~') {
        Some(k) => {
            let n = text.unicode_len();
            let before = text.substring_char(0, k);
            let after = text.substring_char(k + 1, n);
            assert(before@ =~= text@.take(k as int));
            assert(after@ =~= text@.skip(k + 1));
            Some((String::from_str(trim_text(before)), String::from_str(trim_text(after))))
        },
        None => None,
    }
}

/// The form of what a user typed for a spectrum, after trimming.
#[derive(Debug)]
pub enum InputShape {
    /// Nothing but white space.
    Empty,
    /// A bracketed range `[from ~ to]`: its two sides, trimmed.
    Range(String, String),
    /// Brackets with no `~` between them.
    NoSeparator,
    /// A single value: the trimmed text.
    Single(String),
}

/// The form of what a user typed: empty, a bracketed range and its two
/// trimmed sides, brackets without a `~`, or a single value. Whether a side or
/// the value is a number in `0.0..=1.0` is left to the caller.
pub fn classify_input(text: &str) -> (shape: InputShape)
    ensures
        ({
            let t = trim(text@);
            if t.len() == 0 {
                shape is Empty
            } else if is_bracketed(t) {
                match range_sides(inside_brackets(t)) {
                    Some((from, to)) => shape matches InputShape::Range(f, g) && f@ == from && g@
                        == to,
                    None => shape is NoSeparator,
                }
            } else {
                shape matches InputShape::Single(s) && s@ == t
            }
        }),
{
    let t = trim_text(text);
    let n = t.unicode_len();
    if n == 0 {
        return InputShape::Empty;
    }
    if t.get_char(0) == '[' && t.get_char(n - 1) == ']' {
        let inner = t.substring_char(1, n - 1);
        match split_range(inner) {
            Some((from, to)) => InputShape::Range(from, to),
            None => InputShape::NoSeparator,
        }
    } else {
        InputShape::Single(String::from_str(t))
    }
}

/// The mark printed for an unknown spectrum (U+1D4E4, a script U).
pub open spec fn unknown_mark() -> Seq<char> {
    "\u{1D4E4}"@
}

/// The mark printed for a quadrant spectrum (U+1D4DC, a script M).
pub open spec fn quadrant_mark() -> Seq<char> {
    "\u{1D4DC}"@
}

/// The mark printed for a spectrum whose number is zero (U+2205, the empty set).
pub open spec fn zero_mark() -> Seq<char> {
    "\u{2205}"@
}

/// How a submitted spectrum value is printed on the card.
#[derive(Debug)]
pub enum SubmittedCell {
    /// A mark that stands for the value.
    Mark(String),
    /// A bracketed range: its two sides, trimmed; each must be a number.
    Range(String, String),
    /// Brackets with no `~` between them, which a submitted value never is.
    NoSeparator,
    /// Any other value, printed as it is unless it is the number zero.
    Other(String),
}

/// How the submitted value `data` is printed: "Unknown" as the unknown mark,
/// "Quadrants" or "M" as the quadrant mark, a bracketed range by its two
/// sides, and anything else as it is (or, where it is the number zero, as
/// the zero mark, which `number_cell` decides).
pub fn classify_submitted(data: &str) -> (cell: SubmittedCell)
    ensures
        data@ == "Unknown"@ ==> (cell matches SubmittedCell::Mark(m) && m@ == "\u{1D4E4}"@),
        data@ != "Unknown"@ && (data@ == "Quadrants"@ || data@ == "M"@) ==> (
        cell matches SubmittedCell::Mark(m) && m@ == "\u{1D4DC}"@),
        if data@ == "Unknown"@ {
            cell matches SubmittedCell::Mark(m) && m@ == unknown_mark()
        } else if data@ == "Quadrants"@ || data@ == "M"@ {
            cell matches SubmittedCell::Mark(m) && m@ == quadrant_mark()
        } else if is_bracketed(data@) {
            match range_sides(inside_brackets(data@)) {
                Some((from, to)) => cell matches SubmittedCell::Range(f, g) && f@ == from && g@
                    == to,
                None => cell is NoSeparator,
            }
        } else {
            cell matches SubmittedCell::Other(s) && s@ == data@
        },
{
    if text_equals(data, "Unknown") {
        return SubmittedCell::Mark(String::from_str("\u{1D4E4}"));
    }
    if text_equals(data, "Quadrants") || text_equals(data, "M") {
        return SubmittedCell::Mark(String::from_str("\u{1D4DC}"));
    }
    let n = data.unicode_len();
    if n > 0 && data.get_char(0) == '[' && data.get_char(n - 1) == ']' {
        let inner = data.substring_char(1, n - 1);
        match split_range(inner) {
            Some((from, to)) => SubmittedCell::Range(from, to),
            None => SubmittedCell::NoSeparator,
        }
    } else {
        SubmittedCell::Other(String::from_str(data))
    }
}

/// The cell for a range, from the way its two ends are written out: `from ~ to`.
pub fn range_cell(from: &str, to: &str) -> (cell: String)
    ensures
        cell@ == from@ + " ~ "@ + to@,
{
    let mut cell = String::from_str(from);
    cell.append(" ~ ");
    cell.append(to);
    cell
}

/// The cell for any other value: the zero mark where the value is the number
/// zero (`is_zero`), else the value as it is.
pub fn number_cell(text: &str, is_zero: bool) -> (cell: String)
    ensures
        cell@ == (if is_zero {
            zero_mark()
        } else {
            text@
        }),
        is_zero ==> cell@ == "\u{2205}"@,
        !is_zero ==> cell@ == text@,
{
    if is_zero {
        String::from_str("\u{2205}")
    } else {
        String::from_str(text)
    }
}

proof fn lemma_trim_start(text: Seq<char>) -> (a: int)
    ensures
        0 <= a <= text.len(),
        trim_start(text) == text.subrange(a, text.len() as int),
        forall|k: int| 0 <= k < a ==> is_white_space(text[k]),
        a < text.len() ==> !is_white_space(text[a]),
    decreases text.len(),
{
    if text.len() > 0 && is_white_space(text[0]) {
        let rest = lemma_trim_start(text.drop_first());
        assert(text.drop_first().subrange(rest, text.drop_first().len() as int) =~= text.subrange(
            rest + 1,
            text.len() as int,
        ));
        assert forall|k: int| 0 <= k < rest + 1 implies is_white_space(text[k]) by {
            if k > 0 {
                assert(text[k] == text.drop_first()[k - 1]);
            }
        }
        rest + 1
    } else {
        assert(text.subrange(0, text.len() as int) =~= text);
        0
    }
}

proof fn lemma_trim_end(text: Seq<char>) -> (b: int)
    ensures
        0 <= b <= text.len(),
        trim_end(text) == text.subrange(0, b),
        forall|k: int| b <= k < text.len() ==> is_white_space(text[k]),
        b > 0 ==> !is_white_space(text[b - 1]),
    decreases text.len(),
{
    if text.len() > 0 && is_white_space(text.last()) {
        let rest = lemma_trim_end(text.drop_last());
        assert(text.drop_last().subrange(0, rest) =~= text.subrange(0, rest));
        assert forall|k: int| rest <= k < text.len() implies is_white_space(text[k]) by {
            if k < text.len() - 1 {
                assert(text[k] == text.drop_last()[k]);
            }
        }
        if rest > 0 {
            assert(text[rest - 1] == text.drop_last()[rest - 1]);
        }
        rest
    } else {
        assert(text.subrange(0, text.len() as int) =~= text);
        text.len() as int
    }
}

/// Trimming removes white space from both ends and nothing else: the result
/// is a stretch `text[a..b]` with only white space before `a` and from `b` on,
/// and, where it is not empty, no white space at its first or last character.
pub proof fn law_trim(text: Seq<char>)
    ensures
        exists|a: int, b: int|
            #![trigger text.subrange(a, b)]
            0 <= a <= b <= text.len() && trim(text) == text.subrange(a, b) && (forall|k: int|
                0 <= k < a ==> is_white_space(text[k])) && (forall|k: int|
                b <= k < text.len() ==> is_white_space(text[k])) && (a < b ==> !is_white_space(
                text[a]) && !is_white_space(text[b - 1])),
{
    let a = lemma_trim_start(text);
    let rest = text.subrange(a, text.len() as int);
    let c = lemma_trim_end(rest);
    let b = a + c;
    assert(rest.subrange(0, c) =~= text.subrange(a, b));
    assert forall|k: int| b <= k < text.len() implies is_white_space(text[k]) by {
        assert(text[k] == rest[k - a]);
    }
    if a < b {
        assert(text[b - 1] == rest[c - 1]);
    }
    assert(trim(text) == text.subrange(a, b));
}

proof fn lemma_first_index_found(text: Seq<char>, c: char)
    ensures
        first_index(text, c) matches Some(k) ==> 0 <= k < text.len() && text[k] == c && forall|
            j: int,
        | 0 <= j < k ==> text[j] != c,
    decreases text.len(),
{
    if text.len() > 0 && text[0] != c {
        lemma_first_index_found(text.drop_first(), c);
        if let Some(k) = first_index(text, c) {
            assert forall|j: int| 0 <= j < k implies text[j] != c by {
                if j > 0 {
                    assert(text[j] == text.drop_first()[j - 1]);
                }
            }
        }
    }
}

proof fn lemma_first_index_none(text: Seq<char>, c: char)
    ensures
        first_index(text, c) is None ==> forall|j: int| 0 <= j < text.len() ==> text[j] != c,
    decreases text.len(),
{
    if text.len() > 0 && text[0] != c {
        lemma_first_index_none(text.drop_first(), c);
        if first_index(text, c) is None {
            assert forall|j: int| 0 <= j < text.len() implies text[j] != c by {
                if j > 0 {
                    assert(text[j] == text.drop_first()[j - 1]);
                }
            }
        }
    }
}

/// The position found for `c` is that of its first occurrence: `c` stands
/// there and nowhere before it; and nothing is found exactly where `text`
/// holds no `c`.
pub proof fn law_first_index(text: Seq<char>, c: char)
    ensures
        first_index(text, c) matches Some(k) ==> 0 <= k < text.len() && text[k] == c && forall|
            j: int,
        | 0 <= j < k ==> text[j] != c,
        first_index(text, c) is None <==> forall|j: int| 0 <= j < text.len() ==> text[j] != c,
{
    lemma_first_index_found(text, c);
    lemma_first_index_none(text, c);
    if forall|j: int| 0 <= j < text.len() ==> text[j] != c {
        lemma_first_index(text, c, text.len() as int);
    }
}

/// A range splits at its first `~`: the two sides are the trimmed text
/// before it and the trimmed text after it; a text without `~` has no sides.
pub proof fn law_range_sides(text: Seq<char>)
    ensures
        forall|k: int|
            0 <= k < text.len() && #[trigger] text[k] == '~' && (forall|j: int|
                0 <= j < k ==> text[j] != '~') ==> range_sides(text) == Some(
                (trim(text.take(k)), trim(text.skip(k + 1))),
            ),
        (forall|j: int| 0 <= j < text.len() ==> text[j] != '~') ==> range_sides(text) is None,
{
    assert forall|k: int|
        0 <= k < text.len() && #[trigger] text[k] == '~' && (forall|j: int|
            0 <= j < k ==> text[j] != '~') implies range_sides(text) == Some(
        (trim(text.take(k)), trim(text.skip(k + 1))),
    ) by {
        lemma_first_index(text, '~', k);
    }
    if forall|j: int| 0 <= j < text.len() ==> text[j] != '~' {
        lemma_first_index(text, '~', text.len() as int);
    }
}

/// A text counts as bracketed exactly when it has at least two characters,
/// the first '[' and the last ']'; what lies inside is everything between them.
pub proof fn law_brackets(text: Seq<char>)
    ensures
        is_bracketed(text) <==> (text.len() >= 2 && text[0] == '[' && text[text.len() - 1]
            == ']'),
        is_bracketed(text) ==> inside_brackets(text).len() == text.len() - 2 && forall|i: int|
            0 <= i < text.len() - 2 ==> #[trigger] inside_brackets(text)[i] == text[i + 1],
{
}

/// The three marks printed on a card: a script U for unknown (U+1D4E4), a
/// script M for a quadrant (U+1D4DC), and the empty set for zero (U+2205).
pub proof fn law_marks()
    ensures
        unknown_mark() == "\u{1D4E4}"@,
        quadrant_mark() == "\u{1D4DC}"@,
        zero_mark() == "\u{2205}"@,
{
}

} // verus!
