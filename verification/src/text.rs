//! Verified text helpers: character conversion, decimal formatting,
//! number parsing and truncation.

use vstd::prelude::*;
use vstd::string::StrSliceExecFns;
use vstd::string::StringExecFns;

verus! {

/// Appends one character to a string.  Relies on String::push, which the
/// standard library documents as appending the given char to the end.
#[verifier::external_body]
pub(crate) fn push_char(s: &mut String, c: char)
    ensures
        final(s)@ == old(s)@.push(c),
{
    s.push(c);
}

/// Removes a string's last character.  Relies on String::pop, which the
/// standard library documents as removing and returning the last char.
#[verifier::external_body]
pub(crate) fn pop_char(s: &mut String) -> (r: Option<char>)
    ensures
        old(s)@.len() == 0 ==> final(s)@ == old(s)@ && r is None,
        old(s)@.len() > 0 ==> final(s)@ == old(s)@.drop_last() && r == Some(old(s)@.last()),
{
    s.pop()
}

/// Compares two string slices.  Relies on str's equality, which the
/// standard library documents as comparing the character contents.
#[verifier::external_body]
pub(crate) fn str_eq(a: &str, b: &str) -> (r: bool)
    ensures
        r == (a@ == b@),
{
    a == b
}

/// Collects the characters of a string slice into a vector.
pub fn chars_of(s: &str) -> (r: Vec<char>)
    ensures
        r@ == s@,
{
    let mut r: Vec<char> = Vec::new();
    let n = s.unicode_len();
    let mut i: usize = 0;
    while i < n
        invariant
            n == s@.len(),
            i <= n,
            r@ == s@.take(i as int),
        decreases n - i,
    {
        r.push(s.get_char(i));
        i = i + 1;
        proof {
            assert(r@ =~= s@.take(i as int));
        }
    }
    proof {
        assert(r@ =~= s@);
    }
    r
}

/// Builds a string from a vector of characters.
pub fn string_of(v: &Vec<char>) -> (r: String)
    ensures
        r@ == v@,
{
    let mut r = String::new();
    let mut i: usize = 0;
    while i < v.len()
        invariant
            i <= v@.len(),
            r@ == v@.take(i as int),
        decreases v@.len() - i,
    {
        push_char(&mut r, v[i]);
        i = i + 1;
        proof {
            assert(r@ =~= v@.take(i as int));
        }
    }
    proof {
        assert(r@ =~= v@);
    }
    r
}

/// The character for a single decimal digit value.
pub open spec fn digit_char(d: int) -> char {
    ((d + 48) as u8) as char
}

/// The decimal representation of a natural number, most significant digit
/// first, without sign or padding.
pub open spec fn spec_decimal(n: int) -> Seq<char>
    decreases n,
{
    if n < 10 {
        seq![digit_char(n)]
    } else {
        spec_decimal(n / 10).push(digit_char(n % 10))
    }
}

fn digit_char_exec(d: u64) -> (c: char)
    requires
        d < 10,
    ensures
        c == digit_char(d as int),
{
    (d as u8 + 48) as char
}

fn push_decimal(n: u64, v: &mut Vec<char>)
    ensures
        final(v)@ == old(v)@ + spec_decimal(n as int),
    decreases n,
{
    if n < 10 {
        v.push(digit_char_exec(n));
    } else {
        push_decimal(n / 10, v);
        v.push(digit_char_exec(n % 10));
    }
    proof {
        assert(v@ =~= old(v)@ + spec_decimal(n as int));
    }
}

/// Renders a number in decimal.
pub fn u64_to_string(n: u64) -> (r: String)
    ensures
        r@ == spec_decimal(n as int),
{
    let mut v: Vec<char> = Vec::new();
    push_decimal(n, &mut v);
    string_of(&v)
}

/// Whether a character is a decimal digit.
pub open spec fn is_digit(c: char) -> bool {
    48 <= c as u32 <= 57
}

/// The numeric value of a digit character.
pub open spec fn digit_val(c: char) -> int {
    c as u32 - 48
}

/// The value of a digit string read in base ten.
pub open spec fn digits_value(s: Seq<char>) -> int
    decreases s.len(),
{
    if s.len() == 0 {
        0
    } else {
        digits_value(s.drop_last()) * 10 + digit_val(s.last())
    }
}

/// Why a string failed to parse as a number; mirrors the distinctions the
/// standard integer parser draws.
#[derive(Clone, Copy, Debug, PartialEq, Eq, Structural)]
pub enum ParseIdError {
    Empty,
    InvalidDigit,
    Overflow,
}

impl ParseIdError {
    /// The message shown for this failure.
    pub fn message(&self) -> (r: String)
        ensures
            r@ == self.spec_message(),
    {
        match self {
            ParseIdError::Empty => "cannot parse integer from empty string".to_owned(),
            ParseIdError::InvalidDigit => "invalid digit found in string".to_owned(),
            ParseIdError::Overflow => "number too large to fit in target type".to_owned(),
        }
    }

    pub open spec fn spec_message(&self) -> Seq<char> {
        match self {
            ParseIdError::Empty => "cannot parse integer from empty string"@,
            ParseIdError::InvalidDigit => "invalid digit found in string"@,
            ParseIdError::Overflow => "number too large to fit in target type"@,
        }
    }
}

/// The digits of a candidate number: everything after one optional leading
/// plus sign.
pub open spec fn spec_number_body(s: Seq<char>) -> Seq<char> {
    if s.len() > 0 && s[0] == '+' {
        s.skip(1)
    } else {
        s
    }
}

/// What parsing a decimal string yields: the value of its digits, or the
/// error the standard parser would report.
pub open spec fn spec_parse_u64(s: Seq<char>) -> Result<u64, ParseIdError> {
    let body = spec_number_body(s);
    if body.len() == 0 {
        Err(if s.len() == 0 {
            ParseIdError::Empty
        } else {
            ParseIdError::InvalidDigit
        })
    } else if exists|i: int| 0 <= i < body.len() && !is_digit(body[i]) {
        Err(ParseIdError::InvalidDigit)
    } else if digits_value(body) > u64::MAX {
        Err(ParseIdError::Overflow)
    } else {
        Ok(digits_value(body) as u64)
    }
}

proof fn lemma_digits_value_grows(s: Seq<char>, i: int)
    requires
        0 <= i <= s.len(),
        forall|j: int| 0 <= j < s.len() ==> is_digit(#[trigger] s[j]),
    ensures
        digits_value(s) >= digits_value(s.take(i)),
    decreases s.len() - i,
{
    if i < s.len() {
        lemma_digits_value_grows(s, i + 1);
        assert(s.take(i + 1).drop_last() =~= s.take(i));
        assert(digits_value(s.take(i + 1)) == digits_value(s.take(i)) * 10 + digit_val(s[i]));
        assert(digits_value(s.take(i)) >= 0) by {
            lemma_digits_value_nonneg(s.take(i));
        }
    } else {
        assert(s.take(i) =~= s);
    }
}

proof fn lemma_digits_value_nonneg(s: Seq<char>)
    requires
        forall|j: int| 0 <= j < s.len() ==> is_digit(#[trigger] s[j]),
    ensures
        digits_value(s) >= 0,
    decreases s.len(),
{
    if s.len() > 0 {
        lemma_digits_value_nonneg(s.drop_last());
        assert(forall|j: int|
            0 <= j < s.drop_last().len() ==> is_digit(#[trigger] s.drop_last()[j]));
    }
}

/// Parses a decimal number with one optional leading plus sign, reporting
/// the same failure classes as the standard parser.
pub fn parse_u64(s: &str) -> (r: Result<u64, ParseIdError>)
    ensures
        r == spec_parse_u64(s@),
{
    let cs = chars_of(s);
    let n = cs.len();
    let start: usize = if n > 0 && cs[0] == '+' {
        1
    } else {
        0
    };
    proof {
        assert(cs@.skip(start as int) =~= spec_number_body(s@));
    }
    if start >= n {
        if n == 0 {
            return Err(ParseIdError::Empty);
        } else {
            return Err(ParseIdError::InvalidDigit);
        }
    }
    let ghost body = spec_number_body(s@);
    let mut i: usize = start;
    while i < n
        invariant
            start <= i <= n,
            start < n,
            n == cs@.len(),
            body == cs@.skip(start as int),
            body == spec_number_body(s@),
            s@.len() > 0,
            start + body.len() == n,
            forall|j: int| 0 <= j < i - start ==> is_digit(#[trigger] body[j]),
        decreases n - i,
    {
        let c = cs[i];
        proof {
            assert(cs@.skip(start as int)[(i - start) as int] == cs@[i as int]);
        }
        let code = c as u32;
        if code < 48 || code > 57 {
            proof {
                assert(!is_digit(body[(i - start) as int]));
                assert(exists|j: int| 0 <= j < body.len() && !is_digit(#[trigger] body[j]));
            }
            return Err(ParseIdError::InvalidDigit);
        }
        i = i + 1;
    }
    let mut acc: u64 = 0;
    let mut i: usize = start;
    while i < n
        invariant
            start <= i <= n,
            n == cs@.len(),
            body == cs@.skip(start as int),
            body == spec_number_body(s@),
            start + body.len() == n,
            forall|j: int| 0 <= j < body.len() ==> is_digit(#[trigger] body[j]),
            acc == digits_value(body.take(i - start)),
        decreases n - i,
    {
        let c = cs[i];
        proof {
            assert(cs@.skip(start as int)[(i - start) as int] == cs@[i as int]);
        }
        assert(c == body[i - start] && is_digit(c));
        let code = c as u32;
        let d: u64 = (code - 48) as u64;
        assert(d <= 9);
        if acc > u64::MAX / 10 || (acc == u64::MAX / 10 && d > u64::MAX % 10) {
            proof {
                assert(body.take(i + 1 - start).drop_last() =~= body.take(i - start));
                assert(digits_value(body.take(i + 1 - start)) == acc * 10 + d);
                assert(acc * 10 + d > u64::MAX);
                lemma_digits_value_grows(body, i + 1 - start);
                assert(digits_value(body) > u64::MAX);
            }
            return Err(ParseIdError::Overflow);
        }
        proof {
            assert(body.take(i + 1 - start).drop_last() =~= body.take(i - start));
        }
        acc = acc * 10 + d;
        i = i + 1;
    }
    proof {
        assert(body.take(n - start) =~= body);
    }
    Ok(acc)
}

/// The label for a point count: singular for one, plural otherwise.
pub open spec fn spec_format_points(score: int) -> Seq<char> {
    if score == 1 {
        "1 point"@
    } else {
        spec_decimal(score) + " points"@
    }
}

/// Formats a score with its unit.
pub fn format_points(score: u64) -> (r: String)
    ensures
        r@ == spec_format_points(score as int),
{
    if score == 1 {
        "1 point".to_owned()
    } else {
        u64_to_string(score).concat(" points")
    }
}

/// The ellipsis appended to shortened text.
pub open spec fn ellipsis() -> Seq<char> {
    seq!['.', '.', '.']
}

/// Text cut to a character budget: unchanged when it fits, otherwise the
/// first `max` characters with an ellipsis.
pub open spec fn spec_truncate(s: Seq<char>, max: int) -> Seq<char> {
    if s.len() <= max {
        s
    } else {
        s.take(max) + ellipsis()
    }
}

/// Shortens text to at most `max_chars` characters plus an ellipsis.
pub fn truncate(text: &str, max_chars: usize) -> (r: String)
    ensures
        r@ == spec_truncate(text@, max_chars as int),
{
    let cs = chars_of(text);
    if cs.len() <= max_chars {
        text.to_owned()
    } else {
        let mut head: Vec<char> = Vec::new();
        let mut i: usize = 0;
        while i < max_chars
            invariant
                max_chars < cs@.len(),
                cs@ == text@,
                i <= max_chars,
                head@ == text@.take(i as int),
            decreases max_chars - i,
        {
            head.push(cs[i]);
            i = i + 1;
            proof {
                assert(head@ =~= text@.take(i as int));
            }
        }
        let r = string_of(&head).concat("...");
        proof {
            reveal_strlit("...");
            assert(r@ =~= spec_truncate(text@, max_chars as int));
        }
        r
    }
}

/// Whether a character counts as blank space when trimming and wrapping:
/// the Unicode White_Space set, as the standard library's whitespace
/// predicate draws it.
pub open spec fn is_ws(c: char) -> bool {
    ||| (9 <= c as u32 <= 13)
    ||| c == ' '
    ||| c as u32 == 0x85
    ||| c as u32 == 0xA0
    ||| c as u32 == 0x1680
    ||| (0x2000 <= c as u32 <= 0x200A)
    ||| c as u32 == 0x2028
    ||| c as u32 == 0x2029
    ||| c as u32 == 0x202F
    ||| c as u32 == 0x205F
    ||| c as u32 == 0x3000
}

/// Recognises the blank-space characters of `is_ws`.
pub fn is_ws_char(c: char) -> (r: bool)
    ensures
        r == is_ws(c),
{
    let code = c as u32;
    (9 <= code && code <= 13) || c == ' ' || code == 0x85 || code == 0xA0 || code == 0x1680 || (
    0x2000 <= code && code <= 0x200A) || code == 0x2028 || code == 0x2029 || code == 0x202F
        || code == 0x205F || code == 0x3000
}

/// Index of the first line break, or a negative value if there is none.
pub open spec fn first_nl(s: Seq<char>) -> int
    decreases s.len(),
{
    if s.len() == 0 {
        -1
    } else if s[0] == '\n' {
        0
    } else if first_nl(s.skip(1)) < 0 {
        -1
    } else {
        first_nl(s.skip(1)) + 1
    }
}

/// Index of the first blank-space character, or a negative value if none.
pub open spec fn first_ws(s: Seq<char>) -> int
    decreases s.len(),
{
    if s.len() == 0 {
        -1
    } else if is_ws(s[0]) {
        0
    } else if first_ws(s.skip(1)) < 0 {
        -1
    } else {
        first_ws(s.skip(1)) + 1
    }
}

proof fn lemma_first_nl_scan(s: Seq<char>, k: int)
    requires
        0 <= k <= s.len(),
        forall|j: int| 0 <= j < k ==> #[trigger] s[j] != '\n',
        k < s.len() ==> s[k] == '\n',
    ensures
        first_nl(s) == if k == s.len() {
            -1int
        } else {
            k
        },
    decreases s.len(),
{
    if s.len() > 0 && k > 0 {
        assert(forall|j: int| 0 <= j < k - 1 ==> #[trigger] s.skip(1)[j] == s[j + 1]);
        lemma_first_nl_scan(s.skip(1), k - 1);
    }
}

proof fn lemma_first_ws_scan(s: Seq<char>, k: int)
    requires
        0 <= k <= s.len(),
        forall|j: int| 0 <= j < k ==> !is_ws(#[trigger] s[j]),
        k < s.len() ==> is_ws(s[k]),
    ensures
        first_ws(s) == if k == s.len() {
            -1int
        } else {
            k
        },
    decreases s.len(),
{
    if s.len() > 0 && k > 0 {
        assert(forall|j: int| 0 <= j < k - 1 ==> #[trigger] s.skip(1)[j] == s[j + 1]);
        lemma_first_ws_scan(s.skip(1), k - 1);
    }
}

/// The pieces of a text cut at every line break, empty pieces kept.
pub open spec fn spec_split_lines(s: Seq<char>) -> Seq<Seq<char>>
    decreases s.len(),
{
    let k = first_nl(s);
    if k < 0 || k >= s.len() {
        seq![s]
    } else {
        seq![s.take(k)] + spec_split_lines(s.skip(k + 1))
    }
}

/// Cuts text at every line break, keeping empty pieces.
pub fn split_lines(cs: &Vec<char>) -> (r: Vec<Vec<char>>)
    ensures
        r.deep_view() == spec_split_lines(cs@),
{
    let mut r: Vec<Vec<char>> = Vec::new();
    let n = cs.len();
    let mut pos: usize = 0;
    proof {
        assert(cs@.skip(0) =~= cs@);
        assert(r.deep_view() =~~= Seq::<Seq<char>>::empty());
        assert(r.deep_view() + spec_split_lines(cs@.skip(0)) =~~= spec_split_lines(cs@));
    }
    loop
        invariant
            pos <= n,
            n == cs@.len(),
            spec_split_lines(cs@) == r.deep_view() + spec_split_lines(cs@.skip(pos as int)),
        decreases n - pos,
    {
        let ghost rem = cs@.skip(pos as int);
        let mut j: usize = pos;
        while j < n && cs[j] != '\n'
            invariant
                pos <= j <= n,
                n == cs@.len(),
                rem == cs@.skip(pos as int),
                forall|t: int| 0 <= t < j - pos ==> #[trigger] rem[t] != '\n',
            decreases n - j,
        {
            proof {
                assert(cs@.skip(pos as int)[(j - pos) as int] == cs@[j as int]);
            }
            j = j + 1;
        }
        let mut piece: Vec<char> = Vec::new();
        let mut t: usize = pos;
        while t < j
            invariant
                pos <= t <= j <= n,
                n == cs@.len(),
                piece@ == cs@.subrange(pos as int, t as int),
            decreases j - t,
        {
            piece.push(cs[t]);
            t = t + 1;
            proof {
                assert(piece@ =~= cs@.subrange(pos as int, t as int));
            }
        }
        proof {
            assert(piece@ =~= rem.take((j - pos) as int));
        }
        if j >= n {
            let ghost rdv = r.deep_view();
            proof {
                lemma_first_nl_scan(rem, (j - pos) as int);
                assert(spec_split_lines(rem) =~~= seq![rem]);
                assert(rem =~= piece@);
            }
            r.push(piece);
            proof {
                assert(r.deep_view() =~~= rdv + seq![piece@]);
                assert(rdv + seq![piece@] =~~= rdv + spec_split_lines(rem));
                assert(r.deep_view() =~~= spec_split_lines(cs@));
            }
            return r;
        }
        proof {
            assert(cs@.skip(pos as int)[(j - pos) as int] == cs@[j as int]);
            lemma_first_nl_scan(rem, (j - pos) as int);
            assert(spec_split_lines(rem) == seq![rem.take((j - pos) as int)] + spec_split_lines(
                rem.skip((j - pos) as int + 1),
            ));
            assert(rem.skip((j - pos) as int + 1) =~= cs@.skip(j + 1));
        }
        let ghost rdv = r.deep_view();
        r.push(piece);
        pos = j + 1;
        proof {
            assert(r.deep_view() =~~= rdv + seq![piece@]);
            assert(rdv + (seq![piece@] + spec_split_lines(cs@.skip(pos as int))) =~~= (rdv + seq![
                piece@,
            ]) + spec_split_lines(cs@.skip(pos as int)));
            assert(spec_split_lines(cs@) == r.deep_view() + spec_split_lines(
                cs@.skip(pos as int),
            ));
        }
    }
}

/// The blank-separated words of a text, in order, without empties.
pub open spec fn spec_words(s: Seq<char>) -> Seq<Seq<char>>
    decreases s.len(),
{
    if s.len() == 0 {
        Seq::empty()
    } else if is_ws(s[0]) {
        spec_words(s.skip(1))
    } else {
        let k = first_ws(s);
        if k < 1 || k > s.len() {
            seq![s]
        } else {
            seq![s.take(k)] + spec_words(s.skip(k))
        }
    }
}

/// Splits text into its blank-separated words.
pub fn words_of(cs: &Vec<char>) -> (r: Vec<Vec<char>>)
    ensures
        r.deep_view() == spec_words(cs@),
{
    let mut r: Vec<Vec<char>> = Vec::new();
    let n = cs.len();
    let mut pos: usize = 0;
    proof {
        assert(cs@.skip(0) =~= cs@);
        assert(r.deep_view() =~~= Seq::<Seq<char>>::empty());
        assert(r.deep_view() + spec_words(cs@.skip(0)) =~~= spec_words(cs@));
    }
    while pos < n
        invariant
            pos <= n,
            n == cs@.len(),
            spec_words(cs@) == r.deep_view() + spec_words(cs@.skip(pos as int)),
        decreases n - pos,
    {
        if is_ws_char(cs[pos]) {
            proof {
                assert(cs@.skip(pos as int)[0] == cs@[pos as int]);
                assert(cs@.skip(pos as int).skip(1) =~= cs@.skip(pos + 1));
            }
            pos = pos + 1;
        } else {
            let ghost rem = cs@.skip(pos as int);
            let mut j: usize = pos;
            while j < n && !is_ws_char(cs[j])
                invariant
                    pos <= j <= n,
                    n == cs@.len(),
                    rem == cs@.skip(pos as int),
                    forall|t: int| 0 <= t < j - pos ==> !is_ws(#[trigger] rem[t]),
                decreases n - j,
            {
                proof {
                    assert(cs@.skip(pos as int)[(j - pos) as int] == cs@[j as int]);
                }
                j = j + 1;
            }
            let mut piece: Vec<char> = Vec::new();
            let mut t: usize = pos;
            while t < j
                invariant
                    pos <= t <= j <= n,
                    n == cs@.len(),
                    piece@ == cs@.subrange(pos as int, t as int),
                decreases j - t,
            {
                piece.push(cs[t]);
                t = t + 1;
                proof {
                    assert(piece@ =~= cs@.subrange(pos as int, t as int));
                }
            }
            proof {
                assert(piece@ =~= rem.take((j - pos) as int));
                assert(rem[0] == cs@[pos as int]);
                if j < n {
                    assert(cs@.skip(pos as int)[(j - pos) as int] == cs@[j as int]);
                }
                lemma_first_ws_scan(rem, (j - pos) as int);
                if j >= n {
                    assert(spec_words(rem) =~~= seq![rem]);
                    assert(rem =~= piece@);
                } else {
                    assert(spec_words(rem) == seq![rem.take((j - pos) as int)] + spec_words(
                        rem.skip((j - pos) as int),
                    ));
                    assert(rem.skip((j - pos) as int) =~= cs@.skip(j as int));
                }
            }
            let ghost rdv = r.deep_view();
            r.push(piece);
            pos = j;
            proof {
                assert(r.deep_view() =~~= rdv + seq![piece@]);
                assert(rdv + (seq![piece@] + spec_words(cs@.skip(pos as int))) =~~= (rdv + seq![
                    piece@,
                ]) + spec_words(cs@.skip(pos as int)));
                if pos >= n {
                    assert(spec_words(rem) =~~= seq![piece@]);
                }
                assert(spec_words(cs@) == r.deep_view() + spec_words(cs@.skip(pos as int)));
            }
        }
    }
    proof {
        assert(spec_words(cs@.skip(n as int)) =~~= Seq::<Seq<char>>::empty());
        assert(r.deep_view() + spec_words(cs@.skip(n as int)) =~~= r.deep_view());
        assert(r.deep_view() =~~= spec_words(cs@));
    }
    r
}

/// Greedy filling of words into lines of at most `width` characters,
/// starting from a partly filled current line.
pub open spec fn spec_fill(ws: Seq<Seq<char>>, width: int, current: Seq<char>) -> Seq<Seq<char>>
    decreases ws.len(),
{
    if ws.len() == 0 {
        if current.len() == 0 {
            Seq::empty()
        } else {
            seq![current]
        }
    } else {
        let w = ws[0];
        if current.len() == 0 {
            spec_fill(ws.skip(1), width, w)
        } else if current.len() + 1 + w.len() <= width {
            spec_fill(ws.skip(1), width, current.push(' ') + w)
        } else {
            seq![current] + spec_fill(ws.skip(1), width, w)
        }
    }
}

/// One source line as the wrapper treats it: kept whole when empty, all
/// blank, or indented; otherwise refilled greedily to the width.
pub open spec fn spec_wrap_line(line: Seq<char>, width: int) -> Seq<Seq<char>> {
    if line.len() == 0 {
        seq![line]
    } else if forall|j: int| 0 <= j < line.len() ==> is_ws(#[trigger] line[j]) {
        seq![line]
    } else if line[0] == ' ' || line[0] == '\t' {
        seq![line]
    } else {
        spec_fill(spec_words(line), width, Seq::empty())
    }
}

/// The wrapped form of every source line, in order.
pub open spec fn spec_wrap_lines(ls: Seq<Seq<char>>, width: int) -> Seq<Seq<char>>
    decreases ls.len(),
{
    if ls.len() == 0 {
        Seq::empty()
    } else {
        spec_wrap_line(ls[0], width) + spec_wrap_lines(ls.skip(1), width)
    }
}

/// Text wrapped to a width: empty input or a zero width yield nothing;
/// otherwise every line is treated by `spec_wrap_line`.
pub open spec fn spec_wrap_text(s: Seq<char>, width: int) -> Seq<Seq<char>> {
    if s.len() == 0 || width == 0 {
        Seq::empty()
    } else {
        spec_wrap_lines(spec_split_lines(s), width)
    }
}

fn fill_words(ws: &Vec<Vec<char>>, width: usize) -> (r: Vec<Vec<char>>)
    ensures
        r.deep_view() == spec_fill(ws.deep_view(), width as int, Seq::empty()),
{
    let mut r: Vec<Vec<char>> = Vec::new();
    let mut current: Vec<char> = Vec::new();
    let n = ws.len();
    let mut i: usize = 0;
    proof {
        assert(ws.deep_view().skip(0) =~~= ws.deep_view());
        assert(r.deep_view() =~~= Seq::<Seq<char>>::empty());
        assert(current@ =~= Seq::<char>::empty());
        assert(r.deep_view() + spec_fill(ws.deep_view().skip(0), width as int, current@) =~~=
            spec_fill(ws.deep_view(), width as int, Seq::empty()));
    }
    while i < n
        invariant
            i <= n,
            n == ws@.len(),
            spec_fill(ws.deep_view(), width as int, Seq::empty()) == r.deep_view() + spec_fill(
                ws.deep_view().skip(i as int),
                width as int,
                current@,
            ),
        decreases n - i,
    {
        let w = &ws[i];
        proof {
            assert(ws.deep_view().skip(i as int)[0] == ws.deep_view()[i as int]);
            assert(ws.deep_view()[i as int] == ws@[i as int]@);
            assert(ws.deep_view().skip(i as int).skip(1) =~= ws.deep_view().skip(i + 1));
        }
        if current.len() == 0 {
            let mut fresh: Vec<char> = Vec::new();
            let mut t: usize = 0;
            while t < w.len()
                invariant
                    t <= w@.len(),
                    fresh@ == w@.take(t as int),
                decreases w@.len() - t,
            {
                fresh.push(w[t]);
                t = t + 1;
                proof {
                    assert(fresh@ =~= w@.take(t as int));
                }
            }
            proof {
                assert(fresh@ =~= w@);
            }
            current = fresh;
        } else if current.len() < width && w.len() <= width - current.len() - 1 {
            assert(current@.len() + 1 + w@.len() <= width);
            push_space_word(&mut current, w);
        } else {
            assert(!(current@.len() + 1 + w@.len() <= width));
            let ghost rdv = r.deep_view();
            let ghost cur = current@;
            r.push(current);
            proof {
                assert(r.deep_view() =~~= rdv + seq![cur]);
                assert(rdv + (seq![cur] + spec_fill(
                    ws.deep_view().skip(i + 1),
                    width as int,
                    ws.deep_view()[i as int],
                )) =~~= (rdv + seq![cur]) + spec_fill(
                    ws.deep_view().skip(i + 1),
                    width as int,
                    ws.deep_view()[i as int],
                ));
            }
            let mut fresh: Vec<char> = Vec::new();
            let mut t: usize = 0;
            while t < w.len()
                invariant
                    t <= w@.len(),
                    fresh@ == w@.take(t as int),
                decreases w@.len() - t,
            {
                fresh.push(w[t]);
                t = t + 1;
                proof {
                    assert(fresh@ =~= w@.take(t as int));
                }
            }
            proof {
                assert(fresh@ =~= w@);
            }
            current = fresh;
        }
        i = i + 1;
    }
    proof {
        assert(ws.deep_view().skip(n as int) =~~= Seq::<Seq<char>>::empty());
        assert(spec_fill(Seq::<Seq<char>>::empty(), width as int, current@) == if current@.len()
            == 0 {
            Seq::<Seq<char>>::empty()
        } else {
            seq![current@]
        });
    }
    let ghost rdv = r.deep_view();
    let ghost cur = current@;
    if current.len() > 0 {
        r.push(current);
        proof {
            assert(r.deep_view() =~~= rdv + seq![cur]);
        }
    } else {
        proof {
            assert(rdv + Seq::<Seq<char>>::empty() =~~= rdv);
        }
    }
    proof {
        assert(r.deep_view() =~~= spec_fill(ws.deep_view(), width as int, Seq::empty()));
    }
    r
}

fn push_space_word(current: &mut Vec<char>, w: &Vec<char>)
    ensures
        final(current)@ == old(current)@.push(' ') + w@,
{
    current.push(' ');
    let mut t: usize = 0;
    while t < w.len()
        invariant
            t <= w@.len(),
            current@ == old(current)@.push(' ') + w@.take(t as int),
        decreases w@.len() - t,
    {
        current.push(w[t]);
        t = t + 1;
        proof {
            assert(current@ =~= old(current)@.push(' ') + w@.take(t as int));
        }
    }
    proof {
        assert(current@ =~= old(current)@.push(' ') + w@);
    }
}

fn wrap_one_line(line: &Vec<char>, width: usize) -> (r: Vec<Vec<char>>)
    ensures
        r.deep_view() == spec_wrap_line(line@, width as int),
{
    let n = line.len();
    if n == 0 {
        let mut r: Vec<Vec<char>> = Vec::new();
        r.push(Vec::new());
        proof {
            assert(r.deep_view() =~~= spec_wrap_line(line@, width as int));
        }
        return r;
    }
    let mut all_ws = true;
    let mut j: usize = 0;
    while j < n
        invariant
            j <= n,
            n == line@.len(),
            all_ws == forall|t: int| 0 <= t < j ==> is_ws(#[trigger] line@[t]),
        decreases n - j,
    {
        if !is_ws_char(line[j]) {
            all_ws = false;
        }
        j = j + 1;
    }
    if all_ws || line[0] == ' ' || line[0] == '\t' {
        let mut copy: Vec<char> = Vec::new();
        let mut t: usize = 0;
        while t < n
            invariant
                t <= n,
                n == line@.len(),
                copy@ == line@.take(t as int),
            decreases n - t,
        {
            copy.push(line[t]);
            t = t + 1;
            proof {
                assert(copy@ =~= line@.take(t as int));
            }
        }
        proof {
            assert(copy@ =~= line@);
        }
        let mut r: Vec<Vec<char>> = Vec::new();
        r.push(copy);
        proof {
            assert(r.deep_view() =~~= spec_wrap_line(line@, width as int));
        }
        return r;
    }
    let ws = words_of(line);
    let r = fill_words(&ws, width);
    proof {
        assert(r.deep_view() =~~= spec_wrap_line(line@, width as int));
    }
    r
}

/// Wraps text to a width: blank and indented lines are kept whole, other
/// lines are refilled greedily from their words.
pub fn wrap_text(text: &str, width: usize) -> (r: Vec<String>)
    ensures
        r.deep_view() == spec_wrap_text(text@, width as int),
{
    let cs = chars_of(text);
    let mut r: Vec<String> = Vec::new();
    if cs.len() == 0 || width == 0 {
        proof {
            assert(r.deep_view() =~~= spec_wrap_text(text@, width as int));
        }
        return r;
    }
    let lines = split_lines(&cs);
    let n = lines.len();
    let mut i: usize = 0;
    while i < n
        invariant
            i <= n,
            n == lines@.len(),
            lines.deep_view() == spec_split_lines(cs@),
            cs@ == text@,
            cs@.len() > 0,
            width > 0,
            r.deep_view() == spec_wrap_lines(lines.deep_view().take(i as int), width as int),
        decreases n - i,
    {
        let wrapped = wrap_one_line(&lines[i], width);
        let ghost prefix = lines.deep_view().take(i as int);
        let mut t: usize = 0;
        let m = wrapped.len();
        while t < m
            invariant
                t <= m,
                m == wrapped@.len(),
                r.deep_view() == spec_wrap_lines(prefix, width as int) + wrapped.deep_view().take(
                    t as int,
                ),
            decreases m - t,
        {
            let piece = string_of(&wrapped[t]);
            let ghost rdv = r.deep_view();
            r.push(piece);
            t = t + 1;
            proof {
                assert(r.deep_view() =~~= rdv.push(wrapped.deep_view()[t - 1]));
                assert(wrapped.deep_view().take(t as int) =~~= wrapped.deep_view().take(t - 1)
                    .push(wrapped.deep_view()[t - 1]));
                assert(r.deep_view() =~~= spec_wrap_lines(prefix, width as int)
                    + wrapped.deep_view().take(t as int));
            }
        }
        proof {
            assert(wrapped.deep_view().take(m as int) =~= wrapped.deep_view());
            assert(lines.deep_view()[i as int] == lines@[i as int]@);
            lemma_wrap_lines_step(lines.deep_view(), i as int, width as int);
            assert(r.deep_view() =~~= spec_wrap_lines(
                lines.deep_view().take(i + 1),
                width as int,
            ));
        }
        i = i + 1;
    }
    proof {
        assert(lines.deep_view().take(n as int) =~= lines.deep_view());
    }
    r
}

/// Text without its trailing blank-space characters.
pub open spec fn spec_trim_end_ws(s: Seq<char>) -> Seq<char>
    decreases s.len(),
{
    if s.len() > 0 && is_ws(s.last()) {
        spec_trim_end_ws(s.drop_last())
    } else {
        s
    }
}

/// Text without its leading blank-space characters.
pub open spec fn spec_trim_start_ws(s: Seq<char>) -> Seq<char>
    decreases s.len(),
{
    if s.len() > 0 && is_ws(s[0]) {
        spec_trim_start_ws(s.skip(1))
    } else {
        s
    }
}

/// Text without blank space on either end.
pub open spec fn spec_trim_ws(s: Seq<char>) -> Seq<char> {
    spec_trim_start_ws(spec_trim_end_ws(s))
}

/// Removes blank space from both ends of a character vector.
pub fn trim_ws(v: &Vec<char>) -> (r: Vec<char>)
    ensures
        r@ == spec_trim_ws(v@),
{
    let n = v.len();
    let mut end: usize = n;
    proof {
        assert(v@.take(n as int) =~= v@);
    }
    while end > 0 && is_ws_char(v[end - 1])
        invariant
            end <= n,
            n == v@.len(),
            spec_trim_end_ws(v@) == spec_trim_end_ws(v@.take(end as int)),
        decreases end,
    {
        proof {
            assert(v@.take(end as int).last() == v@[end - 1]);
            assert(v@.take(end as int).drop_last() =~= v@.take(end - 1));
        }
        end = end - 1;
    }
    proof {
        if end > 0 {
            assert(v@.take(end as int).last() == v@[end - 1]);
        }
        assert(spec_trim_end_ws(v@.take(end as int)) == v@.take(end as int));
    }
    let mut start: usize = 0;
    let ghost trimmed = v@.take(end as int);
    proof {
        assert(trimmed.skip(0) =~= trimmed);
    }
    while start < end && is_ws_char(v[start])
        invariant
            start <= end <= n,
            n == v@.len(),
            trimmed == v@.take(end as int),
            spec_trim_start_ws(trimmed) == spec_trim_start_ws(trimmed.skip(start as int)),
        decreases end - start,
    {
        proof {
            assert(trimmed.skip(start as int)[0] == v@[start as int]);
            assert(trimmed.skip(start as int).skip(1) =~= trimmed.skip(start + 1));
        }
        start = start + 1;
    }
    proof {
        if start < end {
            assert(trimmed.skip(start as int)[0] == v@[start as int]);
        }
        assert(spec_trim_start_ws(trimmed.skip(start as int)) == trimmed.skip(start as int));
    }
    let mut r: Vec<char> = Vec::new();
    let mut t: usize = start;
    while t < end
        invariant
            start <= t <= end <= n,
            n == v@.len(),
            r@ == v@.subrange(start as int, t as int),
        decreases end - t,
    {
        r.push(v[t]);
        t = t + 1;
        proof {
            assert(r@ =~= v@.subrange(start as int, t as int));
        }
    }
    proof {
        assert(r@ =~= trimmed.skip(start as int));
    }
    r
}

proof fn lemma_wrap_lines_step(ls: Seq<Seq<char>>, i: int, width: int)
    requires
        0 <= i < ls.len(),
    ensures
        spec_wrap_lines(ls.take(i + 1), width) == spec_wrap_lines(ls.take(i), width)
            + spec_wrap_line(ls[i], width),
    decreases i,
{
    if i == 0 {
        assert(ls.take(1)[0] == ls[0]);
        assert(ls.take(1).skip(1) =~= Seq::<Seq<char>>::empty());
        assert(ls.take(0) =~= Seq::<Seq<char>>::empty());
        assert(spec_wrap_lines(Seq::<Seq<char>>::empty(), width) =~~= Seq::<Seq<char>>::empty());
        assert(spec_wrap_lines(ls.take(1), width) == spec_wrap_line(ls.take(1)[0], width)
            + spec_wrap_lines(ls.take(1).skip(1), width));
        assert(spec_wrap_line(ls[0], width) + Seq::<Seq<char>>::empty() =~~= spec_wrap_line(
            ls[0],
            width,
        ));
        assert(spec_wrap_lines(ls.take(1), width) =~~= spec_wrap_line(ls[0], width));
    } else {
        lemma_wrap_lines_step(ls.skip(1), i - 1, width);
        assert(ls.take(i + 1)[0] == ls[0]);
        assert(ls.take(i + 1).skip(1) =~= ls.skip(1).take(i));
        assert(ls.take(i)[0] == ls[0]);
        assert(ls.take(i).skip(1) =~= ls.skip(1).take(i - 1));
        assert(ls.skip(1)[i - 1] == ls[i]);
        assert(spec_wrap_lines(ls.take(i + 1), width) == spec_wrap_line(ls[0], width)
            + spec_wrap_lines(ls.skip(1).take(i), width));
        assert(spec_wrap_lines(ls.skip(1).take(i), width) == spec_wrap_lines(
            ls.skip(1).take(i - 1),
            width,
        ) + spec_wrap_line(ls[i], width));
        assert(spec_wrap_lines(ls.take(i + 1), width) =~~= spec_wrap_lines(ls.take(i), width)
            + spec_wrap_line(ls[i], width));
    }
}

} // verus!
