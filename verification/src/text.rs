//! Character-level text helpers.
//!
//! Text is manipulated as vectors of characters so that every operation
//! carries an exact contract over `Seq<char>`; conversion to and from
//! `String` happens only at the edges.

use vstd::prelude::*;
use vstd::std_specs::iter::IteratorSpec;

verus! {

/// Collects the characters of a string slice into a vector.
pub fn chars_of(s: &str) -> (r: Vec<char>)
    ensures
        r@ == s@,
{
    broadcast use vstd::string::group_string_axioms;

    let mut it = s.chars();
    let mut r: Vec<char> = Vec::new();
    loop
        invariant
            it.obeys_prophetic_iter_laws(),
            r@ + it.remaining() == s@,
            it.decrease() is Some,
        ensures
            r@ == s@,
        decreases it.decrease()->0,
    {
        match it.next() {
            Some(c) => {
                r.push(c);
                proof {
                    assert(r@ + it.remaining() =~= s@);
                }
            },
            None => {
                proof {
                    assert(r@ =~= s@);
                }
                break;
            },
        }
    }
    r
}

/// Relies on `String: FromIterator<char>`: the built string holds exactly the
/// given characters, in order.
#[verifier::external_body]
pub(crate) fn string_from_chars(chars: &Vec<char>) -> (r: String)
    ensures
        r@ == chars@,
{
    chars.iter().collect()
}

/// Appends all characters of `src` onto `dst`.
pub fn push_chars(dst: &mut Vec<char>, src: &[char])
    ensures
        final(dst)@ == old(dst)@ + src@,
{
    let n = src.len();
    let mut i: usize = 0;
    while i < n
        invariant
            i <= n,
            n == src@.len(),
            dst@ == old(dst)@ + src@.take(i as int),
        decreases n - i,
    {
        dst.push(src[i]);
        i = i + 1;
        proof {
            assert(dst@ =~= old(dst)@ + src@.take(i as int));
        }
    }
    proof {
        assert(old(dst)@ + src@.take(n as int) =~= old(dst)@ + src@);
    }
}

/// Appends the characters of a string slice onto `dst`.
pub fn push_str_chars(dst: &mut Vec<char>, s: &str)
    ensures
        final(dst)@ == old(dst)@ + s@,
{
    let extra = chars_of(s);
    push_chars(dst, extra.as_slice());
}

/// The two strings, concatenated.
pub fn concat2(a: &str, b: &str) -> (r: String)
    ensures
        r@ == a@ + b@,
{
    let mut v = chars_of(a);
    push_str_chars(&mut v, b);
    string_from_chars(&v)
}

/// The three strings, concatenated.
pub fn concat3(a: &str, b: &str, c: &str) -> (r: String)
    ensures
        r@ == a@ + b@ + c@,
{
    let mut v = chars_of(a);
    push_str_chars(&mut v, b);
    push_str_chars(&mut v, c);
    string_from_chars(&v)
}

/// The decimal digit `d` as a character.
pub open spec fn spec_digit(d: int) -> char {
    if d == 0 {
        '0'
    } else if d == 1 {
        '1'
    } else if d == 2 {
        '2'
    } else if d == 3 {
        '3'
    } else if d == 4 {
        '4'
    } else if d == 5 {
        '5'
    } else if d == 6 {
        '6'
    } else if d == 7 {
        '7'
    } else if d == 8 {
        '8'
    } else {
        '9'
    }
}

/// The decimal form of a number, without leading zeroes (a lone zero for 0).
pub open spec fn spec_decimal(n: nat) -> Seq<char>
    decreases n,
{
    if n < 10 {
        seq![spec_digit(n as int)]
    } else {
        spec_decimal(n / 10) + seq![spec_digit((n % 10) as int)]
    }
}

/// The character for one decimal digit.
pub fn digit_char(d: u64) -> (r: char)
    requires
        d < 10,
    ensures
        r == spec_digit(d as int),
{
    if d == 0 {
        '0'
    } else if d == 1 {
        '1'
    } else if d == 2 {
        '2'
    } else if d == 3 {
        '3'
    } else if d == 4 {
        '4'
    } else if d == 5 {
        '5'
    } else if d == 6 {
        '6'
    } else if d == 7 {
        '7'
    } else if d == 8 {
        '8'
    } else {
        '9'
    }
}

/// The decimal digits of a number.
pub fn decimal_chars(n: u64) -> (r: Vec<char>)
    ensures
        r@ == spec_decimal(n as nat),
    decreases n,
{
    if n < 10 {
        let mut r: Vec<char> = Vec::new();
        r.push(digit_char(n));
        proof {
            assert(r@ =~= spec_decimal(n as nat));
        }
        r
    } else {
        let mut r = decimal_chars(n / 10);
        r.push(digit_char(n % 10));
        proof {
            assert(r@ =~= spec_decimal(n as nat));
        }
        r
    }
}

/// The decimal form of a number as a string.
pub fn decimal_string(n: u64) -> (r: String)
    ensures
        r@ == spec_decimal(n as nat),
{
    let chars = decimal_chars(n);
    string_from_chars(&chars)
}


/// Plain whitespace: the blank characters this crate trims.
pub open spec fn is_plain_ws(c: char) -> bool {
    c == ' ' || c == '\t' || c == '\r' || c == '\n'
}

/// Whether a character is plain whitespace.
pub fn plain_ws(c: char) -> (r: bool)
    ensures
        r == is_plain_ws(c),
{
    c == ' ' || c == '\t' || c == '\r' || c == '\n'
}

/// The sequence without its leading whitespace.
pub open spec fn trim_left_spec(s: Seq<char>) -> Seq<char>
    decreases s.len(),
{
    if s.len() == 0 {
        s
    } else if is_plain_ws(s[0]) {
        trim_left_spec(s.drop_first())
    } else {
        s
    }
}

/// The sequence without its trailing whitespace.
pub open spec fn trim_right_spec(s: Seq<char>) -> Seq<char>
    decreases s.len(),
{
    if s.len() == 0 {
        s
    } else if is_plain_ws(s[s.len() - 1]) {
        trim_right_spec(s.drop_last())
    } else {
        s
    }
}

/// The sequence without leading and trailing whitespace.
pub open spec fn trim_spec(s: Seq<char>) -> Seq<char> {
    trim_right_spec(trim_left_spec(s))
}

/// The position after the leading whitespace of `v@.skip(i)`.
fn trim_left_idx(v: &Vec<char>, i: usize) -> (r: usize)
    requires
        i <= v@.len(),
    ensures
        i <= r <= v@.len(),
        v@.subrange(r as int, v@.len() as int) == trim_left_spec(
            v@.subrange(i as int, v@.len() as int),
        ),
    decreases v@.len() - i,
{
    let ghost whole = v@.subrange(i as int, v@.len() as int);
    if i == v.len() {
        proof {
            assert(whole =~= Seq::<char>::empty());
        }
        i
    } else if plain_ws(v[i]) {
        let r = trim_left_idx(v, i + 1);
        proof {
            assert(whole.drop_first() =~= v@.subrange(i as int + 1, v@.len() as int));
        }
        r
    } else {
        i
    }
}

/// The position before the trailing whitespace of `v@.take(j)`.
fn trim_right_idx(v: &Vec<char>, j: usize) -> (r: usize)
    requires
        j <= v@.len(),
    ensures
        r <= j,
        v@.subrange(0, r as int) == trim_right_spec(v@.subrange(0, j as int)),
    decreases j,
{
    let ghost whole = v@.subrange(0, j as int);
    if j == 0 {
        proof {
            assert(whole =~= Seq::<char>::empty());
        }
        0
    } else if plain_ws(v[j - 1]) {
        let r = trim_right_idx(v, j - 1);
        proof {
            assert(whole.drop_last() =~= v@.subrange(0, j as int - 1));
        }
        r
    } else {
        j
    }
}

/// A copy of `v[i..j]`.
pub fn subrange_vec(v: &Vec<char>, i: usize, j: usize) -> (r: Vec<char>)
    requires
        i <= j <= v@.len(),
    ensures
        r@ == v@.subrange(i as int, j as int),
{
    let mut r: Vec<char> = Vec::new();
    let mut k: usize = i;
    while k < j
        invariant
            i <= k <= j <= v@.len(),
            r@ == v@.subrange(i as int, k as int),
        decreases j - k,
    {
        r.push(v[k]);
        k = k + 1;
        proof {
            assert(r@ =~= v@.subrange(i as int, k as int));
        }
    }
    r
}

/// The text without leading and trailing whitespace.
pub fn trim_vec(v: &Vec<char>) -> (r: Vec<char>)
    ensures
        r@ == trim_spec(v@),
{
    let left = trim_left_idx(v, 0);
    proof {
        assert(v@.subrange(0, v@.len() as int) =~= v@);
    }
    let trimmed_left = subrange_vec(v, left, v.len());
    let right = trim_right_idx(&trimmed_left, trimmed_left.len());
    proof {
        assert(trimmed_left@.subrange(0, trimmed_left@.len() as int) =~= trimmed_left@);
    }
    let r = subrange_vec(&trimmed_left, 0, right);
    r
}

/// Whether `p` is a prefix of `s`.
pub open spec fn is_prefix_of(p: Seq<char>, s: Seq<char>) -> bool {
    p.len() <= s.len() && s.subrange(0, p.len() as int) == p
}

/// Whether the text starts with the given prefix.
pub fn starts_with_chars(v: &Vec<char>, prefix: &str) -> (r: bool)
    ensures
        r == is_prefix_of(prefix@, v@),
{
    let p = chars_of(prefix);
    if p.len() > v.len() {
        return false;
    }
    let mut i: usize = 0;
    while i < p.len()
        invariant
            i <= p@.len() <= v@.len(),
            p@ == prefix@,
            forall|j: int| 0 <= j < i as int ==> v@[j] == p@[j],
        decreases p@.len() - i,
    {
        if v[i] != p[i] {
            proof {
                assert(v@.subrange(0, p@.len() as int)[i as int] != p@[i as int]);
            }
            return false;
        }
        i = i + 1;
    }
    proof {
        assert(v@.subrange(0, p@.len() as int) =~= p@);
    }
    true
}

/// The sequence without its leading run of the given character.
pub open spec fn drop_leading_spec(s: Seq<char>, c: char) -> Seq<char>
    decreases s.len(),
{
    if s.len() == 0 {
        s
    } else if s[0] == c {
        drop_leading_spec(s.drop_first(), c)
    } else {
        s
    }
}

/// The text without its leading run of the given character.
pub fn drop_leading(v: &Vec<char>, c: char) -> (r: Vec<char>)
    ensures
        r@ == drop_leading_spec(v@, c),
{
    proof {
        assert(v@.subrange(0, v@.len() as int) =~= v@);
    }
    let mut i: usize = 0;
    while i < v.len() && v[i] == c
        invariant
            i <= v@.len(),
            drop_leading_spec(v@, c) == drop_leading_spec(
                v@.subrange(i as int, v@.len() as int),
                c,
            ),
        decreases v@.len() - i,
    {
        proof {
            let suffix = v@.subrange(i as int, v@.len() as int);
            assert(suffix.drop_first() =~= v@.subrange(i as int + 1, v@.len() as int));
        }
        i = i + 1;
    }
    let r = subrange_vec(v, i, v.len());
    proof {
        if i < v.len() {
            assert(r@[0] != c);
        }
    }
    r
}

/// The position of the first occurrence of `c` in `s`, if any.
pub open spec fn idx_of_spec(s: Seq<char>, c: char) -> Option<int>
    decreases s.len(),
{
    if s.len() == 0 {
        None
    } else if s[0] == c {
        Some(0int)
    } else {
        match idx_of_spec(s.drop_first(), c) {
            Some(i) => Some(i + 1),
            None => None,
        }
    }
}

proof fn lemma_idx_of_found(s: Seq<char>, c: char, i: int)
    requires
        0 <= i < s.len(),
        forall|j: int| 0 <= j < i ==> s[j] != c,
        s[i] == c,
    ensures
        idx_of_spec(s, c) == Some(i),
    decreases i,
{
    if i == 0 {
    } else {
        let rest = s.drop_first();
        assert(forall|j: int| 0 <= j < rest.len() ==> rest[j] == s[j + 1]);
        lemma_idx_of_found(rest, c, i - 1);
    }
}

proof fn lemma_idx_of_none(s: Seq<char>, c: char)
    requires
        forall|j: int| 0 <= j < s.len() ==> s[j] != c,
    ensures
        idx_of_spec(s, c) is None,
    decreases s.len(),
{
    if s.len() == 0 {
    } else {
        let rest = s.drop_first();
        assert(forall|j: int| 0 <= j < rest.len() ==> rest[j] == s[j + 1]);
        lemma_idx_of_none(rest, c);
    }
}

/// The position of the first occurrence of `c`, if any.
pub fn idx_of(v: &Vec<char>, c: char) -> (r: Option<usize>)
    ensures
        match r {
            Some(i) => i < v@.len() && idx_of_spec(v@, c) == Some(i as int),
            None => idx_of_spec(v@, c) is None,
        },
{
    let mut i: usize = 0;
    while i < v.len()
        invariant
            i <= v@.len(),
            forall|j: int| 0 <= j < i as int ==> v@[j] != c,
        decreases v@.len() - i,
    {
        if v[i] == c {
            proof {
                lemma_idx_of_found(v@, c, i as int);
            }
            return Some(i);
        }
        i = i + 1;
    }
    proof {
        lemma_idx_of_none(v@, c);
    }
    None
}

/// The text split at every occurrence of the separator; a trailing separator
/// contributes a final empty piece, and the empty text is one empty piece.
pub open spec fn split_spec(s: Seq<char>, sep: char) -> Seq<Seq<char>>
    decreases s.len(),
{
    match idx_of_spec(s, sep) {
        Some(i) => {
            if 0 <= i < s.len() {
                seq![s.subrange(0, i)] + split_spec(s.subrange(i + 1, s.len() as int), sep)
            } else {
                seq![s]
            }
        },
        None => seq![s],
    }
}

/// Splits the text at every occurrence of the separator.
pub fn split_chars(v: &Vec<char>, sep: char) -> (r: Vec<Vec<char>>)
    ensures
        r.deep_view() == split_spec(v@, sep),
    decreases v@.len(),
{
    match idx_of(v, sep) {
        Some(i) => {
            let n = v.len();
            let head = subrange_vec(v, 0, i);
            let tail = subrange_vec(v, i + 1, n);
            let rest = split_chars(&tail, sep);
            let mut r: Vec<Vec<char>> = Vec::new();
            r.push(head);
            let mut k: usize = 0;
            proof {
                assert(r.deep_view() =~~= seq![v@.subrange(0, i as int)]
                    + rest.deep_view().take(0));
            }
            while k < rest.len()
                invariant
                    k <= rest@.len(),
                    r@.len() == 1 + k as int,
                    r.deep_view() == seq![v@.subrange(0, i as int)] + rest.deep_view().take(
                        k as int,
                    ),
                decreases rest@.len() - k,
            {
                let piece = rest[k].clone();
                proof {
                    assert(piece@ =~= rest@[k as int]@);
                }
                let ghost pre = r.deep_view();
                r.push(piece);
                k = k + 1;
                proof {
                    assert(r.deep_view() =~~= pre.push(rest@[k - 1]@));
                    assert(rest@[k - 1]@ =~~= rest.deep_view()[k - 1]);
                    assert(rest.deep_view().take(k as int) =~~= rest.deep_view().take(
                        k as int - 1,
                    ).push(rest.deep_view()[k - 1]));
                    assert(r.deep_view() =~~= seq![v@.subrange(0, i as int)]
                        + rest.deep_view().take(k as int));
                }
            }
            proof {
                assert(rest.deep_view().take(rest@.len() as int) =~~= rest.deep_view());
                assert(r.deep_view() =~~= split_spec(v@, sep));
            }
            r
        },
        None => {
            let mut r: Vec<Vec<char>> = Vec::new();
            r.push(subrange_vec(v, 0, v.len()));
            proof {
                assert(v@.subrange(0, v@.len() as int) =~= v@);
                assert(r.deep_view()[0] =~~= v@);
                assert(r.deep_view() =~~= split_spec(v@, sep));
            }
            r
        },
    }
}


/// The position of the first blank-line break (two adjacent newlines).
pub open spec fn idx_of_break_spec(s: Seq<char>) -> Option<int>
    decreases s.len(),
{
    if s.len() < 2 {
        None
    } else if s[0] == '\n' && s[1] == '\n' {
        Some(0int)
    } else {
        match idx_of_break_spec(s.drop_first()) {
            Some(i) => Some(i + 1),
            None => None,
        }
    }
}

proof fn lemma_idx_of_break_found(s: Seq<char>, i: int)
    requires
        0 <= i,
        i + 1 < s.len(),
        forall|j: int| 0 <= j < i ==> !((#[trigger] s[j]) == '\n' && s[j + 1] == '\n'),
        s[i] == '\n' && s[i + 1] == '\n',
    ensures
        idx_of_break_spec(s) == Some(i),
    decreases i,
{
    if i == 0 {
    } else {
        let rest = s.drop_first();
        assert(forall|j: int| 0 <= j < rest.len() ==> rest[j] == s[j + 1]);
        lemma_idx_of_break_found(rest, i - 1);
    }
}

proof fn lemma_idx_of_break_none(s: Seq<char>)
    requires
        forall|j: int| 0 <= j && j + 1 < s.len() ==> !((#[trigger] s[j]) == '\n' && s[j + 1] == '\n'),
    ensures
        idx_of_break_spec(s) is None,
    decreases s.len(),
{
    if s.len() < 2 {
    } else {
        let rest = s.drop_first();
        assert(forall|j: int| 0 <= j < rest.len() ==> rest[j] == s[j + 1]);
        lemma_idx_of_break_none(rest);
    }
}

/// The position of the first blank-line break, if any.
pub fn idx_of_break(v: &Vec<char>) -> (r: Option<usize>)
    ensures
        match r {
            Some(i) => i + 1 < v@.len() && idx_of_break_spec(v@) == Some(i as int),
            None => idx_of_break_spec(v@) is None,
        },
{
    if v.len() < 2 {
        proof {
            lemma_idx_of_break_none(v@);
        }
        return None;
    }
    let n = v.len();
    let mut i: usize = 0;
    while i + 1 < n
        invariant
            n == v@.len(),
            i + 1 <= n,
            forall|j: int| 0 <= j < i as int ==> !((#[trigger] v@[j]) == '\n' && v@[j + 1] == '\n'),
        decreases v@.len() - i,
    {
        if v[i] == '\n' && v[i + 1] == '\n' {
            proof {
                lemma_idx_of_break_found(v@, i as int);
            }
            return Some(i);
        }
        i = i + 1;
    }
    proof {
        lemma_idx_of_break_none(v@);
    }
    None
}

/// The text with every newline replaced by a space.
pub open spec fn newlines_to_spaces_spec(s: Seq<char>) -> Seq<char> {
    s.map_values(
        |c: char|
            if c == '\n' {
                ' '
            } else {
                c
            },
    )
}

/// Replaces every newline with a space.
pub fn newlines_to_spaces(v: &Vec<char>) -> (r: Vec<char>)
    ensures
        r@ == newlines_to_spaces_spec(v@),
{
    let mut r: Vec<char> = Vec::new();
    let mut i: usize = 0;
    while i < v.len()
        invariant
            i <= v@.len(),
            r@.len() == i as int,
            forall|j: int|
                0 <= j < i as int ==> r@[j] == (if v@[j] == '\n' {
                    ' '
                } else {
                    v@[j]
                }),
        decreases v@.len() - i,
    {
        if v[i] == '\n' {
            r.push(' ');
        } else {
            r.push(v[i]);
        }
        i = i + 1;
    }
    proof {
        assert(r@ =~= newlines_to_spaces_spec(v@));
    }
    r
}

/// The first paragraph - split at blank lines - whose trimmed text is
/// non-empty and is not a heading, newlines flattened to spaces.
pub open spec fn first_plain_paragraph(s: Seq<char>) -> Option<Seq<char>>
    decreases s.len(),
{
    let cut = idx_of_break_spec(s);
    let para = match cut {
        Some(i) => s.subrange(0, i),
        None => s,
    };
    let t = trim_spec(para);
    if t.len() > 0 && t[0] != '#' {
        Some(newlines_to_spaces_spec(t))
    } else {
        match cut {
            Some(i) => {
                if 0 <= i && i + 2 <= s.len() {
                    first_plain_paragraph(s.subrange(i + 2, s.len() as int))
                } else {
                    None
                }
            },
            None => None,
        }
    }
}

/// The first line whose trimmed text is non-empty, trimmed.
pub open spec fn first_nonblank_line(lines: Seq<Seq<char>>) -> Seq<char>
    decreases lines.len(),
{
    if lines.len() == 0 {
        Seq::empty()
    } else if trim_spec(lines[0]).len() > 0 {
        trim_spec(lines[0])
    } else {
        first_nonblank_line(lines.drop_first())
    }
}

/// The best-effort summary of a documentation file: its first non-heading
/// paragraph with newlines flattened, or, when every paragraph is blank or a
/// heading, its first non-blank line, trimmed.
pub open spec fn doc_summary_spec(s: Seq<char>) -> Seq<char> {
    match first_plain_paragraph(s) {
        Some(p) => p,
        None => first_nonblank_line(split_spec(s, '\n')),
    }
}

fn first_plain_paragraph_exec(v: &Vec<char>) -> (r: Option<Vec<char>>)
    ensures
        match r {
            Some(p) => first_plain_paragraph(v@) == Some(p@),
            None => first_plain_paragraph(v@) is None,
        },
    decreases v@.len(),
{
    let n = v.len();
    let cut = idx_of_break(v);
    let para = match cut {
        Some(i) => subrange_vec(v, 0, i),
        None => subrange_vec(v, 0, n),
    };
    proof {
        if cut is None {
            assert(v@.subrange(0, v@.len() as int) =~= v@);
        }
    }
    let t = trim_vec(&para);
    if t.len() > 0 && t[0] != '#' {
        Some(newlines_to_spaces(&t))
    } else {
        match cut {
            Some(i) => {
                let rest = subrange_vec(v, i + 2, n);
                first_plain_paragraph_exec(&rest)
            },
            None => None,
        }
    }
}

fn first_nonblank_line_exec(lines: &Vec<Vec<char>>, i: usize) -> (r: Vec<char>)
    requires
        i <= lines@.len(),
    ensures
        r@ == first_nonblank_line(lines.deep_view().skip(i as int)),
    decreases lines@.len() - i,
{
    let ghost suffix = lines.deep_view().skip(i as int);
    if i == lines.len() {
        proof {
            assert(suffix =~= Seq::<Seq<char>>::empty());
        }
        Vec::new()
    } else {
        proof {
            assert(suffix[0] =~= lines@[i as int]@);
            assert(suffix.drop_first() =~= lines.deep_view().skip(i as int + 1));
        }
        let t = trim_vec(&lines[i]);
        if t.len() > 0 {
            t
        } else {
            first_nonblank_line_exec(lines, i + 1)
        }
    }
}

/// Derives the best-effort summary of a documentation file.
pub fn doc_summary(content: &str) -> (r: String)
    ensures
        r@ == doc_summary_spec(content@),
{
    let chars = chars_of(content);
    match first_plain_paragraph_exec(&chars) {
        Some(p) => string_from_chars(&p),
        None => {
            let lines = split_chars(&chars, '\n');
            let line = first_nonblank_line_exec(&lines, 0);
            proof {
                assert(lines.deep_view().skip(0) =~= lines.deep_view());
            }
            string_from_chars(&line)
        },
    }
}


/// What Unicode lowercasing returns for a text; the result depends on the
/// characters alone.
pub uninterp spec fn lower_of(s: Seq<char>) -> Seq<char>;

/// Relies on `str::to_lowercase`: the Unicode-lowercased text, a function of
/// the characters alone.
#[verifier::external_body]
pub(crate) fn lowercase(s: &str) -> (r: String)
    ensures
        r@ == lower_of(s@),
{
    s.to_lowercase()
}

/// Whether `needle` occurs contiguously inside `hay`.
pub open spec fn is_substring(needle: Seq<char>, hay: Seq<char>) -> bool {
    exists|k: int|
        0 <= k <= hay.len() - needle.len() && #[trigger] hay.subrange(k, k + needle.len() as int)
            == needle
}

fn matches_at(hay: &Vec<char>, needle: &Vec<char>, k: usize) -> (r: bool)
    requires
        k + needle@.len() <= hay@.len(),
    ensures
        r == (hay@.subrange(k as int, k as int + needle@.len() as int) == needle@),
{
    let hay_len = hay.len();
    let mut i: usize = 0;
    while i < needle.len()
        invariant
            i <= needle@.len(),
            hay_len == hay@.len(),
            k + needle@.len() <= hay@.len(),
            forall|j: int| 0 <= j < i as int ==> hay@[k as int + j] == needle@[j],
        decreases needle@.len() - i,
    {
        if hay[k + i] != needle[i] {
            proof {
                assert(hay@.subrange(k as int, k as int + needle@.len() as int)[i as int]
                    != needle@[i as int]);
            }
            return false;
        }
        i = i + 1;
    }
    proof {
        assert(hay@.subrange(k as int, k as int + needle@.len() as int) =~= needle@);
    }
    true
}

/// Whether the needle occurs contiguously inside the hay.
pub fn contains_chars(hay: &Vec<char>, needle: &Vec<char>) -> (r: bool)
    ensures
        r == is_substring(needle@, hay@),
{
    if needle.len() > hay.len() {
        return false;
    }
    let last = hay.len() - needle.len();
    let mut k: usize = 0;
    loop
        invariant
            k <= last,
            last == hay@.len() - needle@.len(),
            forall|j: int|
                0 <= j < k as int ==> #[trigger] hay@.subrange(j, j + needle@.len() as int)
                    != needle@,
        ensures
            forall|j: int|
                0 <= j <= last as int ==> #[trigger] hay@.subrange(j, j + needle@.len() as int)
                    != needle@,
        decreases last - k,
    {
        if matches_at(hay, needle, k) {
            return true;
        }
        if k == last {
            break;
        }
        k = k + 1;
    }
    false
}

} // verus!
