//! Character-sequence helpers shared by the panels: building strings,
//! splitting text into lines, searching and replacing, decimal rendering.

use vstd::prelude::*;

verus! {

// ---------------------------------------------------------------------------
// Building strings
// ---------------------------------------------------------------------------

/// Appends one character to a string (`String::push`).
#[verifier::external_body]
pub(crate) fn push_char(s: &mut String, c: char)
    ensures
        final(s)@ == old(s)@.push(c),
{
    s.push(c);
}

/// Appends a string slice to a string (`String::push_str`).
#[verifier::external_body]
pub(crate) fn push_str(s: &mut String, t: &str)
    ensures
        final(s)@ == old(s)@ + t@,
{
    s.push_str(t);
}

/// The characters of a string slice, in order.
pub fn chars_of(s: &str) -> (v: Vec<char>)
    ensures
        v@ == s@,
{
    let mut v: Vec<char> = Vec::new();
    for c in it: s.chars()
        invariant
            v@ == it.seq().take(it.index() as int),
            it.seq() == s@,
    {
        v.push(c);
    }
    v
}

/// A string holding the characters `v[from..to]`.
pub fn string_from_chars(v: &Vec<char>, from: usize, to: usize) -> (s: String)
    requires
        from <= to <= v.len(),
    ensures
        s@ == v@.subrange(from as int, to as int),
{
    let mut s = String::new();
    let mut i = from;
    while i < to
        invariant
            from <= i <= to <= v.len(),
            s@ == v@.subrange(from as int, i as int),
        decreases to - i,
    {
        push_char(&mut s, v[i]);
        assert(v@.subrange(from as int, i + 1) == v@.subrange(from as int, i as int).push(v@[i as int]));
        i = i + 1;
    }
    s
}

/// The views of a sequence of strings.
pub open spec fn views(v: Seq<String>) -> Seq<Seq<char>> {
    v.map_values(|s: String| s@)
}

// ---------------------------------------------------------------------------
// Lines
// ---------------------------------------------------------------------------

/// The pieces of `s` between newline characters; there is always one more
/// piece than there are newlines (the last piece may be empty).
pub open spec fn newline_pieces(s: Seq<char>) -> Seq<Seq<char>>
    decreases s.len(),
{
    if s.len() == 0 {
        seq![Seq::<char>::empty()]
    } else {
        let init = newline_pieces(s.drop_last());
        if s.last() == '\n' {
            init.push(Seq::<char>::empty())
        } else {
            init.update(init.len() - 1, init.last().push(s.last()))
        }
    }
}

/// A piece with one trailing carriage return removed, if it has one.
pub open spec fn strip_cr(p: Seq<char>) -> Seq<char> {
    if p.len() > 0 && p.last() == '\r' {
        p.drop_last()
    } else {
        p
    }
}

/// The lines of `s` as `str::lines` yields them: every piece that a newline
/// ends loses that newline and one carriage return before it; the last piece
/// is kept as it is unless it is empty.
pub open spec fn lines_of(s: Seq<char>) -> Seq<Seq<char>> {
    let p = newline_pieces(s);
    let n = p.len() as int;
    p.subrange(0, n - 1).map_values(|q: Seq<char>| strip_cr(q)) + if p[n - 1].len() == 0 {
        Seq::<Seq<char>>::empty()
    } else {
        seq![p[n - 1]]
    }
}

/// There is at least one piece.
pub proof fn lemma_newline_pieces_nonempty(s: Seq<char>)
    ensures
        newline_pieces(s).len() >= 1,
    decreases s.len(),
{
    if s.len() > 0 {
        lemma_newline_pieces_nonempty(s.drop_last());
    }
}

/// Texts joined with a newline between each two.
pub open spec fn joined_lines(ts: Seq<Seq<char>>) -> Seq<char>
    decreases ts.len(),
{
    if ts.len() == 0 {
        Seq::empty()
    } else if ts.len() == 1 {
        ts[0]
    } else {
        joined_lines(ts.drop_last()) + seq!['\n'] + ts.last()
    }
}

/// `s` holds no carriage return.
pub open spec fn no_cr(s: Seq<char>) -> bool {
    forall|i: int| 0 <= i < s.len() ==> s[i] != '\r'
}

/// Joining the newline pieces of `s` gives `s` back.
proof fn lemma_join_pieces(s: Seq<char>)
    ensures
        joined_lines(newline_pieces(s)) == s,
    decreases s.len(),
{
    if s.len() > 0 {
        let init = newline_pieces(s.drop_last());
        lemma_join_pieces(s.drop_last());
        lemma_newline_pieces_nonempty(s.drop_last());
        if s.last() == '\n' {
            assert(init.push(Seq::<char>::empty()).drop_last() == init);
            assert(s == s.drop_last() + seq!['\n'] + Seq::<char>::empty());
        } else {
            let up = init.update(init.len() - 1, init.last().push(s.last()));
            if init.len() == 1 {
                assert(s == s.drop_last().push(s.last()));
            } else {
                assert(up.drop_last() == init.drop_last());
                let a = joined_lines(init.drop_last());
                assert(s.drop_last() == a + seq!['\n'] + init.last());
                assert(s =~= s.drop_last().push(s.last()));
                assert(s =~= a + seq!['\n'] + init.last().push(s.last()));
            }
        }
    }
}

/// The last newline piece is empty exactly when `s` is empty or ends with a
/// newline; with no carriage return in `s`, no piece has one.
proof fn lemma_pieces_shape(s: Seq<char>)
    ensures
        newline_pieces(s).len() >= 1,
        (newline_pieces(s).last().len() == 0) <==> (s.len() == 0 || s.last() == '\n'),
        no_cr(s) ==> forall|k: int| 0 <= k < newline_pieces(s).len() ==> no_cr(#[trigger] newline_pieces(s)[k]),
    decreases s.len(),
{
    lemma_newline_pieces_nonempty(s);
    if s.len() > 0 {
        lemma_pieces_shape(s.drop_last());
        let init = newline_pieces(s.drop_last());
        if no_cr(s) {
            assert(no_cr(s.drop_last()));
            if s.last() != '\n' {
                let up = init.update(init.len() - 1, init.last().push(s.last()));
                assert forall|k: int| 0 <= k < up.len() implies no_cr(#[trigger] up[k]) by {
                    if k == up.len() - 1 {
                        assert(no_cr(init[k]));
                        assert(s.last() == s[s.len() - 1]);
                    }
                }
            } else {
                assert forall|k: int| 0 <= k < init.push(Seq::<char>::empty()).len() implies no_cr(
                    #[trigger] init.push(Seq::<char>::empty())[k],
                ) by {
                    if k < init.len() {
                        assert(no_cr(init[k]));
                    }
                }
            }
        }
    }
}

/// Text with no carriage return that does not end with a newline is what
/// joining its lines with newlines gives back.
pub proof fn lemma_join_lines_of(s: Seq<char>)
    requires
        no_cr(s),
        s.len() == 0 || s.last() != '\n',
    ensures
        joined_lines(lines_of(s)) == s,
{
    lemma_pieces_shape(s);
    lemma_join_pieces(s);
    let p = newline_pieces(s);
    let n = p.len() as int;
    if s.len() == 0 {
        assert(lines_of(s) =~= Seq::<Seq<char>>::empty());
    } else {
        assert forall|k: int| 0 <= k < n - 1 implies strip_cr(#[trigger] p[k]) == p[k] by {
            assert(no_cr(p[k]));
            if p[k].len() > 0 {
                assert(p[k].last() == p[k][p[k].len() - 1]);
            }
        }
        assert(lines_of(s) =~= p);
    }
}

/// Splits text into lines the way `str::lines` does.
pub fn split_lines(s: &str) -> (v: Vec<String>)
    ensures
        views(v@) == lines_of(s@),
{
    let mut done: Vec<String> = Vec::new();
    let mut cur = String::new();
    let ghost mut pieces: Seq<Seq<char>> = Seq::empty();
    let ghost sv = s@;
    for c in it: s.chars()
        invariant
            it.seq() == sv,
            newline_pieces(sv.take(it.index() as int)) == pieces.push(cur@),
            views(done@) == pieces.map_values(|q: Seq<char>| strip_cr(q)),
    {
        let ghost k = it.index() as int;
        proof {
            assert(sv.take(k + 1).drop_last() == sv.take(k));
            lemma_newline_pieces_nonempty(sv.take(k));
        }
        if c == '\n' {
            let line = strip_cr_string(&cur);
            proof {
                assert(views(done@.push(line)) == views(done@).push(line@));
                assert(pieces.push(cur@).map_values(|q: Seq<char>| strip_cr(q))
                    == pieces.map_values(|q: Seq<char>| strip_cr(q)).push(strip_cr(cur@)));
                pieces = pieces.push(cur@);
            }
            done.push(line);
            cur = String::new();
        } else {
            push_char(&mut cur, c);
        }
    }
    proof {
        assert(sv.take(sv.len() as int) == sv);
        let p = newline_pieces(sv);
        assert(p.subrange(0, p.len() - 1) == pieces);
    }
    if !cur.as_str().is_empty() {
        proof {
            assert(views(done@.push(cur)) == views(done@).push(cur@));
        }
        done.push(cur);
    }
    done
}

/// A copy of `s` without one trailing carriage return.
fn strip_cr_string(s: &String) -> (r: String)
    ensures
        r@ == strip_cr(s@),
{
    let v = chars_of(s.as_str());
    let n = v.len();
    if n > 0 && v[n - 1] == '\r' {
        string_from_chars(&v, 0, n - 1)
    } else {
        string_from_chars(&v, 0, n)
    }
}


// ---------------------------------------------------------------------------
// Case mapping (std's Unicode tables)
// ---------------------------------------------------------------------------

/// What `str::to_lowercase` gives for a string with these characters.
pub uninterp spec fn lowercase(s: Seq<char>) -> Seq<char>;

/// What `str::to_uppercase` gives for a string with these characters.
pub uninterp spec fn uppercase(s: Seq<char>) -> Seq<char>;

/// `str::to_lowercase`: the contract only names the result, as a function of
/// the characters of `s` (Unicode's lower-case mapping is not restated here).
#[verifier::external_body]
pub(crate) fn to_lowercase(s: &str) -> (r: String)
    ensures
        r@ == lowercase(s@),
{
    s.to_lowercase()
}

/// `str::to_uppercase`: the contract only names the result, as a function of
/// the characters of `s` (Unicode's upper-case mapping is not restated here).
#[verifier::external_body]
pub(crate) fn to_uppercase(s: &str) -> (r: String)
    ensures
        r@ == uppercase(s@),
{
    s.to_uppercase()
}

// ---------------------------------------------------------------------------
// Association lists
// ---------------------------------------------------------------------------

/// The index of the first entry keyed `name`, or the length when there is
/// none.
pub open spec fn first_key<V>(entries: Seq<(Seq<char>, V)>, name: Seq<char>) -> int
    decreases entries.len(),
{
    if entries.len() == 0 {
        0
    } else if entries[0].0 == name {
        0
    } else {
        1 + first_key(entries.drop_first(), name)
    }
}

/// `first_key` is an index at most the length, and names the first match.
pub proof fn lemma_first_key<V>(entries: Seq<(Seq<char>, V)>, name: Seq<char>)
    ensures
        0 <= first_key(entries, name) <= entries.len(),
        first_key(entries, name) < entries.len() ==> entries[first_key(entries, name)].0 == name,
        forall|i: int| 0 <= i < first_key(entries, name) ==> entries[i].0 != name,
    decreases entries.len(),
{
    if entries.len() > 0 && entries[0].0 != name {
        lemma_first_key(entries.drop_first(), name);
        assert forall|i: int| 0 <= i < first_key(entries, name) implies entries[i].0 != name by {
            if i > 0 {
                assert(entries[i] == entries.drop_first()[i - 1]);
            }
        }
    }
}

/// An index that is at most the length, names a match when it is below the
/// length, and follows only non-matches is `first_key`.
pub proof fn lemma_first_key_unique<V>(entries: Seq<(Seq<char>, V)>, name: Seq<char>, j: int)
    requires
        0 <= j <= entries.len(),
        j < entries.len() ==> entries[j].0 == name,
        forall|i: int| 0 <= i < j ==> entries[i].0 != name,
    ensures
        first_key(entries, name) == j,
    decreases entries.len(),
{
    if entries.len() > 0 && j > 0 {
        assert(entries[0].0 != name);
        assert forall|i: int| 0 <= i < j - 1 implies entries.drop_first()[i].0 != name by {
            assert(entries.drop_first()[i] == entries[i + 1]);
        }
        lemma_first_key_unique(entries.drop_first(), name, j - 1);
    }
}

// ---------------------------------------------------------------------------
// Searching and replacing
// ---------------------------------------------------------------------------

/// `needle` occurs in `hay` starting at `i`.
pub open spec fn occurs_at<T>(hay: Seq<T>, needle: Seq<T>, i: int) -> bool {
    0 <= i && i + needle.len() <= hay.len() && hay.subrange(i, i + needle.len()) == needle
}

/// `needle` occurs somewhere in `hay` (the empty needle occurs everywhere).
pub open spec fn contains_seq<T>(hay: Seq<T>, needle: Seq<T>) -> bool {
    exists|i: int| occurs_at(hay, needle, i)
}

/// Whether two character vectors are equal.
pub fn chars_equal(a: &Vec<char>, b: &Vec<char>) -> (r: bool)
    ensures
        r == (a@ == b@),
{
    if a.len() != b.len() {
        return false;
    }
    let mut i: usize = 0;
    while i < a.len()
        invariant
            a@.len() == b@.len(),
            i <= a@.len(),
            forall|k: int| 0 <= k < i ==> a@[k] == b@[k],
        decreases a@.len() - i,
    {
        if a[i] != b[i] {
            return false;
        }
        i = i + 1;
    }
    assert(a@ == b@);
    true
}

/// Whether `needle` occurs in `hay` at `i` (checked character by character).
pub fn chars_match_at(hay: &Vec<char>, needle: &Vec<char>, i: usize) -> (b: bool)
    requires
        i <= hay.len(),
    ensures
        b == occurs_at(hay@, needle@, i as int),
{
    if needle.len() > hay.len() - i {
        return false;
    }
    let mut j: usize = 0;
    while j < needle.len()
        invariant
            i + needle.len() <= hay.len(),
            j <= needle.len(),
            forall|k: int| 0 <= k < j ==> hay@[i + k] == needle@[k],
        decreases needle.len() - j,
    {
        if hay[i + j] != needle[j] {
            assert(hay@.subrange(i as int, i + needle.len())[j as int] != needle@[j as int]);
            return false;
        }
        j = j + 1;
    }
    assert(hay@.subrange(i as int, i + needle.len()) == needle@);
    true
}

/// Whether `needle` occurs in `hay` at `i` (checked byte by byte).
pub fn bytes_match_at(hay: &[u8], needle: &[u8], i: usize) -> (b: bool)
    requires
        i <= hay@.len(),
    ensures
        b == occurs_at(hay@, needle@, i as int),
{
    if needle.len() > hay.len() - i {
        return false;
    }
    let mut j: usize = 0;
    while j < needle.len()
        invariant
            i + needle@.len() <= hay@.len(),
            hay@.len() == hay.len(),
            j <= needle@.len(),
            forall|k: int| 0 <= k < j ==> hay@[i + k] == needle@[k],
        decreases needle@.len() - j,
    {
        if hay[i + j] != needle[j] {
            assert(hay@.subrange(i as int, i + needle@.len())[j as int] != needle@[j as int]);
            return false;
        }
        j = j + 1;
    }
    assert(hay@.subrange(i as int, i + needle@.len()) == needle@);
    true
}

/// Whether `needle` occurs anywhere in the bytes `hay`.
pub fn bytes_contain(hay: &[u8], needle: &[u8]) -> (b: bool)
    ensures
        b == contains_seq(hay@, needle@),
{
    let mut i: usize = 0;
    while i < hay.len()
        invariant
            i <= hay@.len(),
            forall|k: int| 0 <= k < i ==> !occurs_at(hay@, needle@, k),
        decreases hay@.len() - i,
    {
        if bytes_match_at(hay, needle, i) {
            return true;
        }
        i = i + 1;
    }
    bytes_match_at(hay, needle, i)
}

/// Whether `needle` occurs anywhere in `hay`.
pub fn contains_chars(hay: &Vec<char>, needle: &Vec<char>) -> (b: bool)
    ensures
        b == contains_seq(hay@, needle@),
{
    let mut i: usize = 0;
    while i < hay.len()
        invariant
            i <= hay.len(),
            forall|k: int| 0 <= k < i ==> !occurs_at(hay@, needle@, k),
        decreases hay.len() - i,
    {
        if chars_match_at(hay, needle, i) {
            return true;
        }
        i = i + 1;
    }
    chars_match_at(hay, needle, i)
}

/// What `str::replace(pat, rep)` gives: the occurrences of `pat` found from
/// left to right without overlap are each replaced by `rep`; an empty `pat`
/// matches before every character and at the end.
pub open spec fn replaced(s: Seq<char>, pat: Seq<char>, rep: Seq<char>) -> Seq<char>
    decreases s.len(),
{
    if pat.len() == 0 {
        if s.len() == 0 {
            rep
        } else {
            rep + seq![s[0]] + replaced(s.drop_first(), pat, rep)
        }
    } else if s.len() < pat.len() {
        s
    } else if s.subrange(0, pat.len() as int) == pat {
        rep + replaced(s.subrange(pat.len() as int, s.len() as int), pat, rep)
    } else {
        seq![s[0]] + replaced(s.drop_first(), pat, rep)
    }
}

/// Replaces every occurrence of `pat` in `s` by `rep`, as `str::replace` does.
pub fn replace_all_in(s: &str, pat: &str, rep: &str) -> (r: String)
    ensures
        r@ == replaced(s@, pat@, rep@),
{
    let v = chars_of(s);
    let p = chars_of(pat);
    let mut out = String::new();
    let mut i: usize = 0;
    assert(v@.subrange(0, v@.len() as int) == v@);
    assert(out@ + replaced(v@, p@, rep@) == replaced(v@, p@, rep@));
    if p.len() == 0 {
        while i < v.len()
            invariant
                i <= v.len(),
                p@.len() == 0,
                replaced(v@, p@, rep@) == out@ + replaced(v@.subrange(i as int, v@.len() as int), p@, rep@),
            decreases v.len() - i,
        {
            let ghost rest = v@.subrange(i as int, v@.len() as int);
            assert(rest.drop_first() == v@.subrange(i + 1, v@.len() as int));
            let ghost out0 = out@;
            push_str(&mut out, rep);
            push_char(&mut out, v[i]);
            i = i + 1;
            assert(out@ == out0 + rep@ + seq![v@[i - 1]]);
        }
        push_str(&mut out, rep);
        assert(v@.subrange(i as int, v@.len() as int).len() == 0);
        return out;
    }
    while i < v.len()
        invariant
            i <= v.len(),
            p@.len() > 0,
            replaced(v@, p@, rep@) == out@ + replaced(v@.subrange(i as int, v@.len() as int), p@, rep@),
        decreases v.len() - i,
    {
        let ghost rest = v@.subrange(i as int, v@.len() as int);
        let ghost out0 = out@;
        if chars_match_at(&v, &p, i) {
            assert(rest.subrange(0, p@.len() as int) == p@);
            assert(rest.subrange(p@.len() as int, rest.len() as int)
                == v@.subrange(i + p@.len(), v@.len() as int));
            push_str(&mut out, rep);
            i = i + p.len();
            assert(out@ == out0 + rep@);
        } else {
            if v.len() - i >= p.len() {
                assert(rest.subrange(0, p@.len() as int) == v@.subrange(i as int, i + p@.len()));
                assert(rest.drop_first() == v@.subrange(i + 1, v@.len() as int));
                push_char(&mut out, v[i]);
                i = i + 1;
                assert(out@ == out0 + seq![v@[i - 1]]);
            } else {
                let tail = string_from_chars(&v, i, v.len());
                push_str(&mut out, tail.as_str());
                i = v.len();
                assert(v@.subrange(i as int, v@.len() as int).len() == 0);
            }
        }
    }
    out
}

// ---------------------------------------------------------------------------
// Decimal rendering and padding
// ---------------------------------------------------------------------------

/// The decimal digit for `d` (0 to 9).
pub open spec fn digit_char(d: int) -> char {
    if d == 0 { '0' }
    else if d == 1 { '1' }
    else if d == 2 { '2' }
    else if d == 3 { '3' }
    else if d == 4 { '4' }
    else if d == 5 { '5' }
    else if d == 6 { '6' }
    else if d == 7 { '7' }
    else if d == 8 { '8' }
    else { '9' }
}

/// The decimal digits of `n`, without leading zeros (`"0"` for zero).
pub open spec fn decimal(n: nat) -> Seq<char>
    decreases n,
{
    if n < 10 {
        seq![digit_char(n as int)]
    } else {
        decimal(n / 10).push(digit_char((n % 10) as int))
    }
}

/// The decimal digit for `d`.
pub fn digit(d: u64) -> (c: char)
    requires
        d < 10,
    ensures
        c == digit_char(d as int),
{
    if d == 0 { '0' }
    else if d == 1 { '1' }
    else if d == 2 { '2' }
    else if d == 3 { '3' }
    else if d == 4 { '4' }
    else if d == 5 { '5' }
    else if d == 6 { '6' }
    else if d == 7 { '7' }
    else if d == 8 { '8' }
    else { '9' }
}

/// Renders `n` in decimal, as `format!("{}", n)` does.
pub fn decimal_string(n: u64) -> (s: String)
    ensures
        s@ == decimal(n as nat),
    decreases n,
{
    if n < 10 {
        let mut s = String::new();
        push_char(&mut s, digit(n));
        s
    } else {
        let mut s = decimal_string(n / 10);
        push_char(&mut s, digit(n % 10));
        s
    }
}

/// `n` spaces.
pub open spec fn spaces(n: nat) -> Seq<char> {
    Seq::new(n, |i: int| ' ')
}

/// `s` right-aligned in a field of `width` characters, as `format!("{:>w$}")`
/// does: spaces in front when `s` is shorter than the field.
pub open spec fn pad_left(s: Seq<char>, width: nat) -> Seq<char> {
    if s.len() < width {
        spaces((width - s.len()) as nat) + s
    } else {
        s
    }
}

// ---------------------------------------------------------------------------
// White space
// ---------------------------------------------------------------------------

/// The characters with Unicode's White_Space property, which is what
/// `char::is_whitespace` tests.
pub open spec fn is_white_space(c: char) -> bool {
    ||| '\u{9}' <= c <= '\u{d}'
    ||| c == ' '
    ||| c == '\u{85}'
    ||| c == '\u{a0}'
    ||| c == '\u{1680}'
    ||| '\u{2000}' <= c <= '\u{200a}'
    ||| c == '\u{2028}'
    ||| c == '\u{2029}'
    ||| c == '\u{202f}'
    ||| c == '\u{205f}'
    ||| c == '\u{3000}'
}

/// Whether `c` is white space.
pub fn white_space(c: char) -> (b: bool)
    ensures
        b == is_white_space(c),
{
    ('\u{9}' <= c && c <= '\u{d}') || c == ' ' || c == '\u{85}' || c == '\u{a0}' || c == '\u{1680}'
        || ('\u{2000}' <= c && c <= '\u{200a}') || c == '\u{2028}' || c == '\u{2029}' || c
        == '\u{202f}' || c == '\u{205f}' || c == '\u{3000}'
}

/// `s` without its leading white space.
pub open spec fn trim_start(s: Seq<char>) -> Seq<char>
    decreases s.len(),
{
    if s.len() > 0 && is_white_space(s[0]) {
        trim_start(s.drop_first())
    } else {
        s
    }
}

/// `s` without its trailing white space.
pub open spec fn trim_end(s: Seq<char>) -> Seq<char>
    decreases s.len(),
{
    if s.len() > 0 && is_white_space(s.last()) {
        trim_end(s.drop_last())
    } else {
        s
    }
}

/// `s` without leading and trailing white space, as `str::trim` gives it.
pub open spec fn trim(s: Seq<char>) -> Seq<char> {
    trim_end(trim_start(s))
}

/// Dropping `a` leading white-space characters is what `trim_start` does
/// when the character after them is not white space.
pub proof fn lemma_trim_start_at(s: Seq<char>, a: int)
    requires
        0 <= a <= s.len(),
        forall|k: int| 0 <= k < a ==> is_white_space(#[trigger] s[k]),
        a < s.len() ==> !is_white_space(s[a]),
    ensures
        trim_start(s) == s.subrange(a, s.len() as int),
    decreases a,
{
    if a == 0 {
        assert(s.subrange(0, s.len() as int) == s);
    } else {
        let t = s.drop_first();
        assert forall|k: int| 0 <= k < a - 1 implies is_white_space(#[trigger] t[k]) by {
            assert(t[k] == s[k + 1]);
        }
        lemma_trim_start_at(t, a - 1);
        assert(t.subrange(a - 1, t.len() as int) == s.subrange(a, s.len() as int));
    }
}

/// Trimming the end keeps a first character that is not white space.
pub proof fn lemma_trim_end_keeps_first(s: Seq<char>)
    requires
        s.len() > 0,
        !is_white_space(s[0]),
    ensures
        trim_end(s).len() > 0,
        trim_end(s)[0] == s[0],
    decreases s.len(),
{
    if s.len() > 0 && is_white_space(s.last()) {
        assert(s.len() > 1);
        lemma_trim_end_keeps_first(s.drop_last());
    }
}

/// Trimming the empty sequence gives the empty sequence.
pub proof fn lemma_trim_end_empty(s: Seq<char>)
    requires
        s.len() == 0,
    ensures
        trim_end(s).len() == 0,
{
}

/// Where the trimmed text starts: the index of the first character that is
/// not white space, or the length when there is none.
pub fn first_non_white(v: &Vec<char>) -> (a: usize)
    ensures
        a <= v@.len(),
        forall|k: int| 0 <= k < a ==> is_white_space(#[trigger] v@[k]),
        a < v@.len() ==> !is_white_space(v@[a as int]),
        trim(v@).len() > 0 <==> a < v@.len(),
        a < v@.len() ==> trim(v@)[0] == v@[a as int],
{
    let mut a: usize = 0;
    while a < v.len() && white_space(v[a])
        invariant
            a <= v@.len(),
            forall|k: int| 0 <= k < a ==> is_white_space(#[trigger] v@[k]),
        decreases v@.len() - a,
    {
        a = a + 1;
    }
    proof {
        lemma_trim_start_at(v@, a as int);
        let t = v@.subrange(a as int, v@.len() as int);
        if a < v@.len() {
            assert(t[0] == v@[a as int]);
            lemma_trim_end_keeps_first(t);
        } else {
            lemma_trim_end_empty(t);
        }
    }
    a
}

/// Dropping trailing white-space characters from `b` on is what `trim_end`
/// does when the character before them is not white space.
pub proof fn lemma_trim_end_at(s: Seq<char>, b: int)
    requires
        0 <= b <= s.len(),
        forall|k: int| b <= k < s.len() ==> is_white_space(#[trigger] s[k]),
        b > 0 ==> !is_white_space(s[b - 1]),
    ensures
        trim_end(s) == s.subrange(0, b),
    decreases s.len() - b,
{
    if b == s.len() {
        assert(s.subrange(0, b) == s);
    } else {
        let t = s.drop_last();
        assert forall|k: int| b <= k < t.len() implies is_white_space(#[trigger] t[k]) by {
            assert(t[k] == s[k]);
        }
        lemma_trim_end_at(t, b);
        assert(t.subrange(0, b) == s.subrange(0, b));
        assert(is_white_space(s[s.len() - 1]));
    }
}

/// A copy of `s` without leading and trailing white space (`str::trim`).
pub fn trim_text(s: &str) -> (r: String)
    ensures
        r@ == trim(s@),
{
    let v = chars_of(s);
    let a = first_non_white(&v);
    let mut b = v.len();
    while b > a && white_space(v[b - 1])
        invariant
            a <= b <= v@.len(),
            forall|k: int| b <= k < v@.len() ==> is_white_space(#[trigger] v@[k]),
        decreases b,
    {
        b = b - 1;
    }
    proof {
        lemma_trim_start_at(v@, a as int);
        let t = v@.subrange(a as int, v@.len() as int);
        assert forall|k: int| b - a <= k < t.len() implies is_white_space(#[trigger] t[k]) by {
            assert(t[k] == v@[a + k]);
        }
        if b > a {
            assert(t[b - a - 1] == v@[b - 1]);
        }
        lemma_trim_end_at(t, b - a);
        assert(t.subrange(0, b - a) == v@.subrange(a as int, b as int));
    }
    string_from_chars(&v, a, b)
}

/// The byte length of a text with these characters (its UTF-8 encoding).
pub open spec fn byte_len(s: Seq<char>) -> int {
    vstd::utf8::encode_utf8(s).len() as int
}

/// The byte length of a string slice.
pub fn text_byte_len(s: &str) -> (n: usize)
    ensures
        n == byte_len(s@),
{
    s.as_bytes().len()
}

} // verus!
