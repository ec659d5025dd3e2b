//! G-code editor: syntax tokens for highlighting, the line model of a file
//! with execution tracking, and editing, search and replace on its lines.
//!
//! Positions within a line that the editing operations take and report are
//! byte offsets into the line's UTF-8 text, as `str` indices are; token
//! positions count characters.

use vstd::prelude::*;
use crate::text::{byte_len, decimal, is_white_space, pad_left, push_char, push_str, uppercase, views};

verus! {

#[verifier::external_type_specification]
#[verifier::external_body]
pub struct ExAnyhowError(anyhow::Error);

/// Token types for G-Code syntax highlighting
#[derive(Debug, Clone, Copy, PartialEq, Eq, Structural)]
pub enum TokenType {
    /// G-Code command (G00, G01, etc.)
    GCommand,
    /// M-Code command (M03, M04, etc.)
    MCommand,
    /// Coordinate (X, Y, Z, A, B, C)
    Coordinate,
    /// Parameter (F, S, T, etc.)
    Parameter,
    /// Comment
    Comment,
    /// Whitespace/normal text
    Normal,
}

/// A token in the G-Code file
#[derive(Debug)]
pub struct Token {
    /// Token type
    pub token_type: TokenType,
    /// Token text
    pub text: String,
    /// Starting position in line
    pub start: usize,
    /// Ending position in line
    pub end: usize,
}

impl Clone for Token {
    fn clone(&self) -> (r: Self)
        ensures
            r == *self,
    {
        Token { token_type: self.token_type, text: self.text.clone(), start: self.start, end: self.end }
    }
}

/// A token as plain values: type, text, start and end.
pub open spec fn token_view(t: Token) -> (TokenType, Seq<char>, int, int) {
    (t.token_type, t.text@, t.start as int, t.end as int)
}

/// The class of a token with characters `text`, given its upper-cased
/// characters `u`: by the first upper-cased character, G and M commands,
/// coordinates X Y Z A B C, parameters F S T H P; text that starts with ';'
/// is a comment; anything else (and the empty token) is normal.
pub open spec fn class_from(text: Seq<char>, u: Seq<char>) -> TokenType {
    if text.len() == 0 {
        TokenType::Normal
    } else if u.len() > 0 && u[0] == 'G' {
        TokenType::GCommand
    } else if u.len() > 0 && u[0] == 'M' {
        TokenType::MCommand
    } else if u.len() > 0 && (u[0] == 'X' || u[0] == 'Y' || u[0] == 'Z' || u[0] == 'A' || u[0] == 'B'
        || u[0] == 'C') {
        TokenType::Coordinate
    } else if u.len() > 0 && (u[0] == 'F' || u[0] == 'S' || u[0] == 'T' || u[0] == 'H' || u[0] == 'P') {
        TokenType::Parameter
    } else if text[0] == ';' {
        TokenType::Comment
    } else {
        TokenType::Normal
    }
}

/// The class of a token: `class_from` its text and its upper-cased text.
pub open spec fn token_class(text: Seq<char>) -> TokenType {
    class_from(text, uppercase(text))
}

/// A non-empty token is classified by the first character of its
/// upper-cased text: G gives a G command, M an M command, X, Y, Z, A, B or C
/// a coordinate, F, S, T, H or P a parameter; otherwise a token starting
/// with ';' is a comment and any other is normal text. The empty token is
/// normal text.
pub proof fn law_class_by_first_letter(text: Seq<char>, u: Seq<char>)
    ensures
        text.len() == 0 ==> class_from(text, u) == TokenType::Normal,
        text.len() > 0 && u.len() > 0 && u[0] == 'G' ==> class_from(text, u) == TokenType::GCommand,
        text.len() > 0 && u.len() > 0 && u[0] == 'M' ==> class_from(text, u) == TokenType::MCommand,
        text.len() > 0 && u.len() > 0 && (u[0] == 'X' || u[0] == 'Y' || u[0] == 'Z' || u[0] == 'A' || u[0]
            == 'B' || u[0] == 'C') ==> class_from(text, u) == TokenType::Coordinate,
        text.len() > 0 && u.len() > 0 && (u[0] == 'F' || u[0] == 'S' || u[0] == 'T' || u[0] == 'H' || u[0]
            == 'P') ==> class_from(text, u) == TokenType::Parameter,
        text.len() > 0 && (u.len() == 0 || !(u[0] == 'G' || u[0] == 'M' || u[0] == 'X' || u[0] == 'Y' || u[0]
            == 'Z' || u[0] == 'A' || u[0] == 'B' || u[0] == 'C' || u[0] == 'F' || u[0] == 'S' || u[0] == 'T'
            || u[0] == 'H' || u[0] == 'P')) ==> class_from(text, u) == if text[0] == ';' {
            TokenType::Comment
        } else {
            TokenType::Normal
        },
        class_from(text, uppercase(text)) == token_class(text),
{
}

/// The index of the first ';' at or after `i`, or the length.
pub open spec fn comment_start(s: Seq<char>, i: int) -> int
    decreases s.len() - i,
{
    if i < 0 || i >= s.len() {
        s.len() as int
    } else if s[i] == ';' {
        i
    } else {
        comment_start(s, i + 1)
    }
}

/// Where the run of characters that are not white space starting at `i`
/// ends.
pub open spec fn run_end(s: Seq<char>, i: int) -> int
    decreases s.len() - i,
{
    if i < 0 || i >= s.len() || is_white_space(s[i]) {
        i
    } else {
        run_end(s, i + 1)
    }
}

/// A run that starts at `i` ends at or after it, and at most at the end.
pub proof fn lemma_run_end(s: Seq<char>, i: int)
    requires
        0 <= i <= s.len(),
    ensures
        i <= run_end(s, i) <= s.len(),
        i < s.len() && !is_white_space(s[i]) ==> run_end(s, i) > i,
    decreases s.len() - i,
{
    if i < s.len() && !is_white_space(s[i]) {
        lemma_run_end(s, i + 1);
    }
}

/// The (start, end) character spans of the maximal runs of characters that
/// are not white space, from `i` on.
pub open spec fn word_spans(s: Seq<char>, i: int) -> Seq<(int, int)>
    decreases s.len() - i,
{
    if i < 0 || i >= s.len() {
        Seq::empty()
    } else if is_white_space(s[i]) {
        word_spans(s, i + 1)
    } else {
        let e = run_end(s, i);
        if i < e <= s.len() {
            seq![(i, e)] + word_spans(s, e)
        } else {
            Seq::empty()
        }
    }
}

/// No character of `s` in `[a, b)` is white space.
pub open spec fn no_white_in(s: Seq<char>, a: int, b: int) -> bool {
    forall|j: int| a <= j < b ==> !is_white_space(#[trigger] s[j])
}

/// A run ends at the end of the text or at a white-space character, and
/// holds none before that.
proof fn lemma_run_end_shape(s: Seq<char>, i: int)
    requires
        0 <= i <= s.len(),
    ensures
        no_white_in(s, i, run_end(s, i)),
        run_end(s, i) == s.len() || is_white_space(s[run_end(s, i)]),
    decreases s.len() - i,
{
    lemma_run_end(s, i);
    if i < s.len() && !is_white_space(s[i]) {
        lemma_run_end_shape(s, i + 1);
    }
}

/// The spans from `i` on are the maximal runs of characters that are not
/// white space at or after `i`, in order and apart from each other, and
/// every such character lies in one of them.
proof fn lemma_word_spans(s: Seq<char>, i: int)
    requires
        0 <= i <= s.len(),
    ensures
        forall|k: int|
            0 <= k < word_spans(s, i).len() ==> {
                let sp = #[trigger] word_spans(s, i)[k];
                &&& i <= sp.0 < sp.1 <= s.len()
                &&& no_white_in(s, sp.0, sp.1)
                &&& sp.0 == i || is_white_space(s[sp.0 - 1])
                &&& sp.1 == s.len() || is_white_space(s[sp.1])
            },
        forall|k: int|
            0 <= k < word_spans(s, i).len() - 1 ==> (#[trigger] word_spans(s, i)[k]).1 < word_spans(s, i)[k
                + 1].0,
        forall|p: int|
            i <= p < s.len() && !is_white_space(#[trigger] s[p]) ==> exists|k: int|
                #![trigger word_spans(s, i)[k]]
                0 <= k < word_spans(s, i).len() && word_spans(s, i)[k].0 <= p < word_spans(s, i)[k].1,
    decreases s.len() - i,
{
    let w = word_spans(s, i);
    if i < s.len() {
        if is_white_space(s[i]) {
            lemma_word_spans(s, i + 1);
            assert(w == word_spans(s, i + 1));
            assert forall|p: int| i <= p < s.len() && !is_white_space(#[trigger] s[p]) implies exists|k: int|
                #![trigger w[k]]
                0 <= k < w.len() && w[k].0 <= p < w[k].1 by {
                assert(p != i);
            }
        } else {
            let e = run_end(s, i);
            lemma_run_end(s, i);
            lemma_run_end_shape(s, i);
            lemma_word_spans(s, e);
            let rest = word_spans(s, e);
            assert(w == seq![(i, e)] + rest);
            assert forall|k: int| 0 <= k < w.len() implies {
                let sp = #[trigger] w[k];
                &&& i <= sp.0 < sp.1 <= s.len()
                &&& no_white_in(s, sp.0, sp.1)
                &&& sp.0 == i || is_white_space(s[sp.0 - 1])
                &&& sp.1 == s.len() || is_white_space(s[sp.1])
            } by {
                if k > 0 {
                    assert(w[k] == rest[k - 1]);
                }
            }
            assert forall|k: int| 0 <= k < w.len() - 1 implies (#[trigger] w[k]).1 < w[k + 1].0 by {
                assert(w[k + 1] == rest[k]);
                if k > 0 {
                    assert(w[k] == rest[k - 1]);
                } else {
                    let sp = rest[0];
                    assert(no_white_in(s, sp.0, sp.1));
                    assert(!is_white_space(s[sp.0]));
                }
            }
            assert forall|p: int| i <= p < s.len() && !is_white_space(#[trigger] s[p]) implies exists|k: int|
                #![trigger w[k]]
                0 <= k < w.len() && w[k].0 <= p < w[k].1 by {
                if p < e {
                    assert(w[0].0 <= p < w[0].1);
                } else {
                    let k = choose|k: int| #![trigger rest[k]] 0 <= k < rest.len() && rest[k].0 <= p < rest[k].1;
                    assert(w[k + 1] == rest[k]);
                }
            }
        }
    }
}

/// The tokens of a line: up to the first ';' (or the end) come the maximal
/// runs of characters that are not white space, in order, each with its own
/// text and character span and classified by its text, none of them a
/// comment; the span of the last one ends at the line's byte length when
/// it reaches the end of a line without a comment. When there is a ';', one
/// more token follows: the comment, from the ';' to the end of the line.
pub proof fn law_tokens_of_line(s: Seq<char>, b: int)
    ensures
        ({
            let c = comment_start(s, 0);
            let w = word_spans(s.take(c), 0);
            let ts = line_tokens(s, b);
            &&& 0 <= c <= s.len()
            &&& forall|j: int| 0 <= j < c ==> #[trigger] s[j] != ';'
            &&& c < s.len() ==> s[c] == ';'
            &&& ts.len() == w.len() + if c < s.len() { 1int } else { 0int }
            &&& forall|k: int|
                0 <= k < w.len() ==> {
                    let sp = #[trigger] w[k];
                    &&& 0 <= sp.0 < sp.1 <= c
                    &&& no_white_in(s, sp.0, sp.1)
                    &&& sp.0 == 0 || is_white_space(s[sp.0 - 1])
                    &&& sp.1 == c || is_white_space(s[sp.1])
                    &&& ts[k].1 == s.subrange(sp.0, sp.1)
                    &&& ts[k].0 == token_class(ts[k].1)
                    &&& ts[k].0 != TokenType::Comment
                    &&& ts[k].2 == sp.0
                    &&& ts[k].3 == if c == s.len() && k == w.len() - 1 && sp.1 == s.len() { b } else { sp.1 }
                }
            &&& forall|k: int| 0 <= k < w.len() - 1 ==> (#[trigger] w[k]).1 < w[k + 1].0
            &&& forall|p: int|
                0 <= p < c && !is_white_space(#[trigger] s[p]) ==> exists|k: int|
                    #![trigger w[k]]
                    0 <= k < w.len() && w[k].0 <= p < w[k].1
            &&& c < s.len() ==> ts.last() == (TokenType::Comment, s.skip(c), c, b)
        }),
{
    let c = comment_start(s, 0);
    lemma_comment_start(s, 0);
    let code = s.take(c);
    lemma_word_spans(code, 0);
    let w = word_spans(code, 0);
    let words = word_tokens(code, w);
    let ts = line_tokens(s, b);
    assert forall|k: int| 0 <= k < w.len() implies {
        let sp = #[trigger] w[k];
        &&& 0 <= sp.0 < sp.1 <= c
        &&& no_white_in(s, sp.0, sp.1)
        &&& sp.0 == 0 || is_white_space(s[sp.0 - 1])
        &&& sp.1 == c || is_white_space(s[sp.1])
        &&& ts[k].1 == s.subrange(sp.0, sp.1)
        &&& ts[k].0 == token_class(ts[k].1)
        &&& ts[k].0 != TokenType::Comment
        &&& ts[k].2 == sp.0
        &&& ts[k].3 == if c == s.len() && k == w.len() - 1 && sp.1 == s.len() { b } else { sp.1 }
    } by {
        let sp = w[k];
        assert(words[k] == word_token(code, sp));
        assert(code.subrange(sp.0, sp.1) =~= s.subrange(sp.0, sp.1));
        assert forall|j: int| sp.0 <= j < sp.1 implies !is_white_space(#[trigger] s[j]) by {
            assert(code[j] == s[j]);
            assert(!is_white_space(code[j]));
        }
        if sp.0 > 0 {
            assert(code[sp.0 - 1] == s[sp.0 - 1]);
        }
        if sp.1 < c {
            assert(code[sp.1] == s[sp.1]);
        }
        assert(s.subrange(sp.0, sp.1)[0] == s[sp.0]);
        assert(s[sp.0] != ';');
    }
    assert forall|p: int| 0 <= p < c && !is_white_space(#[trigger] s[p]) implies exists|k: int|
        #![trigger w[k]]
        0 <= k < w.len() && w[k].0 <= p < w[k].1 by {
        assert(code[p] == s[p]);
    }
}

/// On a line whose byte length is its character count (an ASCII line), the
/// token of each maximal run of characters that are not white space before
/// the first ';' is exactly (its class, the run, its start, its end), and a
/// comment, when there is a ';', runs from it to the end of the line.
pub proof fn law_tokens_of_ascii_line(s: Seq<char>)
    requires
        byte_len(s) == s.len(),
    ensures
        ({
            let c = comment_start(s, 0);
            let w = word_spans(s.take(c), 0);
            let ts = line_tokens(s, byte_len(s));
            &&& ts.len() == w.len() + if c < s.len() { 1int } else { 0int }
            &&& forall|k: int|
                0 <= k < w.len() ==> #[trigger] ts[k] == (
                    token_class(s.subrange(w[k].0, w[k].1)),
                    s.subrange(w[k].0, w[k].1),
                    w[k].0,
                    w[k].1,
                )
            &&& c < s.len() ==> ts.last() == (TokenType::Comment, s.skip(c), c, s.len() as int)
        }),
{
    law_tokens_of_line(s, byte_len(s));
    let c = comment_start(s, 0);
    let w = word_spans(s.take(c), 0);
    let ts = line_tokens(s, byte_len(s));
    assert forall|k: int| 0 <= k < w.len() implies #[trigger] ts[k] == (
        token_class(s.subrange(w[k].0, w[k].1)),
        s.subrange(w[k].0, w[k].1),
        w[k].0,
        w[k].1,
    ) by {
        let sp = w[k];
        assert(ts[k].3 == if c == s.len() && k == w.len() - 1 && sp.1 == s.len() { byte_len(s) } else { sp.1 });
    }
}

/// `comment_start` from 0 is the first ';', or the length when there is none.
proof fn lemma_comment_start(s: Seq<char>, i: int)
    requires
        0 <= i <= s.len(),
        forall|j: int| 0 <= j < i ==> s[j] != ';',
    ensures
        i <= comment_start(s, i) <= s.len(),
        forall|j: int| 0 <= j < comment_start(s, i) ==> #[trigger] s[j] != ';',
        comment_start(s, i) < s.len() ==> s[comment_start(s, i)] == ';',
    decreases s.len() - i,
{
    if i < s.len() && s[i] != ';' {
        lemma_comment_start(s, i + 1);
    }
}

/// The token for the word at span `sp` of `code`.
pub open spec fn word_token(code: Seq<char>, sp: (int, int)) -> (TokenType, Seq<char>, int, int) {
    (token_class(code.subrange(sp.0, sp.1)), code.subrange(sp.0, sp.1), sp.0, sp.1)
}

/// The tokens for the words at `spans` of `code`.
pub open spec fn word_tokens(code: Seq<char>, spans: Seq<(int, int)>) -> Seq<(TokenType, Seq<char>, int, int)> {
    spans.map_values(|sp: (int, int)| word_token(code, sp))
}

/// The tokens of a line with characters `s` and `byte_len` bytes: the words
/// before the first ';' (maximal runs of characters that are not white
/// space), each classified, then the comment from the ';' to the end. Start
/// and end are character indices, except that the last token ends at the
/// line's byte length when it reaches the end of the line.
pub open spec fn line_tokens(s: Seq<char>, byte_len: int) -> Seq<(TokenType, Seq<char>, int, int)> {
    let c = comment_start(s, 0);
    let code = s.take(c);
    let words = word_tokens(code, word_spans(code, 0));
    if c < s.len() {
        words.push((TokenType::Comment, s.skip(c), c, byte_len))
    } else if words.len() > 0 && words.last().3 == s.len() {
        words.update(words.len() - 1, (words.last().0, words.last().1, words.last().2, byte_len))
    } else {
        words
    }
}

/// Represents a single line in the G-Code file
#[derive(Debug)]
pub struct GcodeLine {
    /// Line number (1-indexed)
    pub line_number: usize,
    /// Raw text of the line
    pub text: String,
    /// Parsed tokens
    pub tokens: Vec<Token>,
    /// Whether this line has been executed
    pub executed: bool,
    /// Whether this is the current line
    pub is_current: bool,
}

impl GcodeLine {
    /// The tokens are those of the text.
    pub open spec fn tokens_match(self) -> bool {
        self.tokens@.map_values(|t: Token| token_view(t)) == line_tokens(self.text@, byte_len(self.text@))
    }

    /// Create a new G-Code line
    pub fn new(line_number: usize, text: String) -> (l: Self)
        ensures
            l.line_number == line_number,
            l.text == text,
            l.tokens_match(),
            !l.executed,
            !l.is_current,
    {
        let tokens = Self::tokenize(text.as_str());
        GcodeLine { line_number, text, tokens, executed: false, is_current: false }
    }

    /// Classify a token based on its content
    pub fn classify_token(text: &str) -> (t: TokenType)
        ensures
            t == token_class(text@),
    {
        if text.is_empty() {
            return TokenType::Normal;
        }
        let upper = crate::text::to_uppercase(text);
        Self::classify_upper(text, upper.as_str())
    }

    /// The class of a token with text `text` whose upper-cased text is
    /// `upper`.
    pub fn classify_upper(text: &str, upper: &str) -> (t: TokenType)
        ensures
            t == class_from(text@, upper@),
    {
        let t = crate::text::chars_of(text);
        if t.len() == 0 {
            return TokenType::Normal;
        }
        let u = crate::text::chars_of(upper);
        if u.len() > 0 && u[0] == 'G' {
            TokenType::GCommand
        } else if u.len() > 0 && u[0] == 'M' {
            TokenType::MCommand
        } else if u.len() > 0 && (u[0] == 'X' || u[0] == 'Y' || u[0] == 'Z' || u[0] == 'A' || u[0]
            == 'B' || u[0] == 'C') {
            TokenType::Coordinate
        } else if u.len() > 0 && (u[0] == 'F' || u[0] == 'S' || u[0] == 'T' || u[0] == 'H' || u[0]
            == 'P') {
            TokenType::Parameter
        } else if t[0] == ';' {
            TokenType::Comment
        } else {
            TokenType::Normal
        }
    }

    /// Tokenize the line for syntax highlighting
    pub fn tokenize(text: &str) -> (tokens: Vec<Token>)
        ensures
            tokens@.map_values(|t: Token| token_view(t)) == line_tokens(text@, byte_len(text@)),
    {
        let v = crate::text::chars_of(text);
        let n = v.len();
        // where the comment starts
        let mut c: usize = 0;
        while c < n && v[c] != ';'
            invariant
                c <= n == v@.len(),
                comment_start(v@, 0) == comment_start(v@, c as int),
            decreases n - c,
        {
            c = c + 1;
        }
        let ghost code = v@.take(c as int);
        let ghost spans = word_spans(code, 0);
        let mut tokens: Vec<Token> = Vec::new();
        let ghost mut done: Seq<(int, int)> = Seq::empty();
        let mut i: usize = 0;
        while i < c
            invariant
                c <= n == v@.len(),
                code == v@.take(c as int),
                i <= c,
                spans == word_spans(code, 0),
                spans == done + word_spans(code, i as int),
                tokens@.map_values(|t: Token| token_view(t)) == word_tokens(code, done),
                forall|k: int| 0 <= k < done.len() ==> 0 <= #[trigger] done[k].0 < done[k].1 <= i,
            decreases c - i,
        {
            if crate::text::white_space(v[i]) {
                i = i + 1;
            } else {
                let start = i;
                while i < c && !crate::text::white_space(v[i])
                    invariant
                        c <= n == v@.len(),
                        code == v@.take(c as int),
                        start <= i <= c,
                        start < c,
                        !is_white_space(code[start as int]),
                        run_end(code, start as int) == run_end(code, i as int),
                    decreases c - i,
                {
                    i = i + 1;
                }
                proof {
                    lemma_run_end(code, start as int);
                    assert(run_end(code, i as int) == i);
                }
                let word = crate::text::string_from_chars(&v, start, i);
                let kind = Self::classify_token(word.as_str());
                proof {
                    assert(v@.subrange(start as int, i as int) == code.subrange(start as int, i as int));
                }
                let tok = Token { token_type: kind, text: word, start, end: i };
                proof {
                    assert(token_view(tok) == word_token(code, (start as int, i as int)));
                    assert(tokens@.push(tok).map_values(|t: Token| token_view(t))
                        == tokens@.map_values(|t: Token| token_view(t)).push(token_view(tok)));
                    assert(word_tokens(code, done.push((start as int, i as int)))
                        =~= word_tokens(code, done).push(word_token(code, (start as int, i as int))));
                    assert(word_spans(code, start as int) == seq![(start as int, i as int)] + word_spans(code, i as int));
                    assert(done + word_spans(code, start as int) == done.push((start as int, i as int))
                        + word_spans(code, i as int));
                    done = done.push((start as int, i as int));
                }
                tokens.push(tok);
            }
        }
        proof {
            assert(word_spans(code, i as int) =~= Seq::<(int, int)>::empty());
            assert(done == spans);
            assert(comment_start(v@, 0) == c);
            assert(tokens@.map_values(|t: Token| token_view(t)) == word_tokens(code, spans));
        }
        let blen = crate::text::text_byte_len(text);
        if c < n {
            let comment = crate::text::string_from_chars(&v, c, n);
            let tok = Token { token_type: TokenType::Comment, text: comment, start: c, end: blen };
            proof {
                assert(tokens@.push(tok).map_values(|t: Token| token_view(t))
                    == tokens@.map_values(|t: Token| token_view(t)).push(token_view(tok)));
                assert(v@.subrange(c as int, n as int) == v@.skip(c as int));
            }
            tokens.push(tok);
        } else if tokens.len() > 0 && tokens[tokens.len() - 1].end == n {
            let last = tokens.len() - 1;
            let old_tok = tokens[last].clone();
            let tok = Token { token_type: old_tok.token_type, text: old_tok.text, start: old_tok.start, end: blen };
            tokens.set(last, tok);
            proof {
                assert(tokens@.map_values(|t: Token| token_view(t))
                    =~= word_tokens(code, done).update(last as int, token_view(tok)));
            }
        }
        tokens
    }
}

/// `l` is line `number` of a freshly loaded file with text `text`: its tokens
/// are those of the text and it is neither executed nor current.
pub open spec fn fresh_line(l: GcodeLine, number: int, text: Seq<char>) -> bool {
    &&& l.line_number == number
    &&& l.text@ == text
    &&& l.tokens_match()
    &&& !l.executed
    &&& !l.is_current
}

/// `lines` with line `k` (0-based) marked executed.
pub open spec fn with_executed(lines: Seq<GcodeLine>, k: int) -> Seq<GcodeLine> {
    lines.update(k, GcodeLine { executed: true, ..lines[k] })
}

/// `lines` with the current-line mark of line `k` (0-based) set to `flag`.
pub open spec fn with_current_flag(lines: Seq<GcodeLine>, k: int, flag: bool) -> Seq<GcodeLine> {
    lines.update(k, GcodeLine { is_current: flag, ..lines[k] })
}

/// `lines` after the current-line mark moved from line `cur` to line `n`
/// (1-based): the mark of line `cur` is cleared when `cur` names a line, and
/// line `n` is marked when `n` names a line.
pub open spec fn with_current_moved(lines: Seq<GcodeLine>, cur: int, n: int) -> Seq<GcodeLine> {
    let cleared = if in_range(cur, lines.len() as int) {
        with_current_flag(lines, cur - 1, false)
    } else {
        lines
    };
    if in_range(n, lines.len() as int) {
        with_current_flag(cleared, n - 1, true)
    } else {
        cleared
    }
}

/// Only the line that `cur` (1-based) names may carry the current-line mark.
pub open spec fn current_marks(lines: Seq<GcodeLine>, cur: int) -> bool {
    forall|i: int| 0 <= i < lines.len() && (#[trigger] lines[i]).is_current ==> i + 1 == cur
}

/// When only the current line carries the current-line mark, setting the
/// current line to a line of the file leaves exactly that line marked.
pub proof fn law_current_line_marked_alone(lines: Seq<GcodeLine>, cur: int, n: int)
    requires
        current_marks(lines, cur),
        in_range(n, lines.len() as int),
    ensures
        forall|i: int|
            0 <= i < lines.len() ==> ((#[trigger] with_current_moved(lines, cur, n)[i]).is_current <==> i == n - 1),
        current_marks(with_current_moved(lines, cur, n), n),
{
}

/// Freshly loaded lines carry no current-line mark.
pub proof fn law_loaded_lines_unmarked(lines: Seq<GcodeLine>, texts: Seq<Seq<char>>, cur: int)
    requires
        lines.len() == texts.len(),
        forall|i: int| 0 <= i < lines.len() ==> fresh_line(#[trigger] lines[i], i + 1, texts[i]),
    ensures
        current_marks(lines, cur),
{
    assert forall|i: int| 0 <= i < lines.len() && (#[trigger] lines[i]).is_current implies i + 1 == cur by {
        assert(fresh_line(lines[i], i + 1, texts[i]));
    }
}

/// The line number `n` (1-based) names one of `len` lines.
pub open spec fn in_range(n: int, len: int) -> bool {
    0 < n && n <= len
}

/// The marker shown before a line: a triangle for the current line, a check
/// mark for an executed one, blanks otherwise.
pub open spec fn line_marker(l: GcodeLine) -> Seq<char> {
    if l.is_current {
        seq!['\u{25b6}', ' ']
    } else if l.executed {
        seq!['\u{2713}', ' ']
    } else {
        seq![' ', ' ']
    }
}

/// One displayed row: the line number right-aligned to `width`, " | ", the
/// marker, the text and a newline.
pub open spec fn display_row(l: GcodeLine, width: nat) -> Seq<char> {
    pad_left(decimal(l.line_number as nat), width) + seq![' ', '|', ' '] + line_marker(l) + l.text@ + seq!['\n']
}

/// The rows of `lines`, concatenated.
pub open spec fn display_rows(lines: Seq<GcodeLine>, width: nat) -> Seq<char>
    decreases lines.len(),
{
    if lines.len() == 0 {
        Seq::empty()
    } else {
        display_rows(lines.drop_last(), width) + display_row(lines.last(), width)
    }
}

/// The texts of `lines` joined with newlines.
pub open spec fn joined_texts(lines: Seq<GcodeLine>) -> Seq<char>
    decreases lines.len(),
{
    if lines.len() == 0 {
        Seq::empty()
    } else if lines.len() == 1 {
        lines[0].text@
    } else {
        joined_texts(lines.drop_last()) + seq!['\n'] + lines.last().text@
    }
}

/// G-Code file content manager
pub struct GcodeFile {
    /// File path
    pub path: Option<String>,
    /// All lines in the file
    lines: Vec<GcodeLine>,
    /// Current line number (0-indexed)
    current_line: usize,
}

impl GcodeFile {
    /// The lines of the file.
    pub closed spec fn spec_lines(self) -> Seq<GcodeLine> {
        self.lines@
    }

    /// The path of the file.
    pub closed spec fn spec_path(self) -> Option<String> {
        self.path
    }

    /// The number of the current line (0 when there is none).
    pub closed spec fn spec_current_line(self) -> usize {
        self.current_line
    }

    /// Create a new empty G-Code file
    pub fn new() -> (f: Self)
        ensures
            f.spec_path() is None,
            f.spec_lines().len() == 0,
            f.spec_current_line() == 0,
    {
        GcodeFile { path: None, lines: Vec::new(), current_line: 0 }
    }

    /// Load content from a string
    pub fn load_content(&mut self, content: &str)
        ensures
            final(self).spec_lines().len() == crate::text::lines_of(content@).len(),
            forall|i: int|
                0 <= i < final(self).spec_lines().len() ==> fresh_line(
                    #[trigger] final(self).spec_lines()[i],
                    i + 1,
                    crate::text::lines_of(content@)[i],
                ),
            final(self).spec_path() == old(self).spec_path(),
            final(self).spec_current_line() == old(self).spec_current_line(),
    {
        self.lines.clear();
        let texts = crate::text::split_lines(content);
        let ghost lv = views(texts@);
        let mut idx: usize = 0;
        while idx < texts.len()
            invariant
                idx <= texts@.len(),
                lv == views(texts@),
                lv == crate::text::lines_of(content@),
                self.lines@.len() == idx,
                forall|i: int| 0 <= i < idx ==> fresh_line(#[trigger] self.lines@[i], i + 1, lv[i]),
                self.path == old(self).path,
                self.current_line == old(self).current_line,
            decreases texts@.len() - idx,
        {
            let line = GcodeLine::new(idx + 1, texts[idx].clone());
            self.lines.push(line);
            idx = idx + 1;
        }
    }

    /// Get all lines
    pub fn get_lines(&self) -> (r: &[GcodeLine])
        ensures
            r@ == self.spec_lines(),
    {
        self.lines.as_slice()
    }

    /// Get a mutable reference to all lines
    pub fn get_lines_mut(&mut self) -> (r: &mut [GcodeLine])
        ensures
            r@ == old(self).spec_lines(),
            final(self).spec_lines() == final(r)@,
            final(self).spec_path() == old(self).spec_path(),
            final(self).spec_current_line() == old(self).spec_current_line(),
    {
        self.lines.as_mut_slice()
    }

    /// Get a specific line
    pub fn get_line(&self, line_number: usize) -> (r: Option<&GcodeLine>)
        ensures
            in_range(line_number as int, self.spec_lines().len() as int) ==> r == Some(
                &self.spec_lines()[line_number - 1],
            ),
            !in_range(line_number as int, self.spec_lines().len() as int) ==> r is None,
    {
        if line_number > 0 && line_number <= self.lines.len() {
            Some(&self.lines[line_number - 1])
        } else {
            None
        }
    }

    /// Mark a line as executed
    pub fn mark_executed(&mut self, line_number: usize)
        ensures
            final(self).spec_lines() == if in_range(line_number as int, old(self).spec_lines().len() as int) {
                with_executed(old(self).spec_lines(), line_number - 1)
            } else {
                old(self).spec_lines()
            },
            final(self).spec_path() == old(self).spec_path(),
            final(self).spec_current_line() == old(self).spec_current_line(),
    {
        if line_number > 0 && line_number <= self.lines.len() {
            let k = line_number - 1;
            self.lines[k].executed = true;
            proof {
                assert(self.lines@ =~= with_executed(old(self).lines@, k as int));
            }
        }
    }

    /// Sets the current-line mark of line `k` (0-based).
    fn set_current_flag(&mut self, k: usize, flag: bool)
        requires
            k < old(self).lines@.len(),
        ensures
            final(self).lines@ == with_current_flag(old(self).lines@, k as int, flag),
            final(self).spec_path() == old(self).spec_path(),
            final(self).current_line == old(self).current_line,
    {
        self.lines[k].is_current = flag;
        proof {
            assert(self.lines@ =~= with_current_flag(old(self).lines@, k as int, flag));
        }
    }

    /// Set the current line
    pub fn set_current_line(&mut self, line_number: usize)
        ensures
            final(self).spec_lines() == with_current_moved(
                old(self).spec_lines(),
                old(self).spec_current_line() as int,
                line_number as int,
            ),
            final(self).spec_current_line() == if in_range(line_number as int, old(self).spec_lines().len() as int) {
                line_number
            } else {
                old(self).spec_current_line()
            },
            final(self).spec_path() == old(self).spec_path(),
    {
        if self.current_line > 0 && self.current_line <= self.lines.len() {
            let k = self.current_line - 1;
            self.set_current_flag(k, false);
        }
        if line_number > 0 && line_number <= self.lines.len() {
            self.set_current_flag(line_number - 1, true);
            self.current_line = line_number;
        }
    }

    /// Get the current line number
    pub fn get_current_line(&self) -> (n: usize)
        ensures
            n == self.spec_current_line(),
    {
        self.current_line
    }

    /// Clear all execution state
    pub fn clear_execution_state(&mut self)
        ensures
            final(self).spec_lines().len() == old(self).spec_lines().len(),
            forall|i: int|
                0 <= i < final(self).spec_lines().len() ==> #[trigger] final(self).spec_lines()[i]
                    == (GcodeLine { executed: false, is_current: false, ..old(self).spec_lines()[i] }),
            final(self).spec_current_line() == 0,
            final(self).spec_path() == old(self).spec_path(),
    {
        let mut k: usize = 0;
        while k < self.lines.len()
            invariant
                k <= self.lines@.len(),
                self.lines@.len() == old(self).lines@.len(),
                forall|i: int|
                    0 <= i < k ==> #[trigger] self.lines@[i] == (GcodeLine {
                        executed: false,
                        is_current: false,
                        ..old(self).lines@[i]
                    }),
                forall|i: int| k <= i < self.lines@.len() ==> #[trigger] self.lines@[i] == old(self).lines@[i],
                self.path == old(self).path,
            decreases self.lines@.len() - k,
        {
            self.lines[k].executed = false;
            self.lines[k].is_current = false;
            k = k + 1;
        }
        self.current_line = 0;
    }

    /// Get content as a formatted string with line numbers and styling
    #[verifier::spinoff_prover]
    #[verifier::rlimit(40)]
    pub fn get_formatted_content(&self) -> (s: String)
        ensures
            s@ == display_rows(self.spec_lines(), decimal(self.spec_lines().len()).len()),
    {
        let count = crate::text::decimal_string(self.lines.len() as u64);
        let width = crate::text::chars_of(count.as_str()).len();
        let mut output = String::new();
        let mut i: usize = 0;
        while i < self.lines.len()
            invariant
                i <= self.lines@.len(),
                width == decimal(self.lines@.len() as nat).len(),
                output@ == display_rows(self.lines@.take(i as int), width as nat),
            decreases self.lines@.len() - i,
        {
            let line = &self.lines[i];
            proof {
                assert(self.lines@.take(i + 1).drop_last() == self.lines@.take(i as int));
            }
            let ghost before = output@;
            let number = crate::text::decimal_string(line.line_number as u64);
            let nlen = crate::text::chars_of(number.as_str()).len();
            let mut pad = nlen;
            while pad < width
                invariant
                    nlen <= pad <= width || (pad == nlen && nlen >= width),
                    output@ == before + crate::text::spaces((pad - nlen) as nat),
                decreases width - pad,
            {
                push_char(&mut output, ' ');
                proof {
                    assert(crate::text::spaces((pad + 1 - nlen) as nat)
                        =~= crate::text::spaces((pad - nlen) as nat).push(' '));
                }
                pad = pad + 1;
            }
            push_str(&mut output, number.as_str());
            proof {
                let p = pad_left(decimal(line.line_number as nat), width as nat);
                if nlen < width {
                    assert(output@ == before + p);
                } else {
                    assert(crate::text::spaces(0) =~= Seq::<char>::empty());
                    assert(output@ =~= before + p);
                }
            }
            push_str(&mut output, " | ");
            if line.is_current {
                push_str(&mut output, "\u{25b6} ");
            } else if line.executed {
                push_str(&mut output, "\u{2713} ");
            } else {
                push_str(&mut output, "  ");
            }
            push_str(&mut output, line.text.as_str());
            push_char(&mut output, '\n');
            proof {
                reveal_strlit(" | ");
                reveal_strlit("\u{25b6} ");
                reveal_strlit("\u{2713} ");
                reveal_strlit("  ");
                assert(output@ =~= before + display_row(*line, width as nat));
            }
            i = i + 1;
        }
        proof {
            assert(self.lines@.take(self.lines@.len() as int) == self.lines@);
        }
        output
    }

    /// Get plain text content (without line numbers or markers)
    pub fn get_plain_content(&self) -> (s: String)
        ensures
            s@ == joined_texts(self.spec_lines()),
    {
        let mut out = String::new();
        let mut i: usize = 0;
        while i < self.lines.len()
            invariant
                i <= self.lines@.len(),
                out@ == joined_texts(self.lines@.take(i as int)),
            decreases self.lines@.len() - i,
        {
            proof {
                assert(self.lines@.take(i + 1).drop_last() == self.lines@.take(i as int));
                if i == 0 {
                    assert(self.lines@.take(1) =~= seq![self.lines@[0]]);
                }
            }
            if i > 0 {
                push_char(&mut out, '\n');
            }
            push_str(&mut out, self.lines[i].text.as_str());
            i = i + 1;
        }
        proof {
            assert(self.lines@.take(self.lines@.len() as int) == self.lines@);
        }
        out
    }
}

impl Default for GcodeFile {
    fn default() -> (f: Self)
        ensures
            f.spec_path() is None,
            f.spec_lines().len() == 0,
            f.spec_current_line() == 0,
    {
        Self::new()
    }
}

/// The positions (ascending, byte offsets from `i` on) at which `q` occurs in
/// `t`, overlapping occurrences included.
pub open spec fn occurrences_from(t: Seq<u8>, q: Seq<u8>, i: int) -> Seq<int>
    decreases t.len() + 1 - i,
{
    if i < 0 || i > t.len() {
        Seq::empty()
    } else if crate::text::occurs_at(t, q, i) {
        seq![i] + occurrences_from(t, q, i + 1)
    } else {
        occurrences_from(t, q, i + 1)
    }
}

/// The UTF-8 bytes of the lower-cased text.
pub open spec fn lower_bytes(s: Seq<char>) -> Seq<u8> {
    vstd::utf8::encode_utf8(crate::text::lowercase(s))
}

/// The search hits in one line: (line number, byte offset in the lower-cased
/// line) for each occurrence of the lower-cased query.
pub open spec fn line_hits(l: GcodeLine, query: Seq<char>) -> Seq<(usize, usize)> {
    occurrences_from(lower_bytes(l.text@), lower_bytes(query), 0).map_values(
        |p: int| (l.line_number, p as usize),
    )
}

/// The search hits in all lines, line by line.
pub open spec fn search_hits(lines: Seq<GcodeLine>, query: Seq<char>) -> Seq<(usize, usize)>
    decreases lines.len(),
{
    if lines.len() == 0 {
        Seq::empty()
    } else {
        search_hits(lines.drop_last(), query) + line_hits(lines.last(), query)
    }
}

/// A search runs to completion (rather than stopping on a slice that is not
/// at a character boundary) when there are no lines, or the lower-cased
/// query is not empty and either starts with an ASCII character or occurs in
/// no lower-cased line.
pub open spec fn search_completes(lines: Seq<GcodeLine>, query: Seq<char>) -> bool {
    let q = lower_bytes(query);
    ||| lines.len() == 0
    ||| q.len() > 0 && (q[0] < 128 || forall|k: int|
        0 <= k < lines.len() ==> !crate::text::contains_seq(lower_bytes(#[trigger] lines[k].text@), q))
}

/// The characters whose encoding lies in bytes `from..to` of the encoding of
/// `s`.
pub open spec fn chars_between(s: Seq<char>, from: int, to: int) -> Seq<char> {
    vstd::utf8::decode_utf8(vstd::utf8::encode_utf8(s).subrange(from, to))
}

/// `at` is a character boundary of the text `s`.
pub open spec fn at_boundary(s: Seq<char>, at: int) -> bool {
    vstd::utf8::is_char_boundary(vstd::utf8::encode_utf8(s), at)
}

/// A line with new text whose tokens were recomputed; the rest is kept.
pub open spec fn retexted(l: GcodeLine, old: GcodeLine, text: Seq<char>) -> bool {
    &&& l.line_number == old.line_number
    &&& l.executed == old.executed
    &&& l.is_current == old.is_current
    &&& l.text@ == text
    &&& l.tokens_match()
}

/// How many lines `replaced` changes.
pub open spec fn changed_lines(lines: Seq<GcodeLine>, pat: Seq<char>, rep: Seq<char>) -> nat
    decreases lines.len(),
{
    if lines.len() == 0 {
        0
    } else if crate::text::replaced(lines.last().text@, pat, rep) != lines.last().text@ {
        changed_lines(lines.drop_last(), pat, rep) + 1
    } else {
        changed_lines(lines.drop_last(), pat, rep)
    }
}

/// G-Code Editor Manager
pub struct GcodeEditor {
    /// Current file being edited
    file: GcodeFile,
    /// Whether the editor is editable
    editable: bool,
}

/// Splits a string at a character boundary.
fn split_text(s: &str, at: usize) -> (r: (&str, &str))
    requires
        at_boundary(s@, at as int),
    ensures
        r.0@ == chars_between(s@, 0, at as int),
        r.1@ == chars_between(s@, at as int, byte_len(s@)),
        vstd::utf8::encode_utf8(r.1@) == vstd::utf8::encode_utf8(s@).subrange(at as int, byte_len(s@)),
{
    let r = s.split_at(at);
    proof {
        vstd::utf8::encode_utf8_decode_utf8(r.0@);
        vstd::utf8::encode_utf8_decode_utf8(r.1@);
    }
    r
}

impl GcodeEditor {
    /// The file being edited.
    pub closed spec fn spec_file(self) -> GcodeFile {
        self.file
    }

    /// Whether editing is allowed.
    pub closed spec fn spec_editable(self) -> bool {
        self.editable
    }

    /// The lines of the file being edited.
    pub open spec fn lines(self) -> Seq<GcodeLine> {
        self.spec_file().spec_lines()
    }

    /// Create a new G-Code editor
    pub fn new() -> (e: Self)
        ensures
            e.lines().len() == 0,
            e.spec_file().spec_current_line() == 0,
            e.spec_file().spec_path() is None,
            e.spec_editable(),
    {
        GcodeEditor { file: GcodeFile::new(), editable: true }
    }

    /// Load a file from content
    pub fn load_content(&mut self, content: &str) -> (r: Result<(), anyhow::Error>)
        ensures
            r is Ok,
            final(self).lines().len() == crate::text::lines_of(content@).len(),
            forall|i: int|
                0 <= i < final(self).lines().len() ==> fresh_line(
                    #[trigger] final(self).lines()[i],
                    i + 1,
                    crate::text::lines_of(content@)[i],
                ),
            final(self).spec_file().spec_path() == old(self).spec_file().spec_path(),
            final(self).spec_file().spec_current_line() == old(self).spec_file().spec_current_line(),
            final(self).spec_editable() == old(self).spec_editable(),
    {
        self.file.load_content(content);
        Ok(())
    }

    /// Get formatted content with line numbers and execution state
    pub fn get_display_content(&self) -> (s: String)
        ensures
            s@ == display_rows(self.lines(), decimal(self.lines().len()).len()),
    {
        self.file.get_formatted_content()
    }

    /// Get plain content without formatting
    pub fn get_plain_content(&self) -> (s: String)
        ensures
            s@ == joined_texts(self.lines()),
    {
        self.file.get_plain_content()
    }

    /// Mark a line as executed
    pub fn mark_line_executed(&mut self, line_number: usize)
        ensures
            final(self).lines() == if in_range(line_number as int, old(self).lines().len() as int) {
                with_executed(old(self).lines(), line_number - 1)
            } else {
                old(self).lines()
            },
            final(self).spec_file().spec_path() == old(self).spec_file().spec_path(),
            final(self).spec_file().spec_current_line() == old(self).spec_file().spec_current_line(),
            final(self).spec_editable() == old(self).spec_editable(),
    {
        self.file.mark_executed(line_number);
    }

    /// Set the current executing line
    pub fn set_current_line(&mut self, line_number: usize)
        ensures
            final(self).lines() == with_current_moved(
                old(self).lines(),
                old(self).spec_file().spec_current_line() as int,
                line_number as int,
            ),
            final(self).spec_file().spec_current_line() == if in_range(line_number as int, old(self).lines().len() as int) {
                line_number
            } else {
                old(self).spec_file().spec_current_line()
            },
            final(self).spec_file().spec_path() == old(self).spec_file().spec_path(),
            final(self).spec_editable() == old(self).spec_editable(),
    {
        self.file.set_current_line(line_number);
    }

    /// Get the current line number
    pub fn get_current_line(&self) -> (n: usize)
        ensures
            n == self.spec_file().spec_current_line(),
    {
        self.file.get_current_line()
    }

    /// Clear all execution state
    pub fn clear_execution_state(&mut self)
        ensures
            final(self).lines().len() == old(self).lines().len(),
            forall|i: int|
                0 <= i < final(self).lines().len() ==> #[trigger] final(self).lines()[i] == (GcodeLine {
                    executed: false,
                    is_current: false,
                    ..old(self).lines()[i]
                }),
            final(self).spec_file().spec_current_line() == 0,
            final(self).spec_file().spec_path() == old(self).spec_file().spec_path(),
            final(self).spec_editable() == old(self).spec_editable(),
    {
        self.file.clear_execution_state();
    }

    /// Get line count
    pub fn get_line_count(&self) -> (n: usize)
        ensures
            n == self.lines().len(),
    {
        self.file.lines.len()
    }

    /// Set whether the editor is editable
    pub fn set_editable(&mut self, editable: bool)
        ensures
            final(self).spec_editable() == editable,
            final(self).spec_file() == old(self).spec_file(),
    {
        self.editable = editable;
    }

    /// Check if the editor is editable
    pub fn is_editable(&self) -> (b: bool)
        ensures
            b == self.spec_editable(),
    {
        self.editable
    }

    /// Set read-only mode (inverse of editable)
    pub fn set_read_only(&mut self, read_only: bool)
        ensures
            final(self).spec_editable() == !read_only,
            final(self).spec_file() == old(self).spec_file(),
    {
        self.set_editable(!read_only)
    }

    /// Check if editor is in read-only mode
    pub fn is_read_only(&self) -> (b: bool)
        ensures
            b == !self.spec_editable(),
    {
        !self.is_editable()
    }

    /// Get a specific line's text
    pub fn get_line_text(&self, line_number: usize) -> (r: Option<String>)
        ensures
            in_range(line_number as int, self.lines().len() as int) ==> (r matches Some(t) && t@
                == self.lines()[line_number - 1].text@),
            !in_range(line_number as int, self.lines().len() as int) ==> r is None,
    {
        if line_number > 0 && line_number <= self.file.lines.len() {
            Some(self.file.lines[line_number - 1].text.clone())
        } else {
            None
        }
    }

    /// Get all line texts
    pub fn get_all_lines(&self) -> (v: Vec<String>)
        ensures
            v@.len() == self.lines().len(),
            forall|i: int| 0 <= i < v@.len() ==> #[trigger] v@[i]@ == self.lines()[i].text@,
    {
        let mut v: Vec<String> = Vec::new();
        let mut i: usize = 0;
        while i < self.file.lines.len()
            invariant
                i <= self.file.lines@.len(),
                v@.len() == i,
                forall|k: int| 0 <= k < i ==> #[trigger] v@[k]@ == self.file.lines@[k].text@,
            decreases self.file.lines@.len() - i,
        {
            v.push(self.file.lines[i].text.clone());
            i = i + 1;
        }
        v
    }

    /// Get the current file path
    pub fn get_file_path(&self) -> (p: Option<String>)
        ensures
            p == self.spec_file().spec_path(),
    {
        match &self.file.path {
            Some(p) => Some(p.clone()),
            None => None,
        }
    }

    /// Set the file path (useful for tracking)
    pub fn set_file_path(&mut self, path: Option<String>)
        ensures
            final(self).spec_file().spec_path() == path,
            final(self).lines() == old(self).lines(),
            final(self).spec_file().spec_current_line() == old(self).spec_file().spec_current_line(),
            final(self).spec_editable() == old(self).spec_editable(),
    {
        self.file.path = path;
    }
}

impl GcodeEditor {
    /// The hits of the lower-cased query in one lower-cased line.
    fn hits_in_line(line: &GcodeLine, q: &[u8], query: Ghost<Seq<char>>) -> (v: Vec<(usize, usize)>)
        requires
            q@ == lower_bytes(query@),
        ensures
            v@ == line_hits(*line, query@),
    {
        let lower = crate::text::to_lowercase(line.text.as_str());
        Self::hits_in_lowered(line.line_number, lower.as_str().as_bytes(), q)
    }

    /// The search hits in one line from its lower-cased bytes `t` and the
    /// lower-cased query bytes `q`: (line number, offset) for each offset at
    /// which `q` occurs in `t`, in ascending order, overlapping occurrences
    /// included.
    pub fn hits_in_lowered(line_number: usize, t: &[u8], q: &[u8]) -> (v: Vec<(usize, usize)>)
        ensures
            v@ == occurrences_from(t@, q@, 0).map_values(|p: int| (line_number, p as usize)),
    {
        let mut v: Vec<(usize, usize)> = Vec::new();
        let ghost mut found: Seq<int> = Seq::empty();
        let mut p: usize = 0;
        while p < t.len()
            invariant
                p <= t@.len(),
                occurrences_from(t@, q@, 0) == found + occurrences_from(t@, q@, p as int),
                v@ == found.map_values(|x: int| (line_number, x as usize)),
            decreases t@.len() - p,
        {
            if crate::text::bytes_match_at(t, q, p) {
                proof {
                    assert(found.push(p as int).map_values(|x: int| (line_number, x as usize))
                        =~= found.map_values(|x: int| (line_number, x as usize)).push((line_number, p)));
                    assert(found + occurrences_from(t@, q@, p as int) == found.push(p as int)
                        + occurrences_from(t@, q@, p + 1));
                    found = found.push(p as int);
                }
                v.push((line_number, p));
            }
            p = p + 1;
        }
        if crate::text::bytes_match_at(t, q, p) {
            proof {
                assert(found.push(p as int).map_values(|x: int| (line_number, x as usize))
                    =~= found.map_values(|x: int| (line_number, x as usize)).push((line_number, p)));
                assert(occurrences_from(t@, q@, p + 1) =~= Seq::<int>::empty());
                found = found.push(p as int);
            }
            v.push((line_number, p));
        } else {
            assert(occurrences_from(t@, q@, p + 1) =~= Seq::<int>::empty());
        }
        proof {
            assert(found == occurrences_from(t@, q@, 0));
        }
        v
    }

    /// Search for text in all lines
    pub fn search(&self, query: &str) -> (r: Vec<(usize, usize)>)
        requires
            search_completes(self.lines(), query@),
        ensures
            r@ == search_hits(self.lines(), query@),
    {
        let ql = crate::text::to_lowercase(query);
        let q = ql.as_str().as_bytes();
        let mut results: Vec<(usize, usize)> = Vec::new();
        let mut k: usize = 0;
        while k < self.file.lines.len()
            invariant
                k <= self.file.lines@.len(),
                q@ == lower_bytes(query@),
                results@ == search_hits(self.file.lines@.take(k as int), query@),
            decreases self.file.lines@.len() - k,
        {
            proof {
                assert(self.file.lines@.take(k + 1).drop_last() == self.file.lines@.take(k as int));
            }
            let mut hits = Self::hits_in_line(&self.file.lines[k], q, Ghost(query@));
            results.append(&mut hits);
            k = k + 1;
        }
        proof {
            assert(self.file.lines@.take(self.file.lines@.len() as int) == self.file.lines@);
        }
        results
    }

    /// Searches as `search` does when that search runs to completion, and
    /// gives `None` on the queries where it would stop on a slice that is
    /// not at a character boundary.
    pub fn search_checked(&self, query: &str) -> (r: Option<Vec<(usize, usize)>>)
        ensures
            r is Some <==> search_completes(self.lines(), query@),
            r matches Some(v) ==> v@ == search_hits(self.lines(), query@),
    {
        if self.file.lines.len() == 0 {
            return Some(self.search(query));
        }
        let ql = crate::text::to_lowercase(query);
        let q = ql.as_str().as_bytes();
        if q.len() == 0 {
            return None;
        }
        if q[0] < 128 {
            return Some(self.search(query));
        }
        let mut k: usize = 0;
        while k < self.file.lines.len()
            invariant
                k <= self.file.lines@.len(),
                q@ == lower_bytes(query@),
                q@.len() > 0,
                q@[0] >= 128,
                forall|j: int|
                    0 <= j < k ==> !crate::text::contains_seq(lower_bytes(#[trigger] self.file.lines@[j].text@), q@),
            decreases self.file.lines@.len() - k,
        {
            let lower = crate::text::to_lowercase(self.file.lines[k].text.as_str());
            if crate::text::bytes_contain(lower.as_str().as_bytes(), q) {
                proof {
                    assert(crate::text::contains_seq(lower_bytes(self.file.lines@[k as int].text@), q@));
                    assert(!search_completes(self.lines(), query@));
                }
                return None;
            }
            k = k + 1;
        }
        Some(self.search(query))
    }

    /// Replace all occurrences of text
    pub fn replace_all(&mut self, old_text: &str, new_text: &str) -> (count: usize)
        ensures
            final(self).lines().len() == old(self).lines().len(),
            forall|i: int|
                0 <= i < final(self).lines().len() ==> {
                    let was = old(self).lines()[i];
                    let t = crate::text::replaced(was.text@, old_text@, new_text@);
                    if t != was.text@ {
                        retexted(#[trigger] final(self).lines()[i], was, t)
                    } else {
                        final(self).lines()[i] == was
                    }
                },
            count == changed_lines(old(self).lines(), old_text@, new_text@),
            final(self).spec_file().spec_path() == old(self).spec_file().spec_path(),
            final(self).spec_file().spec_current_line() == old(self).spec_file().spec_current_line(),
            final(self).spec_editable() == old(self).spec_editable(),
    {
        let mut count: usize = 0;
        let mut k: usize = 0;
        while k < self.file.lines.len()
            invariant
                k <= self.file.lines@.len(),
                self.file.lines@.len() == old(self).file.lines@.len(),
                count <= k,
                count == changed_lines(old(self).file.lines@.take(k as int), old_text@, new_text@),
                forall|i: int|
                    0 <= i < k ==> {
                        let was = old(self).file.lines@[i];
                        let t = crate::text::replaced(was.text@, old_text@, new_text@);
                        if t != was.text@ {
                            retexted(#[trigger] self.file.lines@[i], was, t)
                        } else {
                            self.file.lines@[i] == was
                        }
                    },
                forall|i: int| k <= i < self.file.lines@.len() ==> #[trigger] self.file.lines@[i] == old(self).file.lines@[i],
                self.file.path == old(self).file.path,
                self.file.current_line == old(self).file.current_line,
                self.editable == old(self).editable,
            decreases self.file.lines@.len() - k,
        {
            proof {
                assert(old(self).file.lines@.take(k + 1).drop_last() == old(self).file.lines@.take(k as int));
            }
            let t = crate::text::replace_all_in(self.file.lines[k].text.as_str(), old_text, new_text);
            let unchanged = t.eq(&self.file.lines[k].text);
            if !unchanged {
                let tokens = GcodeLine::tokenize(t.as_str());
                self.file.lines[k].text = t;
                self.file.lines[k].tokens = tokens;
                count = count + 1;
            }
            k = k + 1;
        }
        proof {
            assert(old(self).file.lines@.take(old(self).file.lines@.len() as int) == old(self).file.lines@);
        }
        count
    }

    /// Replace occurrence at specific line and position
    pub fn replace_at(&mut self, line_number: usize, position: usize, old_text: &str, new_text: &str) -> (done: bool)
        requires
            in_range(line_number as int, old(self).lines().len() as int) ==> ({
                let t = old(self).lines()[line_number - 1].text@;
                let end = position + byte_len(old_text@);
                &&& end <= usize::MAX
                &&& end <= byte_len(t) ==> at_boundary(t, position as int) && at_boundary(t, end)
            }),
        ensures
            ({
                let lines = old(self).lines();
                let k = line_number - 1;
                let end = position + byte_len(old_text@);
                let applies = in_range(line_number as int, lines.len() as int) && end <= byte_len(lines[k].text@)
                    && vstd::utf8::encode_utf8(lines[k].text@).subrange(position as int, end)
                    == vstd::utf8::encode_utf8(old_text@);
                &&& done == applies
                &&& applies ==> {
                    let t = lines[k].text@;
                    &&& final(self).lines().len() == lines.len()
                    &&& retexted(final(self).lines()[k], lines[k], chars_between(t, 0, position as int)
                        + new_text@ + chars_between(t, end, byte_len(t)))
                    &&& forall|i: int| 0 <= i < lines.len() && i != k ==> #[trigger] final(self).lines()[i] == lines[i]
                }
                &&& !applies ==> final(self).lines() == lines
            }),
            final(self).spec_file().spec_path() == old(self).spec_file().spec_path(),
            final(self).spec_file().spec_current_line() == old(self).spec_file().spec_current_line(),
            final(self).spec_editable() == old(self).spec_editable(),
    {
        if line_number > 0 && line_number <= self.file.lines.len() {
            let k = line_number - 1;
            let old_len = crate::text::text_byte_len(old_text);
            let end = position + old_len;
            let text_len = crate::text::text_byte_len(self.file.lines[k].text.as_str());
            if end <= text_len {
                let tb = self.file.lines[k].text.as_str().as_bytes();
                let ob = old_text.as_bytes();
                if crate::text::bytes_match_at(tb, ob, position) {
                    let mut fresh = String::new();
                    {
                        let text = self.file.lines[k].text.as_str();
                        let (a, _) = split_text(text, position);
                        let (_, b) = split_text(text, end);
                        push_str(&mut fresh, a);
                        push_str(&mut fresh, new_text);
                        push_str(&mut fresh, b);
                    }
                    let tokens = GcodeLine::tokenize(fresh.as_str());
                    self.file.lines[k].text = fresh;
                    self.file.lines[k].tokens = tokens;
                    return true;
                }
            }
        }
        false
    }

    /// Insert text at specific position
    pub fn insert_text(&mut self, line_number: usize, position: usize, text: &str) -> (done: bool)
        requires
            old(self).spec_editable() && in_range(line_number as int, old(self).lines().len() as int)
                && position <= byte_len(old(self).lines()[line_number - 1].text@) ==> at_boundary(
                old(self).lines()[line_number - 1].text@,
                position as int,
            ),
        ensures
            ({
                let lines = old(self).lines();
                let k = line_number - 1;
                let applies = old(self).spec_editable() && in_range(line_number as int, lines.len() as int)
                    && position <= byte_len(lines[k].text@);
                &&& done == applies
                &&& applies ==> {
                    let t = lines[k].text@;
                    &&& final(self).lines().len() == lines.len()
                    &&& retexted(final(self).lines()[k], lines[k], text_with_insert(t, position as int, text@))
                    &&& forall|i: int| 0 <= i < lines.len() && i != k ==> #[trigger] final(self).lines()[i] == lines[i]
                }
                &&& !applies ==> final(self).lines() == lines
            }),
            final(self).spec_file().spec_path() == old(self).spec_file().spec_path(),
            final(self).spec_file().spec_current_line() == old(self).spec_file().spec_current_line(),
            final(self).spec_editable() == old(self).spec_editable(),
    {
        if !self.is_editable() {
            return false;
        }
        if line_number > 0 && line_number <= self.file.lines.len() {
            let k = line_number - 1;
            let text_len = crate::text::text_byte_len(self.file.lines[k].text.as_str());
            if position <= text_len {
                let mut fresh = String::new();
                {
                    let line_text = self.file.lines[k].text.as_str();
                    let (a, b) = split_text(line_text, position);
                    push_str(&mut fresh, a);
                    push_str(&mut fresh, text);
                    push_str(&mut fresh, b);
                }
                let tokens = GcodeLine::tokenize(fresh.as_str());
                self.file.lines[k].text = fresh;
                self.file.lines[k].tokens = tokens;
                return true;
            }
        }
        false
    }

    /// Delete character at specific position
    pub fn delete_char(&mut self, line_number: usize, position: usize) -> (done: bool)
        requires
            old(self).spec_editable() && in_range(line_number as int, old(self).lines().len() as int)
                && position < byte_len(old(self).lines()[line_number - 1].text@) ==> at_boundary(
                old(self).lines()[line_number - 1].text@,
                position as int,
            ),
        ensures
            ({
                let lines = old(self).lines();
                let k = line_number - 1;
                let applies = old(self).spec_editable() && in_range(line_number as int, lines.len() as int)
                    && position < byte_len(lines[k].text@);
                &&& done == applies
                &&& applies ==> {
                    let t = lines[k].text@;
                    &&& final(self).lines().len() == lines.len()
                    &&& retexted(final(self).lines()[k], lines[k], text_with_delete(t, position as int))
                    &&& forall|i: int| 0 <= i < lines.len() && i != k ==> #[trigger] final(self).lines()[i] == lines[i]
                }
                &&& !applies ==> final(self).lines() == lines
            }),
            final(self).spec_file().spec_path() == old(self).spec_file().spec_path(),
            final(self).spec_file().spec_current_line() == old(self).spec_file().spec_current_line(),
            final(self).spec_editable() == old(self).spec_editable(),
    {
        if !self.is_editable() {
            return false;
        }
        if line_number > 0 && line_number <= self.file.lines.len() {
            let k = line_number - 1;
            let text_len = crate::text::text_byte_len(self.file.lines[k].text.as_str());
            if position < text_len {
                let mut fresh = String::new();
                {
                    let line_text = self.file.lines[k].text.as_str();
                    let (a, b) = split_text(line_text, position);
                    let rest = crate::text::chars_of(b);
                    proof {
                        assert(byte_len(line_text@) > position);
                        if rest@.len() == 0 {
                            assert(vstd::utf8::encode_utf8(b@) =~= Seq::<u8>::empty());
                            assert(vstd::utf8::encode_utf8(line_text@).subrange(position as int, byte_len(line_text@)).len() > 0);
                        }
                    }
                    let tail = crate::text::string_from_chars(&rest, 1, rest.len());
                    push_str(&mut fresh, a);
                    push_str(&mut fresh, tail.as_str());
                    proof {
                        assert(rest@.subrange(1, rest@.len() as int) == rest@.drop_first());
                    }
                }
                let tokens = GcodeLine::tokenize(fresh.as_str());
                self.file.lines[k].text = fresh;
                self.file.lines[k].tokens = tokens;
                return true;
            }
        }
        false
    }
}

/// `s` put into `t` at byte offset `at`.
pub open spec fn text_with_insert(t: Seq<char>, at: int, s: Seq<char>) -> Seq<char> {
    chars_between(t, 0, at) + s + chars_between(t, at, byte_len(t))
}

/// `t` without the character that starts at byte offset `at`.
pub open spec fn text_with_delete(t: Seq<char>, at: int) -> Seq<char> {
    chars_between(t, 0, at) + chars_between(t, at, byte_len(t)).drop_first()
}

/// The encoding of a concatenation is the concatenation of the encodings.
proof fn lemma_encode_concat(a: Seq<char>, b: Seq<char>)
    ensures
        vstd::utf8::encode_utf8(a + b) == vstd::utf8::encode_utf8(a) + vstd::utf8::encode_utf8(b),
    decreases a.len(),
{
    if a.len() == 0 {
        assert(a + b =~= b);
    } else {
        lemma_encode_concat(a.drop_first(), b);
        assert((a + b).drop_first() =~= a.drop_first() + b);
        assert((a + b)[0] == a[0]);
    }
}

/// The end of the encoding of `a` is a character boundary of the encoding
/// of `a + b`.
proof fn lemma_boundary_after(a: Seq<char>, b: Seq<char>)
    ensures
        at_boundary(a + b, byte_len(a)),
    decreases a.len(),
{
    broadcast use vstd::utf8::encode_utf8_valid_utf8;

    let e = vstd::utf8::encode_utf8(a + b);
    if a.len() > 0 {
        lemma_boundary_after(a.drop_first(), b);
        lemma_encode_concat(a, b);
        vstd::utf8::encode_utf8_first_scalar(a + b);
        assert((a + b).drop_first() =~= a.drop_first() + b);
        assert((a + b)[0] == a[0]);
        let k = vstd::utf8::length_of_first_scalar(e);
        assert(vstd::utf8::pop_first_scalar(e) =~= vstd::utf8::encode_utf8(a.drop_first() + b));
        assert(byte_len(a) == k + byte_len(a.drop_first()));
    }
}

/// Splitting a text at a character boundary: each side encodes to its part
/// of the bytes, and the two sides make up the text.
proof fn lemma_split_at_boundary(t: Seq<char>, at: int)
    requires
        at_boundary(t, at),
    ensures
        0 <= at <= byte_len(t),
        vstd::utf8::encode_utf8(chars_between(t, 0, at)) == vstd::utf8::encode_utf8(t).subrange(0, at),
        vstd::utf8::encode_utf8(chars_between(t, at, byte_len(t))) == vstd::utf8::encode_utf8(t).subrange(
            at,
            byte_len(t),
        ),
        chars_between(t, 0, at) + chars_between(t, at, byte_len(t)) == t,
{
    broadcast use vstd::utf8::encode_utf8_valid_utf8;

    let e = vstd::utf8::encode_utf8(t);
    if at != 0 {
        vstd::utf8::is_char_boundary_start_end_of_seq(e);
    }
    assert(0 <= at <= e.len()) by {
        reveal_with_fuel(vstd::utf8::is_char_boundary, 1);
    }
    vstd::utf8::valid_utf8_split(e, at);
    vstd::utf8::decode_utf8_encode_utf8(e.subrange(0, at));
    vstd::utf8::decode_utf8_encode_utf8(e.subrange(at, e.len() as int));
    vstd::utf8::decode_utf8_split(e, at);
    vstd::utf8::encode_utf8_decode_utf8(t);
}

/// Deleting the character at the place where one character was just
/// inserted gives the text from before the insertion back, and that place
/// is a character boundary before the end of the new text.
pub proof fn law_delete_undoes_insert(t: Seq<char>, at: int, c: char)
    requires
        at_boundary(t, at),
    ensures
        at_boundary(text_with_insert(t, at, seq![c]), at),
        at < byte_len(text_with_insert(t, at, seq![c])),
        text_with_delete(text_with_insert(t, at, seq![c]), at) == t,
{
    broadcast use vstd::utf8::encode_utf8_valid_utf8;
    broadcast use vstd::utf8::encode_utf8_decode_utf8;

    lemma_split_at_boundary(t, at);
    let a = chars_between(t, 0, at);
    let b = chars_between(t, at, byte_len(t));
    let cb = seq![c] + b;
    let ins = text_with_insert(t, at, seq![c]);
    assert(ins =~= a + cb);
    lemma_boundary_after(a, cb);
    lemma_encode_concat(a, cb);
    lemma_encode_concat(seq![c], b);
    let ea = vstd::utf8::encode_utf8(a);
    let ecb = vstd::utf8::encode_utf8(cb);
    let ei = vstd::utf8::encode_utf8(ins);
    assert(ea.len() == at);
    assert(vstd::utf8::encode_utf8(seq![c]).len() > 0) by {
        assert(seq![c].drop_first() =~= Seq::<char>::empty());
    }
    assert(ei.subrange(0, at) =~= ea);
    assert(ei.subrange(at, ei.len() as int) =~= ecb);
    assert(cb.drop_first() =~= b);
}

/// Texts of lines joined with newlines are the joined texts.
proof fn lemma_joined_texts(lines: Seq<GcodeLine>, ts: Seq<Seq<char>>)
    requires
        lines.len() == ts.len(),
        forall|i: int| 0 <= i < lines.len() ==> #[trigger] lines[i].text@ == ts[i],
    ensures
        joined_texts(lines) == crate::text::joined_lines(ts),
    decreases lines.len(),
{
    if lines.len() > 1 {
        lemma_joined_texts(lines.drop_last(), ts.drop_last());
        assert(lines.last().text@ == ts[ts.len() - 1]);
    } else if lines.len() == 1 {
        assert(lines[0].text@ == ts[0]);
    }
}

/// Reading back the plain content of an editor that was loaded with text
/// holding no carriage return and not ending with a newline gives that text
/// back.
pub proof fn law_plain_content_round_trip(e: GcodeEditor, content: Seq<char>)
    requires
        crate::text::no_cr(content),
        content.len() == 0 || content.last() != '\n',
        e.lines().len() == crate::text::lines_of(content).len(),
        forall|i: int|
            0 <= i < e.lines().len() ==> fresh_line(#[trigger] e.lines()[i], i + 1, crate::text::lines_of(content)[i]),
    ensures
        joined_texts(e.lines()) == content,
{
    let ls = crate::text::lines_of(content);
    assert forall|i: int| 0 <= i < e.lines().len() implies #[trigger] e.lines()[i].text@ == ls[i] by {
        assert(fresh_line(e.lines()[i], i + 1, ls[i]));
    }
    lemma_joined_texts(e.lines(), ls);
    crate::text::lemma_join_lines_of(content);
}

impl Default for GcodeEditor {
    fn default() -> (e: Self)
        ensures
            e.lines().len() == 0,
            e.spec_file().spec_current_line() == 0,
            e.spec_file().spec_path() is None,
            e.spec_editable(),
    {
        Self::new()
    }
}

} // verus!
