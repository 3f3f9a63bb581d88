use vstd::prelude::*;
use std::collections::VecDeque;
use crate::lexer::number::{
    float_literal,
    int_literal,
    is_float_literal,
    parse_int,
    without_underscores,
};
use crate::lexer::token::{Keyword, Operator, Token, TokenKind, TokenKindView, TokenView};
use crate::lexer::token_stream::TokenStream;
use crate::text::{
    chars_between,
    glyphs,
    glyphs_of,
    matches_ignoring_ascii_case,
    same_ignoring_ascii_case,
    string_from,
    text_between,
    trim_back,
    trim_back_of,
    values,
    Glyph,
};

verus! {

/// Why a text is not a sequence of tokens.
#[derive(Debug, PartialEq, Eq, Clone, Copy, Structural)]
pub enum LexerError {
    /// A run that begins like a number is neither an integer nor a decimal literal.
    InvalidNumber,
    /// A quote is opened and the text ends before it is closed.
    UnterminatedString,
}

/// The kinds of run that the scanner follows to their end.
#[derive(Debug, PartialEq, Eq, Clone, Copy, Structural)]
pub enum Run {
    /// Characters of a number: ASCII letters and digits, `.` and `_`.
    Number,
    /// Characters of a word: anything but white space and the single-character tokens.
    Word,
    /// Anything but white space.
    Unspaced,
    /// Anything but white space and `;`.
    Attached,
    /// White space and numerals: what may stand between a word and the
    /// character that decides whether the word begins a sentence.
    Gap,
    /// Anything but `;`.
    Statement,
    /// Anything but the closing quote.
    Quoted(char),
}

/// The token that a single character makes by itself, if it makes one.
pub open spec fn special_kind(c: char) -> Option<TokenKindView> {
    if c == '(' {
        Some(TokenKindView::OpenBracket)
    } else if c == ')' {
        Some(TokenKindView::ClosedBracket)
    } else if c == '{' {
        Some(TokenKindView::OpenCurlyBracket)
    } else if c == '}' {
        Some(TokenKindView::ClosedCurlyBracket)
    } else if c == '.' {
        Some(TokenKindView::Period)
    } else if c == ';' {
        Some(TokenKindView::Semicolon)
    } else if c == '+' {
        Some(TokenKindView::Operator(Operator::Plus))
    } else if c == '-' {
        Some(TokenKindView::Operator(Operator::Minus))
    } else if c == '*' {
        Some(TokenKindView::Operator(Operator::Multiply))
    } else if c == '/' {
        Some(TokenKindView::Operator(Operator::Divide))
    } else if c == '=' {
        Some(TokenKindView::Operator(Operator::Equal))
    } else if c == '%' {
        Some(TokenKindView::Operator(Operator::Modulo))
    } else {
        None
    }
}

/// Whether a character opens a string.
pub open spec fn is_quote(c: char) -> bool {
    c == '"' || c == '\''
}

/// Whether a character is an ASCII letter or digit.
pub open spec fn is_ascii_alphanumeric(c: char) -> bool {
    ('0' <= c <= '9') || ('a' <= c <= 'z') || ('A' <= c <= 'Z')
}

/// Whether a run of the given kind goes on over `g`.
pub open spec fn keeps(run: Run, g: Glyph) -> bool {
    match run {
        Run::Number => is_ascii_alphanumeric(g.value) || g.value == '.' || g.value == '_',
        Run::Word => !g.space && special_kind(g.value) is None,
        Run::Unspaced => !g.space,
        Run::Attached => !g.space && g.value != ';',
        Run::Gap => (g.alphanumeric || g.space) && !g.letter,
        Run::Statement => g.value != ';',
        Run::Quoted(q) => g.value != q,
    }
}

/// The characters of `s[from..to]`.
pub open spec fn text(s: Seq<Glyph>, from: int, to: int) -> Seq<char> {
    values(s.subrange(from, to))
}

/// Where the run that is at `i` ends: the first index at or after `i` whose
/// character the run does not go on over, or the length of `s`.
pub open spec fn run_end(s: Seq<Glyph>, i: int, run: Run) -> int
    decreases s.len() - i,
{
    if 0 <= i < s.len() && keeps(run, s[i]) {
        run_end(s, i + 1, run)
    } else {
        i
    }
}

/// The reserved word that `word` is, if it is one. Capitals count as small letters.
pub open spec fn reserved(word: Seq<char>) -> Option<TokenKindView> {
    if same_ignoring_ascii_case(word, seq!['t', 'r', 'u', 'e']) {
        Some(TokenKindView::Bool(true))
    } else if same_ignoring_ascii_case(word, seq!['f', 'a', 'l', 's', 'e']) {
        Some(TokenKindView::Bool(false))
    } else if same_ignoring_ascii_case(word, seq!['i', 'f']) {
        Some(TokenKindView::Keyword(Keyword::If))
    } else if same_ignoring_ascii_case(word, seq!['l', 'e', 't']) {
        Some(TokenKindView::Keyword(Keyword::Let))
    } else if same_ignoring_ascii_case(word, seq!['e', 'l', 'i', 'f']) {
        Some(TokenKindView::Keyword(Keyword::Elseif))
    } else if same_ignoring_ascii_case(word, seq!['e', 'l', 's', 'e']) {
        Some(TokenKindView::Keyword(Keyword::Else))
    } else if same_ignoring_ascii_case(word, seq!['f', 'n']) {
        Some(TokenKindView::Keyword(Keyword::Fn))
    } else if same_ignoring_ascii_case(word, seq!['w', 'h', 'i', 'l', 'e']) {
        Some(TokenKindView::Keyword(Keyword::While))
    } else {
        None
    }
}

/// The number token that begins at `i`, and where it ends. The run's
/// underscores are dropped; with a `.` in it the rest must be a decimal
/// literal, without one an integer literal.
pub open spec fn number_at(s: Seq<Glyph>, i: int) -> Result<(TokenKindView, int), LexerError> {
    let end = run_end(s, i, Run::Number);
    let text = without_underscores(text(s, i, end));
    if text.contains('.') {
        if float_literal(text) {
            Ok((TokenKindView::Float(text), end))
        } else {
            Err(LexerError::InvalidNumber)
        }
    } else {
        match int_literal(text) {
            Some(v) => Ok((TokenKindView::Int(v), end)),
            None => Err(LexerError::InvalidNumber),
        }
    }
}

/// The string token whose opening quote is at `i`, and where it ends: after
/// the next occurrence of that same quote.
pub open spec fn string_at(s: Seq<Glyph>, i: int) -> Result<(TokenKindView, int), LexerError> {
    let close = run_end(s, i + 1, Run::Quoted(s[i].value));
    if close >= s.len() {
        Err(LexerError::UnterminatedString)
    } else {
        Ok((TokenKindView::String(text(s, i + 1, close)), close + 1))
    }
}

/// The token that begins with the word at `i`, and where scanning goes on:
/// behind the word for a word, behind the sentence for a sentence.
///
/// The word runs to the next white space or single-character token. A
/// reserved word is its own token. For any other word the scanner looks
/// ahead. The word stands alone when the statement ends right behind it.
/// With more text attached to it and no white space before the statement's
/// end, the whole of it is a sentence. Otherwise the first character behind
/// the first white space that is neither white space nor a numeral decides:
/// a letter makes everything up to the statement's end a sentence; any
/// other character leaves the word alone; where the text ends first, what
/// was read is a sentence unless only white space followed the word.
pub open spec fn word_at(s: Seq<Glyph>, i: int) -> (TokenKindView, int) {
    let e = run_end(s, i, Run::Word);
    let word = text(s, i, e);
    match reserved(word) {
        Some(kind) => (kind, e),
        None => {
            let w = run_end(s, e, Run::Attached);
            if w >= s.len() || s[w].value == ';' {
                if w == e {
                    (TokenKindView::Word(word), e)
                } else {
                    (TokenKindView::Sentence(text(s, i, w)), w)
                }
            } else {
                let j = run_end(s, w, Run::Gap);
                if j >= s.len() {
                    let end = trim_back(s, i, s.len() as int);
                    if end == e {
                        (TokenKindView::Word(word), e)
                    } else {
                        (TokenKindView::Sentence(text(s, i, end)), s.len() as int)
                    }
                } else if !s[j].alphanumeric && !s[j].space {
                    (TokenKindView::Word(word), e)
                } else {
                    let t = run_end(s, j, Run::Statement);
                    (TokenKindView::Sentence(text(s, i, trim_back(s, i, t))), t)
                }
            }
        },
    }
}

/// What stands at `i`: white space (no token), or a token; and where
/// scanning goes on.
pub open spec fn token_at(s: Seq<Glyph>, i: int) -> Result<(Option<TokenKindView>, int), LexerError> {
    let c = s[i].value;
    if s[i].space {
        Ok((None, i + 1))
    } else if special_kind(c) is Some {
        Ok((special_kind(c), i + 1))
    } else if '0' <= c <= '9' {
        match number_at(s, i) {
            Ok((kind, next)) => Ok((Some(kind), next)),
            Err(e) => Err(e),
        }
    } else if is_quote(c) {
        match string_at(s, i) {
            Ok((kind, next)) => Ok((Some(kind), next)),
            Err(e) => Err(e),
        }
    } else {
        Ok((Some(word_at(s, i).0), word_at(s, i).1))
    }
}

/// In the mode that splits on white space and quotes only: what stands at `i`.
pub open spec fn plain_token_at(s: Seq<Glyph>, i: int) -> Result<
    (Option<TokenKindView>, int),
    LexerError,
> {
    let c = s[i].value;
    if s[i].space {
        Ok((None, i + 1))
    } else if is_quote(c) {
        match string_at(s, i) {
            Ok((kind, next)) => Ok((Some(kind), next)),
            Err(e) => Err(e),
        }
    } else {
        let end = run_end(s, i, Run::Unspaced);
        Ok((Some(TokenKindView::Word(text(s, i, end))), end))
    }
}

/// `tokens` in front of what `rest` holds; the error of `rest` where it is one.
pub open spec fn prepend(tokens: Seq<TokenView>, rest: Result<Seq<TokenView>, LexerError>) -> Result<
    Seq<TokenView>,
    LexerError,
> {
    match rest {
        Ok(more) => Ok(tokens + more),
        Err(e) => Err(e),
    }
}

/// The tokens of `s` from `i` on, each with the offset at which it starts,
/// or the first error met. `plain` chooses the mode that splits on white
/// space and quotes only. Each step moves on within the text
/// (`lemma_scan_advances`), so the scan never stops short of the end.
pub open spec fn tokens_from(s: Seq<Glyph>, i: int, plain: bool) -> Result<Seq<TokenView>, LexerError>
    decreases s.len() - i,
{
    if i < 0 || i >= s.len() {
        Ok(Seq::empty())
    } else {
        match (if plain {
            plain_token_at(s, i)
        } else {
            token_at(s, i)
        }) {
            Err(e) => Err(e),
            Ok((kind, next)) => {
                if next <= i || next > s.len() {
                    Ok(Seq::empty())
                } else {
                    let rest = tokens_from(s, next, plain);
                    match kind {
                        Some(k) => prepend(seq![TokenView { kind: k, pos: i as nat }], rest),
                        None => rest,
                    }
                }
            },
        }
    }
}

/// The tokens of a text, given by the glyphs of its characters.
pub open spec fn tokens_of(s: Seq<Glyph>) -> Result<Seq<TokenView>, LexerError> {
    tokens_from(s, 0, false)
}

/// The tokens of a text that is split on white space and quotes only.
pub open spec fn words_of(s: Seq<Glyph>) -> Result<Seq<TokenView>, LexerError> {
    tokens_from(s, 0, true)
}

/// The tokens of a text, each character classified by std's Unicode tables.
pub open spec fn tokenize(s: Seq<char>) -> Result<Seq<TokenView>, LexerError> {
    tokens_of(glyphs_of(s))
}

/// The tokens of a text that is split on white space and quotes only,
/// each character classified by std's Unicode tables.
pub open spec fn tokenize_words(s: Seq<char>) -> Result<Seq<TokenView>, LexerError> {
    words_of(glyphs_of(s))
}

/// A run ends at or after its start and within the text; it goes on over
/// every character before its end and over none at its end.
pub proof fn lemma_run_end_bounds(s: Seq<Glyph>, i: int, run: Run)
    requires
        0 <= i <= s.len(),
    ensures
        i <= run_end(s, i, run) <= s.len(),
        run_end(s, i, run) < s.len() ==> !keeps(run, s[run_end(s, i, run)]),
        forall|k: int| i <= k < run_end(s, i, run) ==> keeps(run, #[trigger] s[k]),
    decreases s.len() - i,
{
    if i < s.len() && keeps(run, s[i]) {
        lemma_run_end_bounds(s, i + 1, run);
    }
}

/// Each step of the scan moves on and stays within the text.
pub proof fn lemma_scan_advances(s: Seq<Glyph>, i: int, plain: bool)
    requires
        0 <= i < s.len(),
    ensures
        (if plain {
            plain_token_at(s, i)
        } else {
            token_at(s, i)
        }) matches Ok((_, next)) ==> i < next <= s.len(),
{
    lemma_run_end_bounds(s, i + 1, Run::Number);
    lemma_run_end_bounds(s, i + 1, Run::Unspaced);
    lemma_run_end_bounds(s, i + 1, Run::Word);
    lemma_run_end_bounds(s, i + 1, Run::Quoted(s[i].value));
    let e = run_end(s, i, Run::Word);
    lemma_run_end_bounds(s, e, Run::Attached);
    let w = run_end(s, e, Run::Attached);
    lemma_run_end_bounds(s, w, Run::Gap);
    let j = run_end(s, w, Run::Gap);
    lemma_run_end_bounds(s, j, Run::Statement);
}

/// Tokens come in the order of the text: each starts at a character of
/// the text that is no white space, and behind the start of the token
/// before it.
pub proof fn lemma_tokens_in_order(s: Seq<Glyph>, i: int, plain: bool)
    requires
        0 <= i,
    ensures
        tokens_from(s, i, plain) matches Ok(tokens) ==> {
            &&& forall|k: int|
                0 <= k < tokens.len() ==> i <= (#[trigger] tokens[k]).pos < s.len() && !s[tokens[k].pos as int].space
            &&& forall|k: int, l: int|
                0 <= k < l < tokens.len() ==> (#[trigger] tokens[k]).pos < (#[trigger] tokens[l]).pos
        },
    decreases s.len() - i,
{
    if i < s.len() {
        lemma_scan_advances(s, i, plain);
        match (if plain {
            plain_token_at(s, i)
        } else {
            token_at(s, i)
        }) {
            Err(_) => {},
            Ok((kind, next)) => {
                lemma_tokens_in_order(s, next, plain);
                match (kind, tokens_from(s, next, plain)) {
                    (Some(k), Ok(rest)) => {
                        let first = TokenView { kind: k, pos: i as nat };
                        let tokens = seq![first] + rest;
                        assert(tokens_from(s, i, plain) == Ok::<_, LexerError>(tokens));
                        assert forall|k: int| 0 <= k < tokens.len() implies i <= (
                        #[trigger] tokens[k]).pos < s.len() && !s[tokens[k].pos as int].space by {
                            if k > 0 {
                                assert(tokens[k] == rest[k - 1]);
                            }
                        }
                        assert forall|k: int, l: int| 0 <= k < l < tokens.len() implies (
                        #[trigger] tokens[k]).pos < (#[trigger] tokens[l]).pos by {
                            assert(tokens[l] == rest[l - 1]);
                            if k > 0 {
                                assert(tokens[k] == rest[k - 1]);
                            }
                        }
                    },
                    _ => {},
                }
            },
        }
    }
}

/// Tokenizes texts.
pub struct Lexer;

impl Lexer {
    /// Tells whether `c` is a token by itself.
    pub fn is_char(c: char) -> (r: bool)
        ensures
            r == (special_kind(c) is Some),
    {
        c == '(' || c == ')' || c == '{' || c == '}' || c == '.' || c == ';' || c == '+' || c
            == '-' || c == '*' || c == '/' || c == '=' || c == '%'
    }

    /// The token that the single character `c` makes.
    pub fn special(c: char) -> (r: TokenKind)
        requires
            special_kind(c) is Some,
        ensures
            Some(r@) == special_kind(c),
    {
        if c == '(' {
            TokenKind::OpenBracket
        } else if c == ')' {
            TokenKind::ClosedBracket
        } else if c == '{' {
            TokenKind::OpenCurlyBracket
        } else if c == '}' {
            TokenKind::ClosedCurlyBracket
        } else if c == '.' {
            TokenKind::Period
        } else if c == ';' {
            TokenKind::Semicolon
        } else if c == '+' {
            TokenKind::Operator(Operator::Plus)
        } else if c == '-' {
            TokenKind::Operator(Operator::Minus)
        } else if c == '*' {
            TokenKind::Operator(Operator::Multiply)
        } else if c == '/' {
            TokenKind::Operator(Operator::Divide)
        } else if c == '=' {
            TokenKind::Operator(Operator::Equal)
        } else {
            TokenKind::Operator(Operator::Modulo)
        }
    }

    /// Tells whether a run of the given kind goes on over `g`.
    pub fn goes_on(run: Run, g: Glyph) -> (r: bool)
        ensures
            r == keeps(run, g),
    {
        let c = g.value;
        match run {
            Run::Number => (c >= '0' && c <= '9') || (c >= 'a' && c <= 'z') || (c >= 'A' && c
                <= 'Z') || c == '.' || c == '_',
            Run::Word => !g.space && !Self::is_char(c),
            Run::Unspaced => !g.space,
            Run::Attached => !g.space && c != ';',
            Run::Gap => (g.alphanumeric || g.space) && !g.letter,
            Run::Statement => c != ';',
            Run::Quoted(q) => c != q,
        }
    }

    /// Follows the run at `from` to its end.
    pub fn skip(chars: &Vec<Glyph>, from: usize, run: Run) -> (r: usize)
        requires
            from <= chars.len(),
        ensures
            r == run_end(chars@, from as int, run),
            from <= r <= chars.len(),
    {
        let mut i: usize = from;
        while i < chars.len() && Self::goes_on(run, chars[i])
            invariant
                from <= i <= chars.len(),
                run_end(chars@, from as int, run) == run_end(chars@, i as int, run),
            decreases chars.len() - i,
        {
            i += 1;
        }
        i
    }

    /// Tokenizes a text.
    pub fn parse(input: &str) -> (r: Result<TokenStream, LexerError>)
        ensures
            match r {
                Ok(stream) => tokenize(input@) == Ok::<Seq<TokenView>, LexerError>(stream@),
                Err(e) => tokenize(input@) == Err::<Seq<TokenView>, LexerError>(e),
            },
    {
        let chars = glyphs(input);
        Self::scan(&chars, false)
    }

    /// Tokenizes a text by splitting it on white space and quotes only.
    pub fn parse_strings(input: &str) -> (r: Result<TokenStream, LexerError>)
        ensures
            match r {
                Ok(stream) => tokenize_words(input@) == Ok::<Seq<TokenView>, LexerError>(stream@),
                Err(e) => tokenize_words(input@) == Err::<Seq<TokenView>, LexerError>(e),
            },
    {
        let chars = glyphs(input);
        Self::scan(&chars, true)
    }

    /// Tokenizes a text given by the glyphs of its characters, in either
    /// mode: `plain` splits on white space and quotes only.
    pub fn scan(chars: &Vec<Glyph>, plain: bool) -> (r: Result<TokenStream, LexerError>)
        ensures
            match r {
                Ok(stream) => tokens_from(chars@, 0, plain) == Ok::<Seq<TokenView>, LexerError>(
                    stream@,
                ),
                Err(e) => tokens_from(chars@, 0, plain) == Err::<Seq<TokenView>, LexerError>(e),
            },
    {
        let mut tokens: VecDeque<Token> = VecDeque::new();
        let mut pos: usize = 0;
        let ghost s = chars@;
        while pos < chars.len()
            invariant
                0 <= pos <= chars.len(),
                s == chars@,
                tokens_from(s, 0, plain) == prepend(
                    tokens@.map_values(|t: Token| t@),
                    tokens_from(s, pos as int, plain),
                ),
            decreases chars.len() - pos,
        {
            let ghost done = tokens@.map_values(|t: Token| t@);
            let start = pos;
            let c = chars[pos].value;
            let token: Option<Token>;
            if chars[pos].space {
                pos += 1;
                token = None;
            } else if !plain && Self::is_char(c) {
                pos += 1;
                token = Some(Token { kind: Self::special(c), pos: start });
            } else if !plain && c >= '0' && c <= '9' {
                match Self::parse_number(chars, &mut pos) {
                    Ok(t) => {
                        token = Some(t);
                    },
                    Err(e) => {
                        return Err(e);
                    },
                }
            } else if c == '"' || c == '\'' {
                match Self::parse_string(chars, &mut pos) {
                    Ok(t) => {
                        token = Some(t);
                    },
                    Err(e) => {
                        return Err(e);
                    },
                }
            } else if plain {
                token = Some(Self::parse_word(chars, &mut pos));
            } else {
                token = Some(Self::parse_else(chars, &mut pos));
            }
            proof {
                assert(pos > start);
            }
            match token {
                Some(t) => {
                    proof {
                        let rest = tokens_from(s, pos as int, plain);
                        assert(tokens@.push(t).map_values(|t: Token| t@) == done.push(t@));
                        assert(t@ == TokenView { kind: t@.kind, pos: start as nat });
                        assert(tokens_from(s, start as int, plain) == prepend(seq![t@], rest));
                        match rest {
                            Ok(more) => {
                                assert(done + (seq![t@] + more) == done.push(t@) + more);
                            },
                            Err(_) => {},
                        }
                    }
                    tokens.push_back(t);
                },
                None => {},
            }
        }
        proof {
            assert(tokens@.map_values(|t: Token| t@) + Seq::<TokenView>::empty()
                == tokens@.map_values(|t: Token| t@));
        }
        Ok(TokenStream::new(tokens))
    }

    /// Reads the number that begins at `*pos` and moves `*pos` behind it.
    pub fn parse_number(chars: &Vec<Glyph>, pos: &mut usize) -> (r: Result<Token, LexerError>)
        requires
            *old(pos) < chars.len(),
            keeps(Run::Number, chars@[*old(pos) as int]),
        ensures
            match r {
                Ok(t) => number_at(chars@, *old(pos) as int) == Ok::<
                    (TokenKindView, int),
                    LexerError,
                >((t@.kind, *final(pos) as int)) && t.pos == *old(pos) && *old(pos) < *final(pos)
                    <= chars.len(),
                Err(e) => number_at(chars@, *old(pos) as int) == Err::<
                    (TokenKindView, int),
                    LexerError,
                >(e),
            },
    {
        let start = *pos;
        let end = Self::skip(chars, start, Run::Number);
        proof {
            lemma_run_end_bounds(chars@, start + 1, Run::Number);
        }
        let mut text: Vec<char> = Vec::new();
        let mut has_point = false;
        let mut i: usize = start;
        while i < end
            invariant
                start <= i <= end <= chars.len(),
                text@ == without_underscores(crate::lexer::lexer::text(
                    chars@,
                    start as int,
                    i as int,
                )),
                has_point == text@.contains('.'),
            decreases end - i,
        {
            let c = chars[i].value;
            proof {
                assert(crate::lexer::lexer::text(chars@, start as int, i + 1).drop_last()
                    == crate::lexer::lexer::text(chars@, start as int, i as int));
            }
            if c != '_' {
                let ghost before = text@;
                text.push(c);
                proof {
                    if c == '.' {
                        assert(text@[before.len() as int] == '.');
                    } else if has_point {
                        let k = choose|k: int| 0 <= k < before.len() && before[k] == '.';
                        assert(text@[k] == '.');
                    } else {
                        assert forall|k: int| 0 <= k < text@.len() implies text@[k] != '.' by {
                            if k < before.len() {
                                assert(before[k] == text@[k]);
                                assert(!before.contains('.'));
                            }
                        }
                    }
                }
                if c == '.' {
                    has_point = true;
                }
            }
            i += 1;
        }
        *pos = end;
        if has_point {
            if is_float_literal(&text) {
                Ok(Token { kind: TokenKind::Float(string_from(&text)), pos: start })
            } else {
                Err(LexerError::InvalidNumber)
            }
        } else {
            match parse_int(&text) {
                Some(v) => Ok(Token { kind: TokenKind::Int(v), pos: start }),
                None => Err(LexerError::InvalidNumber),
            }
        }
    }

    /// Reads the quoted string that begins at `*pos` and moves `*pos` behind it.
    pub fn parse_string(chars: &Vec<Glyph>, pos: &mut usize) -> (r: Result<Token, LexerError>)
        requires
            *old(pos) < chars.len(),
        ensures
            match r {
                Ok(t) => string_at(chars@, *old(pos) as int) == Ok::<
                    (TokenKindView, int),
                    LexerError,
                >((t@.kind, *final(pos) as int)) && t.pos == *old(pos) && *old(pos) < *final(pos)
                    <= chars.len(),
                Err(e) => string_at(chars@, *old(pos) as int) == Err::<
                    (TokenKindView, int),
                    LexerError,
                >(e),
            },
    {
        let start = *pos;
        let close = Self::skip(chars, start + 1, Run::Quoted(chars[start].value));
        if close >= chars.len() {
            return Err(LexerError::UnterminatedString);
        }
        *pos = close + 1;
        Ok(Token { kind: TokenKind::String(text_between(chars, start + 1, close)), pos: start })
    }

    /// Reads the word at `*pos`, or the sentence that it begins, and moves
    /// `*pos` to where scanning goes on.
    pub fn parse_else(chars: &Vec<Glyph>, pos: &mut usize) -> (r: Token)
        requires
            *old(pos) < chars.len(),
            keeps(Run::Word, chars@[*old(pos) as int]),
        ensures
            word_at(chars@, *old(pos) as int) == (r@.kind, *final(pos) as int),
            r.pos == *old(pos),
            *old(pos) < *final(pos) <= chars.len(),
    {
        let start = *pos;
        let e = Self::skip(chars, start, Run::Word);
        proof {
            lemma_run_end_bounds(chars@, start + 1, Run::Word);
        }
        let word = chars_between(chars, start, e);
        match Self::keyword(&word) {
            Some(kind) => {
                *pos = e;
                return Token { kind, pos: start };
            },
            None => {},
        }
        let w = Self::skip(chars, e, Run::Attached);
        proof {
            lemma_run_end_bounds(chars@, e as int, Run::Attached);
        }
        if w >= chars.len() || chars[w].value == ';' {
            if w == e {
                *pos = e;
                return Token { kind: TokenKind::Word(string_from(&word)), pos: start };
            }
            *pos = w;
            return Token { kind: TokenKind::Sentence(text_between(chars, start, w)), pos: start };
        }
        let j = Self::skip(chars, w, Run::Gap);
        if j >= chars.len() {
            let end = trim_back_of(chars, start, chars.len());
            if end == e {
                *pos = e;
                return Token { kind: TokenKind::Word(string_from(&word)), pos: start };
            }
            *pos = chars.len();
            return Token { kind: TokenKind::Sentence(text_between(chars, start, end)), pos: start };
        }
        if !chars[j].alphanumeric && !chars[j].space {
            *pos = e;
            return Token { kind: TokenKind::Word(string_from(&word)), pos: start };
        }
        let t = Self::skip(chars, j, Run::Statement);
        let end = trim_back_of(chars, start, t);
        *pos = t;
        Token { kind: TokenKind::Sentence(text_between(chars, start, end)), pos: start }
    }

    /// The reserved word that `word` is, if it is one.
    pub fn keyword(word: &Vec<char>) -> (r: Option<TokenKind>)
        ensures
            match r {
                Some(kind) => reserved(word@) == Some(kind@),
                None => reserved(word@) is None,
            },
    {
        let n = word.len();
        proof {
            assert(word@.subrange(0, n as int) == word@);
        }
        if matches_ignoring_ascii_case(word, 0, n, &vec!['t', 'r', 'u', 'e']) {
            Some(TokenKind::Bool(true))
        } else if matches_ignoring_ascii_case(word, 0, n, &vec!['f', 'a', 'l', 's', 'e']) {
            Some(TokenKind::Bool(false))
        } else if matches_ignoring_ascii_case(word, 0, n, &vec!['i', 'f']) {
            Some(TokenKind::Keyword(Keyword::If))
        } else if matches_ignoring_ascii_case(word, 0, n, &vec!['l', 'e', 't']) {
            Some(TokenKind::Keyword(Keyword::Let))
        } else if matches_ignoring_ascii_case(word, 0, n, &vec!['e', 'l', 'i', 'f']) {
            Some(TokenKind::Keyword(Keyword::Elseif))
        } else if matches_ignoring_ascii_case(word, 0, n, &vec!['e', 'l', 's', 'e']) {
            Some(TokenKind::Keyword(Keyword::Else))
        } else if matches_ignoring_ascii_case(word, 0, n, &vec!['f', 'n']) {
            Some(TokenKind::Keyword(Keyword::Fn))
        } else if matches_ignoring_ascii_case(word, 0, n, &vec!['w', 'h', 'i', 'l', 'e']) {
            Some(TokenKind::Keyword(Keyword::While))
        } else {
            None
        }
    }

    /// Reads the word at `*pos`, which ends at the next white space, and
    /// moves `*pos` behind it.
    pub fn parse_word(chars: &Vec<Glyph>, pos: &mut usize) -> (r: Token)
        requires
            *old(pos) < chars.len(),
            keeps(Run::Unspaced, chars@[*old(pos) as int]),
        ensures
            r@.kind == TokenKindView::Word(
                text(chars@, *old(pos) as int, run_end(chars@, *old(pos) as int, Run::Unspaced)),
            ),
            *final(pos) == run_end(chars@, *old(pos) as int, Run::Unspaced),
            r.pos == *old(pos),
            *old(pos) < *final(pos) <= chars.len(),
    {
        let start = *pos;
        let end = Self::skip(chars, start, Run::Unspaced);
        proof {
            lemma_run_end_bounds(chars@, start + 1, Run::Unspaced);
        }
        *pos = end;
        Token { kind: TokenKind::Word(text_between(chars, start, end)), pos: start }
    }
}

} // verus!
