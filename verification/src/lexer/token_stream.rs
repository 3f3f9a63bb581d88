use vstd::prelude::*;
use std::collections::VecDeque;
use crate::lexer::token::{Token, TokenKind, TokenView};
use crate::parser::grammar::{first_of, lemma_first_of_bounds};
use crate::parser::parser::ParseError;

verus! {

/// The tokens of a text that have not been consumed yet, first one in front.
#[derive(Debug)]
pub struct TokenStream {
    pub tokens: VecDeque<Token>,
}

impl View for TokenStream {
    type V = Seq<TokenView>;

    open spec fn view(&self) -> Seq<TokenView> {
        self.tokens@.map_values(|t: Token| t@)
    }
}

/// `s` without its first element; `s` itself where it is empty.
pub open spec fn without_first<T>(s: Seq<T>) -> Seq<T> {
    if s.len() > 0 {
        s.drop_first()
    } else {
        s
    }
}

impl TokenStream {
    /// The stream of the given tokens.
    pub fn new(stream: VecDeque<Token>) -> (r: Self)
        ensures
            r@ == stream@.map_values(|t: Token| t@),
    {
        Self { tokens: stream }
    }

    /// Hands out the remaining tokens, in order.
    pub fn into_iter(self) -> (r: Vec<Token>)
        ensures
            r@.map_values(|t: Token| t@) == self@,
    {
        let mut rest = self;
        let mut out: Vec<Token> = Vec::new();
        let ghost all = rest@;
        while rest.tokens.len() > 0
            invariant
                out@.map_values(|t: Token| t@) + rest@ == all,
            decreases rest.tokens.len(),
        {
            let ghost before = rest@;
            let ghost done = out@.map_values(|t: Token| t@);
            let t = rest.tokens.pop_front().unwrap();
            proof {
                assert(rest@ == before.drop_first());
                assert(out@.push(t).map_values(|t: Token| t@) == done.push(t@));
                assert(done.push(t@) + before.drop_first() == done + before);
            }
            out.push(t);
        }
        assert(out@.map_values(|t: Token| t@) + rest@ == out@.map_values(|t: Token| t@));
        out
    }

    /// The front token, if there is one.
    pub fn peek(&self) -> (r: Option<&Token>)
        ensures
            match r {
                Some(t) => self@.len() > 0 && t@ == self@[0],
                None => self@.len() == 0,
            },
    {
        if self.tokens.len() > 0 {
            Some(&self.tokens[0])
        } else {
            None
        }
    }

    /// The token `n` places behind the front one, if there is one.
    pub fn peek_next(&self, n: usize) -> (r: Option<&Token>)
        ensures
            match r {
                Some(t) => n < self@.len() && t@ == self@[n as int],
                None => n >= self@.len(),
            },
    {
        if n < self.tokens.len() {
            Some(&self.tokens[n])
        } else {
            None
        }
    }

    /// Takes the front token out of the stream.
    pub fn next(&mut self) -> (r: Option<Token>)
        ensures
            match r {
                Some(t) => old(self)@.len() > 0 && t@ == old(self)@[0],
                None => old(self)@.len() == 0,
            },
            final(self)@ == without_first(old(self)@),
    {
        if self.len() == 0 {
            return None;
        }
        let current = self.tokens.pop_front();
        assert(self@ == old(self)@.drop_first());
        current
    }

    /// Takes the front token out and succeeds if it is `expected`.
    pub fn expect(&mut self, expected: TokenKind) -> (r: Result<(), ParseError>)
        ensures
            final(self)@ == without_first(old(self)@),
            r is Ok <==> old(self)@.len() > 0 && old(self)@[0].kind == expected@,
            r is Err ==> r == Err::<(), ParseError>(ParseError::TokenNotFound),
    {
        match self.next() {
            Some(t) => {
                if t.kind.same(&expected) {
                    Ok(())
                } else {
                    Err(ParseError::TokenNotFound)
                }
            },
            None => Err(ParseError::TokenNotFound),
        }
    }

    /// Takes the tokens before the first one of the given kind out of the
    /// stream, all of them where there is none of that kind.
    pub fn take_before(&mut self, kind: &TokenKind) -> (r: TokenStream)
        ensures
            r@ == old(self)@.take(first_of(old(self)@, kind@)),
            final(self)@ == old(self)@.skip(first_of(old(self)@, kind@)),
            0 <= first_of(old(self)@, kind@) <= old(self)@.len(),
    {
        let ghost ts = self@;
        let mut taken: VecDeque<Token> = VecDeque::new();
        proof {
            lemma_first_of_bounds(ts, kind@);
            assert(ts.skip(0) == ts);
            assert(ts.take(0) == taken@.map_values(|t: Token| t@));
        }
        loop
            invariant_except_break
                0 <= taken.len() <= first_of(ts, kind@) <= ts.len(),
                self@ == ts.skip(taken.len() as int),
                taken@.map_values(|t: Token| t@) == ts.take(taken.len() as int),
                first_of(ts, kind@) == taken.len() + first_of(self@, kind@),
            ensures
                taken.len() == first_of(ts, kind@),
                self@ == ts.skip(taken.len() as int),
                taken@.map_values(|t: Token| t@) == ts.take(taken.len() as int),
            decreases self@.len(),
        {
            let at_end = match self.peek() {
                None => true,
                Some(t) => t.kind.same(kind),
            };
            if at_end {
                break ;
            }
            let ghost before = self@;
            let ghost done = taken@.map_values(|t: Token| t@);
            let t = self.tokens.pop_front().unwrap();
            proof {
                assert(self@ == before.drop_first());
                assert(before.drop_first() == ts.skip(taken.len() + 1));
                lemma_first_of_bounds(before.drop_first(), kind@);
                assert(taken@.push(t).map_values(|t: Token| t@) == done.push(t@));
                assert(ts.take(taken.len() + 1) == ts.take(taken.len() as int).push(t@));
            }
            taken.push_back(t);
        }
        TokenStream::new(taken)
    }

    /// The number of tokens that are left.
    pub fn len(&self) -> (r: usize)
        ensures
            r == self@.len(),
    {
        self.tokens.len()
    }

    /// Puts a token in front of the others.
    pub fn push_front(&mut self, token: Token)
        ensures
            final(self)@ == seq![token@] + old(self)@,
    {
        self.tokens.push_front(token);
        assert(self@ == seq![token@] + old(self)@);
    }
}

} // verus!
