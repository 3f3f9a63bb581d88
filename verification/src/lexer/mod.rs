pub mod lexer;
pub mod number;
pub mod token;
pub mod token_stream;

pub use lexer::{Lexer, LexerError};
pub use token::{Keyword, Operator, Token, TokenKind, TokenKindView, TokenView};
pub use token_stream::TokenStream;
