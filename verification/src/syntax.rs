//! Reading Rust syntax from token streams.

use crate::tokens;
use crate::tokens::Tok;
use proc_macro2::{Ident, Span, TokenStream};
use quote::ToTokens;
use syn::parse::{ParseStream, Parser};
use syn::token;
use syn::{Block, Error, Expr, FnArg, ImplItemFn, ItemFn, LitBool, Pat, Path};
use vstd::prelude::*;

verus! {

#[verifier::external_type_specification]
#[verifier::external_body]
pub struct ExError(Error);

/// The messages that an error holds, in order.
pub uninterp spec fn messages(error: Error) -> Seq<Seq<char>>;

/// The message of an error at the start of a sequence: it says so where nothing is left.
pub open spec fn expected(s: Seq<Tok>, text: Seq<char>) -> Seq<Seq<char>> {
    if s.len() == 0 {
        seq!["unexpected end of input, "@ + text]
    } else {
        seq![text]
    }
}

/// Whether a word is kept by the language and names nothing of a user's.
pub open spec fn is_reserved(word: Seq<char>) -> bool {
    ||| word == "_"@ || word == "abstract"@ || word == "as"@ || word == "async"@
    ||| word == "await"@ || word == "become"@ || word == "box"@ || word == "break"@
    ||| word == "const"@ || word == "continue"@ || word == "crate"@ || word == "do"@
    ||| word == "dyn"@ || word == "else"@ || word == "enum"@ || word == "extern"@
    ||| word == "false"@ || word == "final"@ || word == "fn"@ || word == "for"@
    ||| word == "if"@ || word == "impl"@ || word == "in"@ || word == "let"@
    ||| word == "loop"@ || word == "macro"@ || word == "match"@ || word == "mod"@
    ||| word == "move"@ || word == "mut"@ || word == "override"@ || word == "priv"@
    ||| word == "pub"@ || word == "ref"@ || word == "return"@ || word == "Self"@
    ||| word == "self"@ || word == "static"@ || word == "struct"@ || word == "super"@
    ||| word == "trait"@ || word == "true"@ || word == "try"@ || word == "type"@
    ||| word == "typeof"@ || word == "unsafe"@ || word == "unsized"@ || word == "use"@
    ||| word == "virtual"@ || word == "where"@ || word == "while"@ || word == "yield"@
}

/// The identifier that a sequence starts with, and what follows it; or the messages where it
/// starts with none.
pub open spec fn ident(s: Seq<Tok>) -> Result<(Seq<char>, Seq<Tok>), Seq<Seq<char>>> {
    match tokens::next(s) {
        Some((Tok::Ident(text), rest)) => if is_reserved(text) {
            Err(seq!["expected identifier, found keyword `"@ + text + "`"@])
        } else {
            Ok((text, rest))
        },
        _ => Err(expected(s, "expected identifier"@)),
    }
}

/// What follows the punctuation `ch` that a sequence starts with; or the messages where it
/// starts otherwise.
pub open spec fn punct(s: Seq<Tok>, ch: char) -> Result<Seq<Tok>, Seq<Seq<char>>> {
    match tokens::next(s) {
        Some((Tok::Punct(c, _), rest)) if c == ch => Ok(rest),
        _ => Err(seq!["expected `"@ + seq![ch] + "`"@]),
    }
}

/// The boolean literal that a sequence starts with, and what follows it; or the messages where
/// it starts with none.
pub open spec fn boolean(s: Seq<Tok>) -> Result<(bool, Seq<Tok>), Seq<Seq<char>>> {
    match tokens::next(s) {
        Some((Tok::Ident(text), rest)) if text == "true"@ => Ok((true, rest)),
        Some((Tok::Ident(text), rest)) if text == "false"@ => Ok((false, rest)),
        Some((Tok::Literal(text), rest)) if text == "true"@ => Ok((true, rest)),
        Some((Tok::Literal(text), rest)) if text == "false"@ => Ok((false, rest)),
        _ => Err(expected(s, "expected boolean literal"@)),
    }
}

/// An identifier at the start of a stream.
pub struct Word {
    pub text: String,
    pub span: Span,
    pub rest: TokenStream,
}

/// A piece of syntax at the start of a stream.
pub struct Piece {
    pub tokens: TokenStream,
    pub rest: TokenStream,
    /// The error to report in the end where a group inside the piece was not read to its end.
    pub stray: Option<Error>,
}

/// What a piece of syntax holds.
pub struct PieceView {
    pub tokens: Seq<Tok>,
    pub rest: Seq<Tok>,
    pub stray: Option<Seq<Seq<char>>>,
}

/// The messages of an error that may be there.
pub open spec fn opt_messages(error: Option<Error>) -> Option<Seq<Seq<char>>> {
    match error {
        Some(error) => Some(messages(error)),
        None => None,
    }
}

impl View for Piece {
    type V = PieceView;

    open spec fn view(&self) -> PieceView {
        PieceView {
            tokens: tokens::trees(self.tokens),
            rest: tokens::trees(self.rest),
            stray: opt_messages(self.stray),
        }
    }
}

/// What `Path::parse` makes of a sequence: the tokens of the path, what follows it, and the
/// messages of a group inside it that was not read to its end; or the messages of its error.
pub uninterp spec fn path_prefix(s: Seq<Tok>) -> Result<PieceView, Seq<Seq<char>>>;

/// What `Expr::parse` makes of a sequence, in the same way.
pub uninterp spec fn expr_prefix(s: Seq<Tok>) -> Result<PieceView, Seq<Seq<char>>>;

/// Calls `ParseBuffer::peek` for `=`: whether a stream starts with that punctuation, as a reader
/// sees it that looks through bare groups.
#[verifier::external_body]
pub(crate) fn peek_eq(input: &TokenStream) -> (found: bool)
    ensures
        found == tokens::begins(tokens::trees(*input), '='),
{
    let parser = |input: ParseStream| Ok((input.peek(token::Eq), input.parse::<TokenStream>()?));
    matches!(parser.parse2(input.clone()), Ok((true, _)))
}

/// Calls `ParseBuffer::peek2` for `=`: whether the second token of a stream is that punctuation,
/// as a reader sees it that looks through bare groups and takes a lifetime for one token.
#[verifier::external_body]
pub(crate) fn peek2_eq(input: &TokenStream) -> (found: bool)
    ensures
        found == tokens::second_is(tokens::trees(*input), '='),
{
    let parser = |input: ParseStream| Ok((input.peek2(token::Eq), input.parse::<TokenStream>()?));
    matches!(parser.parse2(input.clone()), Ok((true, _)))
}

/// Calls `ParseBuffer::peek` for `,`: whether a stream starts with that punctuation, as a reader
/// sees it that looks through bare groups.
#[verifier::external_body]
pub(crate) fn peek_comma(input: &TokenStream) -> (found: bool)
    ensures
        found == tokens::begins(tokens::trees(*input), ','),
{
    let parser = |input: ParseStream| Ok((input.peek(token::Comma), input.parse::<TokenStream>()?));
    matches!(parser.parse2(input.clone()), Ok((true, _)))
}

/// Calls `ParseBuffer::parse` for `=`: gives what follows it, each token in its place, or an error
/// with one message where the stream starts otherwise.
#[verifier::external_body]
pub(crate) fn parse_eq(input: &TokenStream) -> (parsed: Result<TokenStream, Error>)
    ensures
        match parsed {
            Ok(rest) => {
                &&& punct(tokens::trees(*input), '=') == Ok::<_, Seq<Seq<char>>>(
                    tokens::trees(rest),
                )
                &&& tokens::ends_with(*input, rest)
            },
            Err(error) => punct(tokens::trees(*input), '=') == Err::<Seq<Tok>, _>(messages(error)),
        },
{
    let parser = |input: ParseStream| Ok((input.parse::<token::Eq>()?, input.parse::<TokenStream>()?));
    Ok(parser.parse2(input.clone())?.1)
}

/// Calls `ParseBuffer::parse` for `,`: gives what follows it, each token in its place, or an error
/// with one message where the stream starts otherwise.
#[verifier::external_body]
pub(crate) fn parse_comma(input: &TokenStream) -> (parsed: Result<TokenStream, Error>)
    ensures
        match parsed {
            Ok(rest) => {
                &&& punct(tokens::trees(*input), ',') == Ok::<_, Seq<Seq<char>>>(
                    tokens::trees(rest),
                )
                &&& tokens::ends_with(*input, rest)
            },
            Err(error) => punct(tokens::trees(*input), ',') == Err::<Seq<Tok>, _>(messages(error)),
        },
{
    let parser = |input: ParseStream| Ok((input.parse::<token::Comma>()?, input.parse::<TokenStream>()?));
    Ok(parser.parse2(input.clone())?.1)
}

/// Calls `Ident::parse` and `Ident::span`: gives the identifier that the stream starts with, its
/// place, and what follows it, each token in its place; or an error with one message where the
/// stream starts otherwise or with a reserved word.
#[verifier::external_body]
pub(crate) fn parse_ident(input: &TokenStream) -> (parsed: Result<Word, Error>)
    ensures
        match parsed {
            Ok(word) => {
                &&& ident(tokens::trees(*input)) == Ok::<_, Seq<Seq<char>>>(
                    (word.text@, tokens::trees(word.rest)),
                )
                &&& tokens::ends_with(*input, word.rest)
                &&& tokens::places(word.rest).len() < tokens::places(*input).len()
                &&& word.span == tokens::place_before(
                    tokens::places(*input),
                    tokens::weight(tokens::trees(word.rest)),
                )
            },
            Err(error) => ident(tokens::trees(*input)) == Err::<(Seq<char>, Seq<Tok>), _>(
                messages(error),
            ),
        },
{
    let parser = |input: ParseStream| Ok((input.parse::<Ident>()?, input.parse::<TokenStream>()?));
    let (ident, rest) = parser.parse2(input.clone())?;
    Ok(Word { text: ident.to_string(), span: ident.span(), rest })
}

/// Calls `LitBool::parse` and `LitBool::value`: gives the boolean literal that the stream starts
/// with and what follows it, each token in its place, or an error with one message where it starts
/// otherwise.
#[verifier::external_body]
pub(crate) fn parse_bool(input: &TokenStream) -> (parsed: Result<(bool, TokenStream), Error>)
    ensures
        match parsed {
            Ok((value, rest)) => {
                &&& boolean(tokens::trees(*input)) == Ok::<_, Seq<Seq<char>>>(
                    (value, tokens::trees(rest)),
                )
                &&& tokens::ends_with(*input, rest)
            },
            Err(error) => boolean(tokens::trees(*input)) == Err::<(bool, Seq<Tok>), _>(
                messages(error),
            ),
        },
{
    let parser = |input: ParseStream| {
        Ok((input.parse::<LitBool>()?.value(), input.parse::<TokenStream>()?))
    };
    parser.parse2(input.clone())
}

/// Calls `Path::parse`, and prints the path that it read: the result is a function of the tokens
/// alone. A path has at least one segment, so what is left is less than there was. Its tokens keep
/// their places.
#[verifier::external_body]
pub(crate) fn parse_path(input: &TokenStream) -> (parsed: Result<Piece, Error>)
    ensures
        match parsed {
            Ok(piece) => {
                &&& path_prefix(tokens::trees(*input)) == Ok::<_, Seq<Seq<char>>>(piece@)
                &&& tokens::weight(tokens::trees(piece.rest)) < tokens::weight(
                    tokens::trees(*input),
                )
                &&& tokens::ends_with(*input, piece.rest)
            },
            Err(error) => path_prefix(tokens::trees(*input)) == Err::<PieceView, _>(
                messages(error),
            ),
        },
{
    let mut read = None;
    let parser = |input: ParseStream| {
        read = Some((input.parse::<Path>()?.to_token_stream(), input.parse::<TokenStream>()?));
        Ok(())
    };
    let end = parser.parse2(input.clone());
    match read {
        Some((tokens, rest)) => Ok(Piece { tokens, rest, stray: end.err() }),
        None => Err(end.unwrap_err()),
    }
}

/// Calls `Expr::parse`, and prints the expression that it read: the result is a function of the
/// tokens alone. What is left is no more than there was, and its tokens keep their places.
#[verifier::external_body]
pub(crate) fn parse_expr(input: &TokenStream) -> (parsed: Result<Piece, Error>)
    ensures
        match parsed {
            Ok(piece) => {
                &&& expr_prefix(tokens::trees(*input)) == Ok::<_, Seq<Seq<char>>>(piece@)
                &&& tokens::weight(tokens::trees(piece.rest)) <= tokens::weight(
                    tokens::trees(*input),
                )
                &&& tokens::ends_with(*input, piece.rest)
            },
            Err(error) => expr_prefix(tokens::trees(*input)) == Err::<PieceView, _>(
                messages(error),
            ),
        },
{
    let mut read = None;
    let parser = |input: ParseStream| {
        read = Some((input.parse::<Expr>()?.to_token_stream(), input.parse::<TokenStream>()?));
        Ok(())
    };
    let end = parser.parse2(input.clone());
    match read {
        Some((tokens, rest)) => Ok(Piece { tokens, rest, stray: end.err() }),
        None => Err(end.unwrap_err()),
    }
}

/// A function definition, as far as its body is replaced and its parameters are looked at.
pub struct Function {
    /// The function without its statements: the attributes before it, its visibility and its
    /// signature, and a body that holds no more than the attributes inside it.
    pub shell: TokenStream,
    /// For each parameter its name, where its pattern is an identifier.
    pub params: Vec<Option<String>>,
    /// The statements of the body.
    pub stmts: TokenStream,
}

/// What a function definition holds.
pub struct FunctionView {
    pub shell: Seq<Tok>,
    pub params: Seq<Option<Seq<char>>>,
    pub stmts: Seq<Tok>,
}

impl FunctionView {
    /// A function ends with its body.
    pub open spec fn wf(self) -> bool {
        self.shell.len() > 0 && self.shell.last() matches Tok::Group(tokens::Delim::Brace, _)
    }
}

/// The characters of a string that may be there.
pub open spec fn opt_chars(text: Option<String>) -> Option<Seq<char>> {
    match text {
        Some(text) => Some(text@),
        None => None,
    }
}

impl View for Function {
    type V = FunctionView;

    open spec fn view(&self) -> FunctionView {
        FunctionView {
            shell: tokens::trees(self.shell),
            params: self.params@.map_values(|name: Option<String>| opt_chars(name)),
            stmts: tokens::trees(self.stmts),
        }
    }
}

/// What parsing a whole sequence as an `ImplItemFn` gives: the parts of the method as printed, or
/// the messages of the error.
pub uninterp spec fn method_of(s: Seq<Tok>) -> Result<FunctionView, Seq<Seq<char>>>;

/// What parsing a whole sequence as an `ItemFn` gives: the parts of the function as printed, or
/// the messages of the error.
pub uninterp spec fn function_of(s: Seq<Tok>) -> Result<FunctionView, Seq<Seq<char>>>;

/// What parsing a whole sequence as a `Block` gives: the tokens of its statements, or the
/// messages of the error.
pub uninterp spec fn statements_of(s: Seq<Tok>) -> Result<Seq<Tok>, Seq<Seq<char>>>;

/// Calls `syn::parse2` for an `ImplItemFn`, takes the statements out of its body, and prints both:
/// the result is a function of the tokens alone. What is printed of a method without statements
/// ends with its body in braces.
#[verifier::external_body]
pub(crate) fn parse_method(item: &TokenStream) -> (parsed: Result<Function, Error>)
    ensures
        match parsed {
            Ok(f) => f@.wf() && method_of(tokens::trees(*item)) == Ok::<_, Seq<Seq<char>>>(f@),
            Err(error) => method_of(tokens::trees(*item)) == Err::<FunctionView, _>(
                messages(error),
            ),
        },
{
    let mut f = syn::parse2::<ImplItemFn>(item.clone())?;
    let stmts = std::mem::take(&mut f.block.stmts);
    let name = |arg: &FnArg| match arg {
        FnArg::Typed(typed) => match &*typed.pat {
            Pat::Ident(pat) => Some(pat.ident.to_string()),
            _ => None,
        },
        FnArg::Receiver(_) => None,
    };
    Ok(Function {
        shell: f.to_token_stream(),
        params: f.sig.inputs.iter().map(name).collect(),
        stmts: stmts.iter().map(ToTokens::to_token_stream).collect(),
    })
}

/// Calls `syn::parse2` for an `ItemFn`, takes the statements out of its body, and prints both:
/// the result is a function of the tokens alone. What is printed of a function without statements
/// ends with its body in braces.
#[verifier::external_body]
pub(crate) fn parse_function(item: &TokenStream) -> (parsed: Result<Function, Error>)
    ensures
        match parsed {
            Ok(f) => f@.wf() && function_of(tokens::trees(*item)) == Ok::<_, Seq<Seq<char>>>(f@),
            Err(error) => function_of(tokens::trees(*item)) == Err::<FunctionView, _>(
                messages(error),
            ),
        },
{
    let mut f = syn::parse2::<ItemFn>(item.clone())?;
    let stmts = std::mem::take(&mut f.block.stmts);
    let name = |arg: &FnArg| match arg {
        FnArg::Typed(typed) => match &*typed.pat {
            Pat::Ident(pat) => Some(pat.ident.to_string()),
            _ => None,
        },
        FnArg::Receiver(_) => None,
    };
    Ok(Function {
        shell: f.to_token_stream(),
        params: f.sig.inputs.iter().map(name).collect(),
        stmts: stmts.iter().map(ToTokens::to_token_stream).collect(),
    })
}

/// Calls `syn::parse2` for a `Block`, and prints its statements: the result is a function of the
/// tokens alone.
#[verifier::external_body]
pub(crate) fn parse_block(input: &TokenStream) -> (parsed: Result<TokenStream, Error>)
    ensures
        match parsed {
            Ok(stmts) => statements_of(tokens::trees(*input)) == Ok::<_, Seq<Seq<char>>>(
                tokens::trees(stmts),
            ),
            Err(error) => statements_of(tokens::trees(*input)) == Err::<Seq<Tok>, _>(
                messages(error),
            ),
        },
{
    let block = syn::parse2::<Block>(input.clone())?;
    Ok(block.stmts.iter().map(ToTokens::to_token_stream).collect())
}

/// `Span::call_site` gives the place where the macro is used.
pub assume_specification[ Span::call_site ]() -> Span
;

/// The tokens `::core::compile_error! { "message" }`, for each message in turn.
pub open spec fn compile_errors(texts: Seq<Seq<char>>) -> Seq<Tok>
    decreases texts.len(),
{
    if texts.len() == 0 {
        Seq::empty()
    } else {
        compile_errors(texts.drop_last()) + seq![
            Tok::Punct(':', true),
            Tok::Punct(':', false),
            Tok::Ident("core"@),
            Tok::Punct(':', true),
            Tok::Punct(':', false),
            Tok::Ident("compile_error"@),
            Tok::Punct('!', false),
            Tok::Group(
                tokens::Delim::Brace,
                seq![Tok::Literal(tokens::string_literal(texts.last()))],
            ),
        ]
    }
}

/// The places of the tokens of one such call that stands as a whole at one place.
pub open spec fn call_places(span: Span) -> Seq<Span> {
    seq![span, span, span, span, span, span, span, span, span]
}

/// Calls `Error::new` and `Error::to_compile_error`: a `compile_error!` call with a message, all of
/// it at the place that is given.
#[verifier::external_body]
pub(crate) fn compile_error_at(span: Span, message: &str) -> (stream: TokenStream)
    ensures
        tokens::trees(stream) == compile_errors(seq![message@]),
        tokens::places(stream) == call_places(span),
{
    Error::new(span, message).to_compile_error()
}

/// Calls `Error::to_compile_error`: a `compile_error!` call for each message of the error. Nothing
/// is said of its places: an error forgets them where it changes to another thread.
#[verifier::external_body]
pub(crate) fn to_compile_error(error: &Error) -> (stream: TokenStream)
    ensures
        tokens::trees(stream) == compile_errors(messages(*error)),
{
    error.to_compile_error()
}

} // verus!
