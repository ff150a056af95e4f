//! Token streams and what they hold.

use proc_macro2::{Delimiter, Group, Ident, Literal, Punct, Spacing, Span, TokenStream, TokenTree};
use vstd::prelude::*;

verus! {

/// The delimiter of a token group. A `Bare` group has no visible delimiter: it keeps together
/// what a declarative macro substituted for one of its variables.
#[derive(Clone, Copy, PartialEq, Eq, Structural, Debug)]
pub enum Delim {
    Paren,
    Brace,
    Bracket,
    Bare,
}

/// One token tree, without its source location.
pub enum Tok {
    /// An identifier or keyword, as it prints; a raw identifier starts with `r#`.
    Ident(Seq<char>),
    /// A punctuation character, and whether it is joined to the punctuation that follows it.
    Punct(char, bool),
    /// A literal, as it prints.
    Literal(Seq<char>),
    Group(Delim, Seq<Tok>),
}

#[verifier::external_type_specification]
#[verifier::external_body]
pub struct ExTokenStream(TokenStream);

#[verifier::external_type_specification]
#[verifier::external_body]
pub struct ExSpan(Span);

/// The token trees that a stream holds, in order.
pub uninterp spec fn trees(stream: TokenStream) -> Seq<Tok>;

/// The places of the tokens that a stream holds, in the order in which they are written: that of a
/// group, then those of the tokens inside it.
pub uninterp spec fn places(stream: TokenStream) -> Seq<Span>;

/// Whether the tokens of a stream, one place each, are the last ones of another and have kept
/// their places.
pub open spec fn ends_with(whole: TokenStream, rest: TokenStream) -> bool {
    &&& places(rest).is_suffix_of(places(whole))
    &&& places(rest).len() == weight(trees(rest))
}

/// The place of the token that `after` tokens follow.
pub open spec fn place_before(places: Seq<Span>, after: nat) -> Span {
    places[places.len() - after - 1]
}

/// The token trees of a stream that may be there.
pub open spec fn opt_trees(stream: Option<TokenStream>) -> Option<Seq<Tok>> {
    match stream {
        Some(stream) => Some(trees(stream)),
        None => None,
    }
}

/// `TokenStream::new` gives a stream without tokens.
pub assume_specification[ TokenStream::new ]() -> (stream: TokenStream)
    ensures
        trees(stream) == Seq::<Tok>::empty(),
;

/// `TokenStream::is_empty` tells whether a stream holds no token tree.
pub assume_specification[ TokenStream::is_empty ](stream: &TokenStream) -> (empty: bool)
    ensures
        empty == (trees(*stream).len() == 0),
;

/// The number of tokens in a sequence, those inside its groups and the groups themselves
/// included.
pub open spec fn weight(s: Seq<Tok>) -> nat
    decreases s,
{
    if s.len() == 0 {
        0
    } else {
        (match s[0] {
            Tok::Group(_, inner) => weight(inner),
            _ => 0,
        }) + 1 + weight(s.skip(1))
    }
}

/// The first token of a sequence and what follows it, as a reader sees it that looks through
/// bare groups.
pub open spec fn next(s: Seq<Tok>) -> Option<(Tok, Seq<Tok>)>
    decreases s,
{
    if s.len() == 0 {
        None
    } else {
        match s[0] {
            Tok::Group(Delim::Bare, inner) => match next(inner) {
                Some((tok, rest)) => Some((tok, rest + s.skip(1))),
                None => next(s.skip(1)),
            },
            tok => Some((tok, s.skip(1))),
        }
    }
}

/// Whether a reader that looks through bare groups sees the punctuation `ch` first.
pub open spec fn begins(s: Seq<Tok>, ch: char) -> bool {
    next(s) matches Some((Tok::Punct(c, _), _)) && c == ch
}

/// What follows the first token of a sequence, as a reader sees it that looks through bare
/// groups and takes a lifetime for one token.
pub open spec fn past_first(s: Seq<Tok>) -> Option<Seq<Tok>>
    decreases s,
{
    if s.len() == 0 {
        None
    } else {
        match s[0] {
            Tok::Group(Delim::Bare, inner) => match past_first(inner) {
                Some(rest) => Some(rest + s.skip(1)),
                None => past_first(s.skip(1)),
            },
            Tok::Punct('\'', true) if s.len() > 1 && s[1] is Ident => Some(s.skip(2)),
            _ => Some(s.skip(1)),
        }
    }
}

/// Whether the second token of a sequence, so read, is the punctuation `ch`.
pub open spec fn second_is(s: Seq<Tok>, ch: char) -> bool {
    past_first(s) matches Some(rest) && begins(rest, ch)
}

/// The weight of two sequences in a row is the sum of their weights.
pub proof fn lemma_weight_add(a: Seq<Tok>, b: Seq<Tok>)
    ensures
        weight(a + b) == weight(a) + weight(b),
    decreases a.len(),
{
    if a.len() == 0 {
        assert(a + b =~= b);
    } else {
        lemma_weight_add(a.skip(1), b);
        assert((a + b).skip(1) =~= a.skip(1) + b);
    }
}

/// Reading a token leaves less than there was.
pub proof fn lemma_next_shrinks(s: Seq<Tok>)
    ensures
        next(s) matches Some((_, rest)) ==> weight(rest) < weight(s),
    decreases s,
{
    if s.len() != 0 {
        match s[0] {
            Tok::Group(Delim::Bare, inner) => {
                lemma_next_shrinks(inner);
                match next(inner) {
                    Some((_, rest)) => lemma_weight_add(rest, s.skip(1)),
                    None => lemma_next_shrinks(s.skip(1)),
                }
            },
            _ => {},
        }
    }
}

/// Whether a text is an identifier or keyword made of ASCII letters, digits and underscores.
pub open spec fn is_word(text: Seq<char>) -> bool {
    &&& text.len() > 0
    &&& !('0' <= text[0] <= '9')
    &&& forall|i: int|
        0 <= i < text.len() ==> {
            let c = #[trigger] text[i];
            'a' <= c <= 'z' || 'A' <= c <= 'Z' || '0' <= c <= '9' || c == '_'
        }
}

/// Whether a character is punctuation of the language.
pub open spec fn is_punct(c: char) -> bool {
    ||| c == '!' || c == '#' || c == '$' || c == '%' || c == '&' || c == '\'' || c == '*'
    ||| c == '+' || c == ',' || c == '-' || c == '.' || c == '/' || c == ':' || c == ';'
    ||| c == '<' || c == '=' || c == '>' || c == '?' || c == '@' || c == '^' || c == '|'
    ||| c == '~'
}

/// The text of the literal that `Literal::string` makes of a string: the string in quotes, with
/// what needs it escaped.
pub uninterp spec fn string_literal(value: Seq<char>) -> Seq<char>;

/// Calls `Ident::new` at the call site and `TokenStream::extend`: an identifier that prints as
/// `name` is added at the end. `Ident::new` panics where `name` is neither an identifier nor a
/// keyword.
#[verifier::external_body]
pub(crate) fn push_ident(out: &mut TokenStream, name: &str)
    requires
        is_word(name@),
    ensures
        trees(*final(out)) == trees(*old(out)).push(Tok::Ident(name@)),
{
    out.extend([Ident::new(name, Span::call_site())]);
}

/// Calls `Punct::new` and `TokenStream::extend`: a punctuation character is added at the end.
/// `Punct::new` panics where `ch` is not punctuation of the language.
#[verifier::external_body]
pub(crate) fn push_punct(out: &mut TokenStream, ch: char, joint: bool)
    requires
        is_punct(ch),
    ensures
        trees(*final(out)) == trees(*old(out)).push(Tok::Punct(ch, joint)),
{
    let spacing = if joint { Spacing::Joint } else { Spacing::Alone };
    out.extend([Punct::new(ch, spacing)]);
}

/// Calls `Literal::string` and `TokenStream::extend`: a string literal is added at the end.
#[verifier::external_body]
pub(crate) fn push_string(out: &mut TokenStream, value: &str)
    ensures
        trees(*final(out)) == trees(*old(out)).push(Tok::Literal(string_literal(value@))),
{
    out.extend([Literal::string(value)]);
}

/// Calls `Group::new` and `TokenStream::extend`: a group of the tokens of `inner` is added at
/// the end.
#[verifier::external_body]
pub(crate) fn push_group(out: &mut TokenStream, delim: Delim, inner: TokenStream)
    ensures
        trees(*final(out)) == trees(*old(out)).push(Tok::Group(delim, trees(inner))),
{
    let delimiter = match delim {
        Delim::Paren => Delimiter::Parenthesis,
        Delim::Brace => Delimiter::Brace,
        Delim::Bracket => Delimiter::Bracket,
        Delim::Bare => Delimiter::None,
    };
    out.extend([Group::new(delimiter, inner)]);
}

/// Calls `TokenStream::extend` with a copy of `more`: its tokens are added at the end.
#[verifier::external_body]
pub(crate) fn append(out: &mut TokenStream, more: &TokenStream)
    ensures
        trees(*final(out)) == trees(*old(out)) + trees(*more),
{
    out.extend([more.clone()]);
}

/// Calls `TokenStream::into_iter` and `TokenStream::from_iter`: takes the group off that a stream
/// ends with, and gives what stands before it and what it holds.
#[verifier::external_body]
pub(crate) fn split_last_group(stream: &TokenStream) -> (split: Option<(TokenStream, TokenStream)>)
    ensures
        match split {
            Some((before, inner)) => {
                &&& trees(*stream).len() > 0
                &&& trees(before) == trees(*stream).drop_last()
                &&& trees(*stream).last() matches Tok::Group(_, held) && held == trees(inner)
            },
            None => trees(*stream).len() == 0 || !(trees(*stream).last() is Group),
        },
{
    let mut before: Vec<TokenTree> = stream.clone().into_iter().collect();
    match before.pop() {
        Some(TokenTree::Group(group)) => Some((before.into_iter().collect(), group.stream())),
        _ => None,
    }
}

} // verus!
