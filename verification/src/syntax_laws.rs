//! How tokens are seen by the reader of arguments, and how errors are written.

use crate::syntax;
use crate::tokens;
use crate::tokens::{Delim, Tok};
use vstd::prelude::*;

verus! {

/// The first token of two sequences in a row is that of the first one, if it has one.
proof fn lemma_next_add(a: Seq<Tok>, b: Seq<Tok>)
    ensures
        tokens::next(a + b) == match tokens::next(a) {
            Some((tok, rest)) => Some((tok, rest + b)),
            None => tokens::next(b),
        },
    decreases a.len(),
{
    if a.len() == 0 {
        assert(a + b =~= b);
    } else {
        lemma_next_add(a.skip(1), b);
        assert((a + b).skip(1) =~= a.skip(1) + b);
        if let Tok::Group(Delim::Bare, inner) = a[0] {
            if let Some((_, rest)) = tokens::next(inner) {
                assert(rest + (a + b).skip(1) =~= rest + a.skip(1) + b);
            }
        }
    }
}

/// A reader sees the first token and what follows it, and sees a bare group as what is in it.
pub proof fn law_next(tok: Tok, inner: Seq<Tok>, rest: Seq<Tok>)
    ensures
        tokens::next(Seq::empty()) is None,
        !(tok matches Tok::Group(Delim::Bare, _)) ==> tokens::next(seq![tok] + rest) == Some(
            (tok, rest),
        ),
        tokens::next(seq![Tok::Group(Delim::Bare, inner)] + rest) == tokens::next(inner + rest),
{
    assert((seq![tok] + rest).skip(1) =~= rest);
    assert((seq![Tok::Group(Delim::Bare, inner)] + rest).skip(1) =~= rest);
    lemma_next_add(inner, rest);
}

/// The weight of a sequence counts every token once, those in groups and the groups too.
pub proof fn law_weight(tok: Tok, delim: Delim, inner: Seq<Tok>, rest: Seq<Tok>)
    ensures
        tokens::weight(Seq::empty()) == 0,
        !(tok is Group) ==> tokens::weight(seq![tok] + rest) == 1 + tokens::weight(rest),
        tokens::weight(seq![Tok::Group(delim, inner)] + rest) == 1 + tokens::weight(inner)
            + tokens::weight(rest),
{
    assert((seq![tok] + rest).skip(1) =~= rest);
    assert((seq![Tok::Group(delim, inner)] + rest).skip(1) =~= rest);
}

/// Punctuation and booleans are what the reader sees first, whether the punctuation is joined to
/// the next one or not.
pub proof fn law_first_tokens(s: Seq<Tok>, ch: char, joint: bool, rest: Seq<Tok>)
    ensures
        tokens::next(s) == Some((Tok::Punct(ch, joint), rest)) ==> tokens::begins(s, ch)
            && syntax::punct(s, ch) == Ok::<_, Seq<Seq<char>>>(rest),
        tokens::begins(s, ch) <==> syntax::punct(s, ch) is Ok,
        syntax::punct(s, ch) matches Err(messages) ==> messages == seq![
            "expected `"@ + seq![ch] + "`"@,
        ],
        tokens::next(s) == Some((Tok::Ident("true"@), rest)) ==> syntax::boolean(s) == Ok::<
            _,
            Seq<Seq<char>>,
        >((true, rest)),
        tokens::next(s) == Some((Tok::Ident("false"@), rest)) ==> syntax::boolean(s) == Ok::<
            _,
            Seq<Seq<char>>,
        >((false, rest)),
        syntax::boolean(s) is Ok ==> (tokens::next(s) matches Some((tok, _)) && (tok == Tok::Ident(
            "true"@,
        ) || tok == Tok::Ident("false"@) || tok == Tok::Literal("true"@) || tok == Tok::Literal(
            "false"@,
        ))),
        syntax::boolean(Seq::empty()) == Err::<(bool, Seq<Tok>), _>(
            seq!["unexpected end of input, "@ + "expected boolean literal"@],
        ),
        s.len() > 0 ==> (syntax::boolean(s) matches Err(messages) ==> messages == seq![
            "expected boolean literal"@,
        ]),
{
    reveal_strlit("true");
    reveal_strlit("false");
    assert("true"@.len() == 4 && "false"@.len() == 5);
}

/// A word that is not reserved is read as it is, a reserved one is refused with its name, and
/// anything else is told to be no identifier.
pub proof fn law_first_word(s: Seq<Tok>, word: Seq<char>, rest: Seq<Tok>)
    ensures
        tokens::next(s) == Some((Tok::Ident(word), rest)) && !syntax::is_reserved(word)
            ==> syntax::ident(s) == Ok::<_, Seq<Seq<char>>>((word, rest)),
        tokens::next(s) == Some((Tok::Ident(word), rest)) && syntax::is_reserved(word)
            ==> syntax::ident(s) == Err::<(Seq<char>, Seq<Tok>), _>(
            seq!["expected identifier, found keyword `"@ + word + "`"@],
        ),
        !(tokens::next(s) matches Some((Tok::Ident(_), _))) ==> syntax::ident(s) == Err::<
            (Seq<char>, Seq<Tok>),
            _,
        >(
            seq![
                if s.len() == 0 {
                    "unexpected end of input, "@ + "expected identifier"@
                } else {
                    "expected identifier"@
                },
            ],
        ),
{
}

/// Each message becomes one call of `compile_error!` that holds it, in order, and nothing else is
/// written.
pub proof fn law_compile_errors(a: Seq<Seq<char>>, b: Seq<Seq<char>>, text: Seq<char>)
    ensures
        syntax::compile_errors(Seq::empty()) == Seq::<Tok>::empty(),
        syntax::compile_errors(seq![text]) == seq![
            Tok::Punct(':', true),
            Tok::Punct(':', false),
            Tok::Ident("core"@),
            Tok::Punct(':', true),
            Tok::Punct(':', false),
            Tok::Ident("compile_error"@),
            Tok::Punct('!', false),
            Tok::Group(Delim::Brace, seq![Tok::Literal(tokens::string_literal(text))]),
        ],
        syntax::compile_errors(a + b) == syntax::compile_errors(a) + syntax::compile_errors(b),
    decreases b.len(),
{
    reveal_with_fuel(syntax::compile_errors, 2);
    assert(seq![text].drop_last() =~= Seq::<Seq<char>>::empty());
    assert(syntax::compile_errors(seq![text]) =~= seq![
        Tok::Punct(':', true),
        Tok::Punct(':', false),
        Tok::Ident("core"@),
        Tok::Punct(':', true),
        Tok::Punct(':', false),
        Tok::Ident("compile_error"@),
        Tok::Punct('!', false),
        Tok::Group(Delim::Brace, seq![Tok::Literal(tokens::string_literal(text))]),
    ]);
    if b.len() == 0 {
        assert(a + b =~= a);
        assert(syntax::compile_errors(a) + syntax::compile_errors(b) =~= syntax::compile_errors(a));
    } else {
        law_compile_errors(a, b.drop_last(), text);
        assert((a + b).drop_last() =~= a + b.drop_last());
        assert((a + b).last() == b.last());
        assert(syntax::compile_errors(a + b) =~= syntax::compile_errors(a)
            + syntax::compile_errors(b));
    }
}

} // verus!
