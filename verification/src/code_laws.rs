//! What the attributes write, token for token.

use crate::code;
use crate::code::{Expr, Name, Scope, Stmt};
use crate::tokens;
use crate::tokens::{Delim, Tok};
use vstd::prelude::*;

verus! {

/// A word.
pub open spec fn w(text: Seq<char>) -> Tok {
    Tok::Ident(text)
}

/// A punctuation character that stands alone.
pub open spec fn p(ch: char) -> Tok {
    Tok::Punct(ch, false)
}

/// A punctuation character that is joined to the next one.
pub open spec fn j(ch: char) -> Tok {
    Tok::Punct(ch, true)
}

/// Tokens in parentheses.
pub open spec fn paren(inner: Seq<Tok>) -> Tok {
    Tok::Group(Delim::Paren, inner)
}

/// Tokens in braces.
pub open spec fn brace(inner: Seq<Tok>) -> Tok {
    Tok::Group(Delim::Brace, inner)
}

/// How the variables of the generated code are spelt.
pub proof fn law_names()
    ensures
        Name::IdOpt.text() == "__id_opt"@,
        Name::Id.text() == "__id"@,
        Name::IdStr.text() == "__id_str"@,
        Name::CacheRes.text() == "__cache_res"@,
        Name::InnerRes.text() == "__inner_res"@,
        Name::Res.text() == "__res"@,
{
}

/// A variable is written as its name.
pub proof fn law_var_tokens(name: Name)
    ensures
        Expr::Var(name).tokens() == seq![w(name.text())],
{
}

/// A function's own statements are run by `async move { stmts }.await`: the braces hold the
/// statements once and nothing else.
pub proof fn law_run_tokens(stmts: Seq<Tok>)
    ensures
        Expr::Run(stmts).tokens() == seq![
            w("async"@),
            w("move"@),
            brace(stmts),
            p('.'),
            w("await"@),
        ],
{
    assert(Expr::Run(stmts).tokens() =~= seq![
        w("async"@),
        w("move"@),
        brace(stmts),
        p('.'),
        w("await"@),
    ]);
}

/// An id becomes a cache key by
/// `crate::common::cache::ToCacheIdOpt::to_cache_id_opt(&(id))`.
pub proof fn law_cache_id_tokens(id: Seq<Tok>)
    ensures
        Expr::CacheId(id).tokens() == seq![
            w("crate"@),
            j(':'),
            p(':'),
            w("common"@),
            j(':'),
            p(':'),
            w("cache"@),
            j(':'),
            p(':'),
            w("ToCacheIdOpt"@),
            j(':'),
            p(':'),
            w("to_cache_id_opt"@),
            paren(seq![p('&'), paren(id)]),
        ],
{
    assert(code::punct('&') + code::group(Delim::Paren, id) =~= seq![p('&'), paren(id)]);
    assert(Expr::CacheId(id).tokens() =~= seq![
        w("crate"@),
        j(':'),
        p(':'),
        w("common"@),
        j(':'),
        p(':'),
        w("cache"@),
        j(':'),
        p(':'),
        w("ToCacheIdOpt"@),
        j(':'),
        p(':'),
        w("to_cache_id_opt"@),
        paren(seq![p('&'), paren(id)]),
    ]);
}

/// The page lists are dropped by `cache.evict_page::<target>(ctx).await`, the record under a key by
/// `cache.evict_with_ctx::<target>(key, ctx).await`, and both by
/// `cache.evict_all_smart::<target>(key, ctx).await`: the cache manager, the type and the context
/// stand there as they are.
pub proof fn law_evict_tokens(cache: Seq<Tok>, target: Seq<Tok>, ctx: Seq<Tok>, key: Name)
    ensures
        (Expr::Evict { cache, target, ctx, scope: Scope::Page }).tokens() == cache + seq![
            p('.'),
            w("evict_page"@),
            j(':'),
            p(':'),
            p('<'),
        ] + target + seq![p('>'), paren(ctx), p('.'), w("await"@)],
        (Expr::Evict { cache, target, ctx, scope: Scope::One(key) }).tokens() == cache + seq![
            p('.'),
            w("evict_with_ctx"@),
            j(':'),
            p(':'),
            p('<'),
        ] + target + seq![
            p('>'),
            paren(seq![w(key.text()), p(',')] + ctx),
            p('.'),
            w("await"@),
        ],
        (Expr::Evict { cache, target, ctx, scope: Scope::All(key) }).tokens() == cache + seq![
            p('.'),
            w("evict_all_smart"@),
            j(':'),
            p(':'),
            p('<'),
        ] + target + seq![
            p('>'),
            paren(seq![w(key.text()), p(',')] + ctx),
            p('.'),
            w("await"@),
        ],
{
    assert(code::word(key.text()) + code::punct(',') + ctx =~= seq![w(key.text()), p(',')] + ctx);
    let page = (Expr::Evict { cache, target, ctx, scope: Scope::Page }).tokens();
    assert(page =~= cache + seq![p('.'), w("evict_page"@), j(':'), p(':'), p('<')] + target + seq![
        p('>'),
        paren(ctx),
        p('.'),
        w("await"@),
    ]);
    let one = (Expr::Evict { cache, target, ctx, scope: Scope::One(key) }).tokens();
    assert(one =~= cache + seq![p('.'), w("evict_with_ctx"@), j(':'), p(':'), p('<')] + target
        + seq![p('>'), paren(seq![w(key.text()), p(',')] + ctx), p('.'), w("await"@)]);
    let all = (Expr::Evict { cache, target, ctx, scope: Scope::All(key) }).tokens();
    assert(all =~= cache + seq![p('.'), w("evict_all_smart"@), j(':'), p(':'), p('<')] + target
        + seq![p('>'), paren(seq![w(key.text()), p(',')] + ctx), p('.'), w("await"@)]);
}

/// A key is looked up by
/// `cache.get_or_load_with_ctx::<target, _, _>(key, ctx, || async move { loader }).await?`: the
/// cache manager, the type, the context and the loader stand there as they are.
pub proof fn law_load_tokens(
    cache: Seq<Tok>,
    target: Seq<Tok>,
    ctx: Seq<Tok>,
    key: Name,
    loader: Seq<Stmt>,
    inner: Seq<Tok>,
)
    ensures
        code::load_call(cache, target, ctx, key, inner) == cache + seq![
            p('.'),
            w("get_or_load_with_ctx"@),
            j(':'),
            p(':'),
            p('<'),
        ] + target + seq![
            p(','),
            w("_"@),
            p(','),
            w("_"@),
            p('>'),
            paren(
                seq![w(key.text()), p(',')] + ctx + seq![
                    p(','),
                    j('|'),
                    p('|'),
                    w("async"@),
                    w("move"@),
                    brace(inner),
                ],
            ),
            p('.'),
            w("await"@),
            p('?'),
        ],
        (Expr::Load { cache, target, ctx, key, loader }).tokens() == code::load_call(
            cache,
            target,
            ctx,
            key,
            code::block_tokens(loader),
        ),
{
    let given = seq![w(key.text()), p(',')] + ctx + seq![
        p(','),
        j('|'),
        p('|'),
        w("async"@),
        w("move"@),
        brace(inner),
    ];
    assert(code::word(key.text()) + code::punct(',') + ctx + code::punct(',') + code::operator(
        '|',
        '|',
    ) + code::async_block(inner) =~= given);
    assert(code::load_call(cache, target, ctx, key, inner) =~= cache + seq![
        p('.'),
        w("get_or_load_with_ctx"@),
        j(':'),
        p(':'),
        p('<'),
    ] + target + seq![
        p(','),
        w("_"@),
        p(','),
        w("_"@),
        p('>'),
        paren(given),
        p('.'),
        w("await"@),
        p('?'),
    ]);
}

/// The error for a missing record becomes an absent value by `match name { Ok(__val) =>
/// Ok(Some(__val)), Err(crate::common::error::AppError::NotFound(_)) => Ok(None),
/// Err(e) => Err(e), }`.
pub proof fn law_absent_tokens(name: Name)
    ensures
        Expr::Absent(name).tokens() == seq![
            w("match"@),
            w(name.text()),
            brace(
                seq![
                    w("Ok"@),
                    paren(seq![w("__val"@)]),
                    j('='),
                    p('>'),
                    w("Ok"@),
                    paren(seq![w("Some"@), paren(seq![w("__val"@)])]),
                    p(','),
                    w("Err"@),
                    paren(
                        seq![
                            w("crate"@),
                            j(':'),
                            p(':'),
                            w("common"@),
                            j(':'),
                            p(':'),
                            w("error"@),
                            j(':'),
                            p(':'),
                            w("AppError"@),
                            j(':'),
                            p(':'),
                            w("NotFound"@),
                            paren(seq![w("_"@)]),
                        ],
                    ),
                    j('='),
                    p('>'),
                    w("Ok"@),
                    paren(seq![w("None"@)]),
                    p(','),
                    w("Err"@),
                    paren(seq![w("e"@)]),
                    j('='),
                    p('>'),
                    w("Err"@),
                    paren(seq![w("e"@)]),
                    p(','),
                ],
            ),
        ],
{
    let found = code::wrapped("Some"@, code::word("__val"@));
    assert(found =~= seq![w("Some"@), paren(seq![w("__val"@)])]);
    let not_found = seq![
        w("crate"@),
        j(':'),
        p(':'),
        w("common"@),
        j(':'),
        p(':'),
        w("error"@),
        j(':'),
        p(':'),
        w("AppError"@),
        j(':'),
        p(':'),
        w("NotFound"@),
        paren(seq![w("_"@)]),
    ];
    assert(code::app_error("NotFound"@) + code::group(Delim::Paren, code::word("_"@))
        =~= not_found);
    let arms = seq![
        w("Ok"@),
        paren(seq![w("__val"@)]),
        j('='),
        p('>'),
        w("Ok"@),
        paren(seq![w("Some"@), paren(seq![w("__val"@)])]),
        p(','),
        w("Err"@),
        paren(not_found),
        j('='),
        p('>'),
        w("Ok"@),
        paren(seq![w("None"@)]),
        p(','),
        w("Err"@),
        paren(seq![w("e"@)]),
        j('='),
        p('>'),
        w("Err"@),
        paren(seq![w("e"@)]),
        p(','),
    ];
    assert(code::arm(
        code::wrapped("Ok"@, code::word("__val"@)),
        code::wrapped("Ok"@, found),
    ) + code::arm(
        code::wrapped("Err"@, not_found),
        code::wrapped("Ok"@, code::word("None"@)),
    ) + code::arm(
        code::wrapped("Err"@, code::word("e"@)),
        code::wrapped("Err"@, code::word("e"@)),
    ) =~= arms);
    assert(Expr::Absent(name).tokens() =~= seq![w("match"@), w(name.text()), brace(arms)]);
}

/// An absent value becomes the error for a missing record by
/// `name.ok_or_else(|| crate::common::error::AppError::not_found("记录不存在"))`.
pub proof fn law_missing_tokens(name: Name)
    ensures
        Expr::Missing(name).tokens() == seq![
            w(name.text()),
            p('.'),
            w("ok_or_else"@),
            paren(
                seq![
                    j('|'),
                    p('|'),
                    w("crate"@),
                    j(':'),
                    p(':'),
                    w("common"@),
                    j(':'),
                    p(':'),
                    w("error"@),
                    j(':'),
                    p(':'),
                    w("AppError"@),
                    j(':'),
                    p(':'),
                    w("not_found"@),
                    paren(seq![Tok::Literal(tokens::string_literal("记录不存在"@))]),
                ],
            ),
        ],
{
    let inner = seq![
        j('|'),
        p('|'),
        w("crate"@),
        j(':'),
        p(':'),
        w("common"@),
        j(':'),
        p(':'),
        w("error"@),
        j(':'),
        p(':'),
        w("AppError"@),
        j(':'),
        p(':'),
        w("not_found"@),
        paren(seq![Tok::Literal(tokens::string_literal("记录不存在"@))]),
    ];
    assert(code::operator('|', '|') + code::app_error("not_found"@) + code::group(
        Delim::Paren,
        seq![Tok::Literal(tokens::string_literal(code::missing_text()))],
    ) =~= inner);
    assert(Expr::Missing(name).tokens() =~= seq![
        w(name.text()),
        p('.'),
        w("ok_or_else"@),
        paren(inner),
    ]);
}

/// How statements are written around what is in them: `let name = value;`, `let _ = value;`,
/// `if let Some(bound) = name { block }`, `if name.is_ok() { block }`, `return value;` and the value
/// alone.
pub proof fn law_statement_tokens(name: Name, bound: Name, value: Expr, block: Seq<Stmt>)
    ensures
        Stmt::Let(name, value).tokens() == seq![w("let"@), w(name.text()), p('=')] + value.tokens()
            + seq![p(';')],
        Stmt::Discard(value).tokens() == seq![w("let"@), w("_"@), p('=')] + value.tokens() + seq![
            p(';'),
        ],
        Stmt::IfSome(bound, name, block).tokens() == seq![
            w("if"@),
            w("let"@),
            w("Some"@),
            paren(seq![w(bound.text())]),
            p('='),
            w(name.text()),
            brace(code::block_tokens(block)),
        ],
        Stmt::IfOk(name, block).tokens() == seq![
            w("if"@),
            w(name.text()),
            p('.'),
            w("is_ok"@),
            paren(Seq::empty()),
            brace(code::block_tokens(block)),
        ],
        Stmt::Return(value).tokens() == seq![w("return"@)] + value.tokens() + seq![p(';')],
        Stmt::Value(value).tokens() == value.tokens(),
{
    assert(Stmt::Let(name, value).tokens() =~= seq![w("let"@), w(name.text()), p('=')]
        + value.tokens() + seq![p(';')]);
    assert(Stmt::Discard(value).tokens() =~= seq![w("let"@), w("_"@), p('=')] + value.tokens()
        + seq![p(';')]);
    assert(Stmt::IfSome(bound, name, block).tokens() =~= seq![
        w("if"@),
        w("let"@),
        w("Some"@),
        paren(seq![w(bound.text())]),
        p('='),
        w(name.text()),
        brace(code::block_tokens(block)),
    ]);
    assert(Stmt::IfOk(name, block).tokens() =~= seq![
        w("if"@),
        w(name.text()),
        p('.'),
        w("is_ok"@),
        paren(Seq::empty()),
        brace(code::block_tokens(block)),
    ]);
    assert(Stmt::Return(value).tokens() =~= seq![w("return"@)] + value.tokens() + seq![p(';')]);
}

/// How single statements are written by those who give their parts as tokens.
pub proof fn law_statement_parts(
    name: Name,
    bound: Name,
    text: Seq<char>,
    value: Seq<Tok>,
    block: Seq<Tok>,
)
    ensures
        code::let_stmt(text, value) == seq![w("let"@), w(text), p('=')] + value + seq![p(';')],
        code::if_some(bound, name, block) == seq![
            w("if"@),
            w("let"@),
            w("Some"@),
            paren(seq![w(bound.text())]),
            p('='),
            w(name.text()),
            brace(block),
        ],
        code::if_ok(name, block) == seq![
            w("if"@),
            w(name.text()),
            p('.'),
            w("is_ok"@),
            paren(Seq::empty()),
            brace(block),
        ],
        code::return_stmt(value) == seq![w("return"@)] + value + seq![p(';')],
        code::context_of_param() == seq![p('&'), w("param"@), p('.'), w("context"@)],
        code::context_itself() == seq![p('&'), w("ctx"@)],
        code::self_cache() == seq![w("self"@), p('.'), w("cache"@)],
{
    assert(code::let_stmt(text, value) =~= seq![w("let"@), w(text), p('=')] + value + seq![
        p(';'),
    ]);
    assert(code::if_some(bound, name, block) =~= seq![
        w("if"@),
        w("let"@),
        w("Some"@),
        paren(seq![w(bound.text())]),
        p('='),
        w(name.text()),
        brace(block),
    ]);
    assert(code::if_ok(name, block) =~= seq![
        w("if"@),
        w(name.text()),
        p('.'),
        w("is_ok"@),
        paren(Seq::empty()),
        brace(block),
    ]);
    assert(code::return_stmt(value) =~= seq![w("return"@)] + value + seq![p(';')]);
    assert(code::context_of_param() =~= seq![p('&'), w("param"@), p('.'), w("context"@)]);
    assert(code::context_itself() =~= seq![p('&'), w("ctx"@)]);
    assert(code::self_cache() =~= seq![w("self"@), p('.'), w("cache"@)]);
}

/// Statements in a row are written one after another, with nothing between them.
pub proof fn law_block_tokens(a: Seq<Stmt>, b: Seq<Stmt>, stmt: Stmt)
    ensures
        code::block_tokens(Seq::empty()) == Seq::<Tok>::empty(),
        code::block_tokens(seq![stmt]) == stmt.tokens(),
        code::block_tokens(a + b) == code::block_tokens(a) + code::block_tokens(b),
    decreases a.len(),
{
    reveal_with_fuel(code::block_tokens, 2);
    assert(seq![stmt].skip(1) =~= Seq::<Stmt>::empty());
    assert(stmt.tokens() + Seq::<Tok>::empty() =~= stmt.tokens());
    if a.len() == 0 {
        assert(a + b =~= b);
        assert(code::block_tokens(a) + code::block_tokens(b) =~= code::block_tokens(b));
    } else {
        law_block_tokens(a.skip(1), b, stmt);
        assert((a + b).skip(1) =~= a.skip(1) + b);
        assert(a[0].tokens() + (code::block_tokens(a.skip(1)) + code::block_tokens(b))
            =~= a[0].tokens() + code::block_tokens(a.skip(1)) + code::block_tokens(b));
    }
}

} // verus!
