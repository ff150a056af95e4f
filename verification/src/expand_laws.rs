//! What the attributes make of a function, told from what the user wrote.

use crate::args;
use crate::args::{Attr, CacheEvictArgsView, CacheableArgsView, Fault};
use crate::code;
use crate::code::{Expr, Name, Scope, Stmt};
use crate::code_laws;
use crate::expand;
use crate::syntax;
use crate::syntax::FunctionView;
use crate::tokens;
use crate::tokens::{Delim, Tok};
use proc_macro2::{Span, TokenStream};
use vstd::prelude::*;

verus! {

/// The cache manager is the one that the user gave, as it is written; without one it is
/// `self.cache`.
pub proof fn law_manager(cache: Seq<Tok>)
    ensures
        expand::manager(Some(cache)) == cache,
        expand::manager(None) == seq![
            Tok::Ident("self"@),
            Tok::Punct('.', false),
            Tok::Ident("cache"@),
        ],
{
    code_laws::law_statement_parts(Name::Id, Name::Id, "cache"@, cache, cache);
}

/// Whether a parameter is called `ctx` and none before it is called `param`.
pub open spec fn is_early_ctx(params: Seq<Option<Seq<char>>>, i: int) -> bool {
    &&& 0 <= i < params.len()
    &&& params[i] == Some("ctx"@)
    &&& forall|k: int| 0 <= k < i ==> #[trigger] params[k] != Some("param"@)
}

/// The request context is the one that the user gave, as it is written. Without one it is `&ctx`
/// exactly where a parameter is called `ctx` and none before it is called `param`; else it is
/// `&param.context`.
pub proof fn law_context(params: Seq<Option<Seq<char>>>, ctx: Seq<Tok>)
    ensures
        expand::context(params, Some(ctx)) == ctx,
        expand::context(params, None) == if exists|i: int| is_early_ctx(params, i) {
            seq![Tok::Punct('&', false), Tok::Ident("ctx"@)]
        } else {
            seq![
                Tok::Punct('&', false),
                Tok::Ident("param"@),
                Tok::Punct('.', false),
                Tok::Ident("context"@),
            ]
        },
    decreases params.len(),
{
    code_laws::law_statement_parts(Name::Id, Name::Id, "cache"@, ctx, ctx);
    reveal_strlit("param");
    reveal_strlit("ctx");
    assert("param"@.len() == 5 && "ctx"@.len() == 3);
    if params.len() > 0 && params[0] != Some("param"@) && params[0] != Some("ctx"@) {
        let rest = params.skip(1);
        law_context(rest, ctx);
        if exists|i: int| is_early_ctx(params, i) {
            let i = choose|i: int| is_early_ctx(params, i);
            assert forall|k: int| 0 <= k < i - 1 implies #[trigger] rest[k] != Some("param"@) by {
                assert(rest[k] == params[k + 1]);
            }
            assert(is_early_ctx(rest, i - 1));
        }
        if exists|i: int| is_early_ctx(rest, i) {
            let i = choose|i: int| is_early_ctx(rest, i);
            assert forall|k: int| 0 <= k < i + 1 implies #[trigger] params[k] != Some("param"@) by {
                if k > 0 {
                    assert(rest[k - 1] == params[k]);
                }
            }
            assert(is_early_ctx(params, i + 1));
        }
    } else if params.len() > 0 && params[0] == Some("ctx"@) {
        assert(is_early_ctx(params, 0));
    }
}

/// `crate::common::cache::ToCacheIdOpt::to_cache_id_opt(&(id))`
pub open spec fn key_tokens(id: Seq<Tok>) -> Seq<Tok> {
    seq![
        Tok::Ident("crate"@),
        Tok::Punct(':', true),
        Tok::Punct(':', false),
        Tok::Ident("common"@),
        Tok::Punct(':', true),
        Tok::Punct(':', false),
        Tok::Ident("cache"@),
        Tok::Punct(':', true),
        Tok::Punct(':', false),
        Tok::Ident("ToCacheIdOpt"@),
        Tok::Punct(':', true),
        Tok::Punct(':', false),
        Tok::Ident("to_cache_id_opt"@),
        Tok::Group(
            Delim::Paren,
            seq![Tok::Punct('&', false), Tok::Group(Delim::Paren, id)],
        ),
    ]
}

/// `let name = `
pub open spec fn let_tokens(name: Seq<char>) -> Seq<Tok> {
    seq![Tok::Ident("let"@), Tok::Ident(name), Tok::Punct('=', false)]
}

/// `.method::<`
pub open spec fn method_tokens(method: Seq<char>) -> Seq<Tok> {
    seq![
        Tok::Punct('.', false),
        Tok::Ident(method),
        Tok::Punct(':', true),
        Tok::Punct(':', false),
        Tok::Punct('<', false),
    ]
}

/// `>(given).await;`
pub open spec fn call_tokens(given: Seq<Tok>) -> Seq<Tok> {
    seq![
        Tok::Punct('>', false),
        Tok::Group(Delim::Paren, given),
        Tok::Punct('.', false),
        Tok::Ident("await"@),
        Tok::Punct(';', false),
    ]
}

/// `name, ctx`
pub open spec fn given_tokens(name: Seq<char>, ctx: Seq<Tok>) -> Seq<Tok> {
    seq![Tok::Ident(name), Tok::Punct(',', false)] + ctx
}

/// What is written to drop from the cache, for every way to give `id`, `page` and `all`: with `all`
/// and an id the record and the page lists; with `all` alone, or with `page` and without `all`, the
/// page lists; with an id alone the record where the id gives a key; else nothing.
#[verifier::spinoff_prover]
#[verifier::rlimit(40)]
pub proof fn law_written_evictions(args: CacheEvictArgsView, cache: Seq<Tok>, ctx: Seq<Tok>)
    ensures
        ({
            let written = code::block_tokens(expand::evictions(args, cache, ctx));
            &&& (args.all && args.id is Some) ==> written == let_tokens("__id_opt"@) + key_tokens(
                args.id->0,
            ) + seq![Tok::Punct(';', false)] + let_tokens("_"@) + cache + method_tokens(
                "evict_all_smart"@,
            ) + args.target + call_tokens(given_tokens("__id_opt"@, ctx))
            &&& (args.all && args.id is None) ==> written == let_tokens("_"@) + cache
                + method_tokens("evict_page"@) + args.target + call_tokens(ctx)
            &&& (!args.all && args.page) ==> written == let_tokens("_"@) + cache + method_tokens(
                "evict_page"@,
            ) + args.target + call_tokens(ctx)
            &&& (!args.all && !args.page && args.id is Some) ==> written == let_tokens("__id_opt"@)
                + key_tokens(args.id->0) + seq![
                Tok::Punct(';', false),
                Tok::Ident("if"@),
                Tok::Ident("let"@),
                Tok::Ident("Some"@),
                Tok::Group(Delim::Paren, seq![Tok::Ident("__id_str"@)]),
                Tok::Punct('=', false),
                Tok::Ident("__id_opt"@),
                Tok::Group(
                    Delim::Brace,
                    let_tokens("_"@) + cache + method_tokens("evict_with_ctx"@) + args.target
                        + call_tokens(given_tokens("__id_str"@, ctx)),
                ),
            ]
            &&& (!args.all && !args.page && args.id is None) ==> written == Seq::<Tok>::empty()
        }),
{
    let stmts = expand::evictions(args, cache, ctx);
    let target = args.target;
    code_laws::law_names();
    code_laws::law_evict_tokens(cache, target, ctx, Name::IdOpt);
    code_laws::law_evict_tokens(cache, target, ctx, Name::IdStr);
    let page = Expr::Evict { cache, target, ctx, scope: Scope::Page };
    let one = Expr::Evict { cache, target, ctx, scope: Scope::One(Name::IdStr) };
    let all = Expr::Evict { cache, target, ctx, scope: Scope::All(Name::IdOpt) };
    let inner = seq![Stmt::Discard(one)];
    code_laws::law_statement_tokens(Name::IdOpt, Name::IdStr, page, inner);
    code_laws::law_statement_tokens(Name::IdOpt, Name::IdStr, one, inner);
    code_laws::law_statement_tokens(Name::IdOpt, Name::IdStr, all, inner);
    if args.id is Some {
        let id = args.id->0;
        code_laws::law_cache_id_tokens(id);
        code_laws::law_statement_tokens(Name::IdOpt, Name::IdStr, Expr::CacheId(id), inner);
    }
    if stmts.len() > 0 {
        let rest = stmts.skip(1);
        code_laws::law_block_tokens(seq![stmts[0]], rest, stmts[0]);
        assert(seq![stmts[0]] + rest =~= stmts);
        if rest.len() > 0 {
            code_laws::law_block_tokens(rest, rest, rest[0]);
            assert(seq![rest[0]] =~= rest);
        } else {
            code_laws::law_block_tokens(rest, rest, stmts[0]);
            assert(rest =~= Seq::<Stmt>::empty());
        }
    } else {
        code_laws::law_block_tokens(stmts, stmts, Stmt::Discard(page));
        assert(stmts =~= Seq::<Stmt>::empty());
    }
    let written = code::block_tokens(stmts);
    if args.all && args.id is Some {
        assert(written =~= let_tokens("__id_opt"@) + key_tokens(args.id->0) + seq![
            Tok::Punct(';', false),
        ] + let_tokens("_"@) + cache + method_tokens("evict_all_smart"@) + target + call_tokens(
            given_tokens("__id_opt"@, ctx),
        ));
    } else if args.all || args.page {
        assert(written =~= let_tokens("_"@) + cache + method_tokens("evict_page"@) + target
            + call_tokens(ctx));
    } else if args.id is Some {
        code_laws::law_block_tokens(inner, inner, Stmt::Discard(one));
        let block = let_tokens("_"@) + cache + method_tokens("evict_with_ctx"@) + target
            + call_tokens(given_tokens("__id_str"@, ctx));
        assert(code::block_tokens(inner) =~= block);
        assert(written =~= let_tokens("__id_opt"@) + key_tokens(args.id->0) + seq![
            Tok::Punct(';', false),
            Tok::Ident("if"@),
            Tok::Ident("let"@),
            Tok::Ident("Some"@),
            Tok::Group(Delim::Paren, seq![Tok::Ident("__id_str"@)]),
            Tok::Punct('=', false),
            Tok::Ident("__id_opt"@),
            Tok::Group(Delim::Brace, block),
        ]);
    }
}

/// The tokens of three statements.
proof fn lemma_three(block: Seq<Stmt>)
    requires
        block.len() == 3,
    ensures
        code::block_tokens(block) == block[0].tokens() + block[1].tokens() + block[2].tokens(),
{
    code_laws::law_block_tokens(seq![block[0], block[1]], seq![block[2]], block[2]);
    code_laws::law_block_tokens(seq![block[0]], seq![block[1]], block[1]);
    code_laws::law_block_tokens(seq![block[0]], seq![block[1]], block[0]);
    assert(seq![block[0]] + seq![block[1]] =~= seq![block[0], block[1]]);
    assert(seq![block[0], block[1]] + seq![block[2]] =~= block);
}

/// The tokens of two statements.
proof fn lemma_two(block: Seq<Stmt>)
    requires
        block.len() == 2,
    ensures
        code::block_tokens(block) == block[0].tokens() + block[1].tokens(),
{
    code_laws::law_block_tokens(seq![block[0]], seq![block[1]], block[1]);
    code_laws::law_block_tokens(seq![block[0]], seq![block[1]], block[0]);
    assert(seq![block[0]] + seq![block[1]] =~= block);
}

/// What `cache_evict` writes into a function, for every function: its own statements once, in
/// braces, then what drops from the cache inside `if __res.is_ok()`, then the result. The cache
/// manager and the context are those that the arguments and the parameters give.
pub proof fn law_written_evict_body(args: CacheEvictArgsView, f: FunctionView)
    ensures
        code::block_tokens(expand::evict_body(args, f)) == seq![
            Tok::Ident("let"@),
            Tok::Ident("__res"@),
            Tok::Punct('=', false),
            Tok::Ident("async"@),
            Tok::Ident("move"@),
            Tok::Group(Delim::Brace, f.stmts),
            Tok::Punct('.', false),
            Tok::Ident("await"@),
            Tok::Punct(';', false),
            Tok::Ident("if"@),
            Tok::Ident("__res"@),
            Tok::Punct('.', false),
            Tok::Ident("is_ok"@),
            Tok::Group(Delim::Paren, Seq::empty()),
            Tok::Group(
                Delim::Brace,
                code::block_tokens(
                    expand::evictions(
                        args,
                        expand::manager(args.cache),
                        expand::context(f.params, args.ctx),
                    ),
                ),
            ),
            Tok::Ident("__res"@),
        ],
{
    let body = expand::evict_body(args, f);
    let drops = expand::evictions(
        args,
        expand::manager(args.cache),
        expand::context(f.params, args.ctx),
    );
    code_laws::law_names();
    code_laws::law_run_tokens(f.stmts);
    code_laws::law_var_tokens(Name::Res);
    code_laws::law_statement_tokens(Name::Res, Name::Res, Expr::Run(f.stmts), drops);
    code_laws::law_statement_tokens(Name::Res, Name::Res, Expr::Var(Name::Res), drops);
    lemma_three(body);
    assert(code::block_tokens(body) =~= seq![
        Tok::Ident("let"@),
        Tok::Ident("__res"@),
        Tok::Punct('=', false),
        Tok::Ident("async"@),
        Tok::Ident("move"@),
        Tok::Group(Delim::Brace, f.stmts),
        Tok::Punct('.', false),
        Tok::Ident("await"@),
        Tok::Punct(';', false),
        Tok::Ident("if"@),
        Tok::Ident("__res"@),
        Tok::Punct('.', false),
        Tok::Ident("is_ok"@),
        Tok::Group(Delim::Paren, Seq::empty()),
        Tok::Group(Delim::Brace, code::block_tokens(drops)),
        Tok::Ident("__res"@),
    ]);
}

/// What the loader of `cacheable` holds: the function's own statements once, in braces, and the
/// match that makes an absent value of the error for a missing record.
pub open spec fn loader_tokens(stmts: Seq<Tok>) -> Seq<Tok> {
    seq![
        Tok::Ident("let"@),
        Tok::Ident("__inner_res"@),
        Tok::Punct('=', false),
        Tok::Ident("async"@),
        Tok::Ident("move"@),
        Tok::Group(Delim::Brace, stmts),
        Tok::Punct('.', false),
        Tok::Ident("await"@),
        Tok::Punct(';', false),
    ] + Expr::Absent(Name::InnerRes).tokens()
}

/// What is written for an id that gives a key: the question to the cache with the function's own
/// statements as the loader, and the answer.
pub open spec fn asked_tokens(args: CacheableArgsView, f: FunctionView) -> Seq<Tok> {
    let_tokens("__cache_res"@) + expand::manager(args.cache) + method_tokens(
        "get_or_load_with_ctx"@,
    ) + args.target + seq![
        Tok::Punct(',', false),
        Tok::Ident("_"@),
        Tok::Punct(',', false),
        Tok::Ident("_"@),
        Tok::Punct('>', false),
        Tok::Group(
            Delim::Paren,
            given_tokens("__id"@, expand::context(f.params, args.ctx)) + seq![
                Tok::Punct(',', false),
                Tok::Punct('|', true),
                Tok::Punct('|', false),
                Tok::Ident("async"@),
                Tok::Ident("move"@),
                Tok::Group(Delim::Brace, loader_tokens(f.stmts)),
            ],
        ),
        Tok::Punct('.', false),
        Tok::Ident("await"@),
        Tok::Punct('?', false),
        Tok::Punct(';', false),
        Tok::Ident("return"@),
    ] + Expr::Missing(Name::CacheRes).tokens() + seq![Tok::Punct(';', false)]
}

/// What is written for an id that gives a key.
#[verifier::spinoff_prover]
#[verifier::rlimit(40)]
proof fn lemma_asked(args: CacheableArgsView, f: FunctionView)
    ensures
        code::block_tokens(expand::cacheable_body(args, f)[1]->IfSome_2) == asked_tokens(args, f),
{
    let cache = expand::manager(args.cache);
    let ctx = expand::context(f.params, args.ctx);
    let target = args.target;
    let block = expand::cacheable_body(args, f)[1]->IfSome_2;
    let load = block[0]->Let_1;
    let loader = load->loader;
    let inner = loader_tokens(f.stmts);
    code_laws::law_names();
    lemma_loader(args, f);
    code_laws::law_load_tokens(cache, target, ctx, Name::Id, loader, inner);
    code_laws::law_statement_tokens(Name::CacheRes, Name::Id, load, loader);
    code_laws::law_statement_tokens(Name::CacheRes, Name::Id, Expr::Missing(Name::CacheRes), loader);
    lemma_two(block);
    assert(seq![Tok::Ident("__id"@), Tok::Punct(',', false)] + ctx =~= given_tokens("__id"@, ctx));
    assert(code::block_tokens(block) =~= asked_tokens(args, f));
}

/// What is written for the loader.
#[verifier::spinoff_prover]
proof fn lemma_loader(args: CacheableArgsView, f: FunctionView)
    ensures
        code::block_tokens(expand::cacheable_body(args, f)[1]->IfSome_2[0]->Let_1->loader)
            == loader_tokens(f.stmts),
{
    let loader = expand::cacheable_body(args, f)[1]->IfSome_2[0]->Let_1->loader;
    code_laws::law_names();
    code_laws::law_run_tokens(f.stmts);
    code_laws::law_statement_tokens(Name::InnerRes, Name::Id, Expr::Run(f.stmts), loader);
    code_laws::law_statement_tokens(Name::InnerRes, Name::Id, Expr::Absent(Name::InnerRes), loader);
    lemma_two(loader);
    assert(code::block_tokens(loader) =~= loader_tokens(f.stmts));
}

/// What `cacheable` writes into a function, for every function: the conversion of the id, the
/// question to the cache with the function's own statements as the loader, the answer, and, behind
/// it, the function's own statements. The cache manager and the context are those that the arguments
/// and the parameters give.
#[verifier::spinoff_prover]
#[verifier::rlimit(40)]
pub proof fn law_written_cacheable_body(args: CacheableArgsView, f: FunctionView)
    ensures
        code::block_tokens(expand::cacheable_body(args, f)) == let_tokens("__id_opt"@) + key_tokens(
            args.id,
        ) + seq![
            Tok::Punct(';', false),
            Tok::Ident("if"@),
            Tok::Ident("let"@),
            Tok::Ident("Some"@),
            Tok::Group(Delim::Paren, seq![Tok::Ident("__id"@)]),
            Tok::Punct('=', false),
            Tok::Ident("__id_opt"@),
            Tok::Group(
                Delim::Brace,
                asked_tokens(args, f),
            ),
            Tok::Ident("async"@),
            Tok::Ident("move"@),
            Tok::Group(Delim::Brace, f.stmts),
            Tok::Punct('.', false),
            Tok::Ident("await"@),
        ],
{
    let body = expand::cacheable_body(args, f);
    let block = body[1]->IfSome_2;
    let asked = asked_tokens(args, f);
    code_laws::law_names();
    code_laws::law_run_tokens(f.stmts);
    code_laws::law_cache_id_tokens(args.id);
    lemma_asked(args, f);
    code_laws::law_statement_tokens(Name::IdOpt, Name::Id, Expr::CacheId(args.id), block);
    code_laws::law_statement_tokens(Name::IdOpt, Name::Id, Expr::Run(f.stmts), block);
    lemma_three(body);
    assert(code::block_tokens(body) =~= let_tokens("__id_opt"@) + key_tokens(args.id) + seq![
        Tok::Punct(';', false),
        Tok::Ident("if"@),
        Tok::Ident("let"@),
        Tok::Ident("Some"@),
        Tok::Group(Delim::Paren, seq![Tok::Ident("__id"@)]),
        Tok::Punct('=', false),
        Tok::Ident("__id_opt"@),
        Tok::Group(Delim::Brace, asked),
        Tok::Ident("async"@),
        Tok::Ident("move"@),
        Tok::Group(Delim::Brace, f.stmts),
        Tok::Punct('.', false),
        Tok::Ident("await"@),
    ]);
}

/// Whether an item is a function: it reads as that method, or as no method and as that free
/// function.
pub open spec fn is_definition(item: Seq<Tok>, f: FunctionView) -> bool {
    ||| syntax::method_of(item) == Ok::<_, Seq<Seq<char>>>(f)
    ||| syntax::method_of(item) is Err && syntax::function_of(item) == Ok::<_, Seq<Seq<char>>>(f)
}

/// An item is read as a method first, then as a free function, and as nothing where it is neither.
pub proof fn law_definition(item: Seq<Tok>, f: FunctionView)
    ensures
        is_definition(item, f) ==> expand::definition(item) == Some(f),
        syntax::method_of(item) is Err && syntax::function_of(item) is Err ==> expand::definition(
            item,
        ) is None,
{
}

/// A function with other statements: all tokens before the body stay, and the body holds the
/// attributes inside it and then exactly those statements, whatever else the function is.
pub proof fn law_statements_are_replaced(
    f: FunctionView,
    delim: Delim,
    inner: Seq<Tok>,
    stmts: Seq<Tok>,
    body: Seq<Tok>,
)
    requires
        f.shell.len() > 0,
        f.shell.last() == Tok::Group(delim, inner),
    ensures
        expand::with_statements(f, stmts) == f.shell.drop_last() + seq![
            Tok::Group(delim, inner + stmts),
        ],
        match syntax::statements_of(seq![Tok::Group(Delim::Brace, body)]) {
            Ok(read) => expand::with_body(f, body) == Ok::<_, Seq<Seq<char>>>(
                f.shell.drop_last() + seq![Tok::Group(delim, inner + read)],
            ),
            Err(messages) => expand::with_body(f, body) == Err::<Seq<Tok>, _>(messages),
        },
{
}

/// What `cache_evict` makes of a function that reads as a method or, failing that, as a free function,
/// whatever its parameters are: all tokens before the body stay, and the body holds the attributes
/// inside it and then exactly the statements of the new body. Where the new body does not read as a
/// block, it gives that error.
pub proof fn law_evict_replaces_the_body(
    args: Seq<Tok>,
    item: Seq<Tok>,
    given: CacheEvictArgsView,
    f: FunctionView,
    delim: Delim,
    inner: Seq<Tok>,
)
    requires
        CacheEvictArgsView::parse(args) == Ok::<_, Fault>(given),
        is_definition(item, f),
        f.shell.len() > 0,
        f.shell.last() == Tok::Group(delim, inner),
    ensures
        match syntax::statements_of(
            seq![Tok::Group(Delim::Brace, code::block_tokens(expand::evict_body(given, f)))],
        ) {
            Ok(stmts) => expand::evict_expansion(args, item) == Ok::<_, Seq<Seq<char>>>(
                f.shell.drop_last() + seq![Tok::Group(delim, inner + stmts)],
            ),
            Err(messages) => expand::evict_expansion(args, item) == Err::<Seq<Tok>, _>(messages),
        },
{
}

/// What `cacheable` makes of a function that reads as a method or, failing that, as a free function,
/// whatever its parameters are: all tokens before the body stay, and the body holds the attributes
/// inside it and then exactly the statements of the new body. Where the new body does not read as a
/// block, it gives that error.
pub proof fn law_cacheable_replaces_the_body(
    args: Seq<Tok>,
    item: Seq<Tok>,
    given: CacheableArgsView,
    f: FunctionView,
    delim: Delim,
    inner: Seq<Tok>,
)
    requires
        CacheableArgsView::parse(args) == Ok::<_, Fault>(given),
        is_definition(item, f),
        f.shell.len() > 0,
        f.shell.last() == Tok::Group(delim, inner),
    ensures
        match syntax::statements_of(
            seq![Tok::Group(Delim::Brace, code::block_tokens(expand::cacheable_body(given, f)))],
        ) {
            Ok(stmts) => expand::cacheable_expansion(args, item) == Ok::<_, Seq<Seq<char>>>(
                f.shell.drop_last() + seq![Tok::Group(delim, inner + stmts)],
            ),
            Err(messages) => expand::cacheable_expansion(args, item) == Err::<Seq<Tok>, _>(messages),
        },
{
}

/// Whether a `compile_error!` comes out, every token of it at a place.
pub open spec fn told_at(expanded: Result<TokenStream, expand::BodyError>, place: Span) -> bool {
    expanded matches Ok(out) && tokens::places(out).len() == 9 && forall|i: int|
        0 <= i < 9 ==> #[trigger] tokens::places(out)[i] == place
}

/// What `cache_evict` tells the user: of arguments that are refused, why; of an item that reads neither
/// as a method nor as a free function, that it stands on none.
pub proof fn law_evict_refuses(args: Seq<Tok>, item: Seq<Tok>, fault: Fault)
    ensures
        CacheEvictArgsView::parse(args) == Err::<CacheEvictArgsView, _>(fault)
            ==> expand::evict_expansion(args, item) == Ok::<_, Seq<Seq<char>>>(
            syntax::compile_errors(fault.messages()),
        ),
        CacheEvictArgsView::parse(args) is Ok && syntax::method_of(item) is Err && syntax::function_of(
            item,
        ) is Err ==> expand::evict_expansion(args, item) == Ok::<_, Seq<Seq<char>>>(
            syntax::compile_errors(seq!["#[cache_evict] 仅支持修饰 async 函数或方法"@]),
        ),
{
}

/// Where `cache_evict` tells the user: at the key that is refused, and at the attribute where the
/// target or the id is missing or the item is no function. All tokens of the message stand there.
pub proof fn law_evict_tells_at(
    args: TokenStream,
    item: TokenStream,
    site: Span,
    expanded: Result<TokenStream, expand::BodyError>,
)
    requires
        expand::stands_at(expand::evict_place(args, item, site), expanded),
    ensures
        match CacheEvictArgsView::parse(tokens::trees(args)) {
            Err(Fault::NoTarget(_)) | Err(Fault::NoId) => told_at(expanded, site),
            Err(Fault::UnknownKey(_, _)) | Err(Fault::NeedsValue(_)) => args::refused_key(
                Attr::Evict,
                true,
                tokens::trees(args),
            ) matches Some(after) ==> told_at(
                expanded,
                tokens::places(args)[tokens::places(args).len() - after - 1],
            ),
            Err(Fault::Syntax(_)) => true,
            Ok(_) => (syntax::method_of(tokens::trees(item)) is Err && syntax::function_of(
                tokens::trees(item),
            ) is Err) ==> told_at(expanded, site),
        },
{
}

/// What `cacheable` tells the user: of arguments that are refused, why; of an item that reads neither
/// as a method nor as a free function, that it stands on none.
pub proof fn law_cacheable_refuses(args: Seq<Tok>, item: Seq<Tok>, fault: Fault)
    ensures
        CacheableArgsView::parse(args) == Err::<CacheableArgsView, _>(fault)
            ==> expand::cacheable_expansion(args, item) == Ok::<_, Seq<Seq<char>>>(
            syntax::compile_errors(fault.messages()),
        ),
        CacheableArgsView::parse(args) is Ok && syntax::method_of(item) is Err && syntax::function_of(
            item,
        ) is Err ==> expand::cacheable_expansion(args, item) == Ok::<_, Seq<Seq<char>>>(
            syntax::compile_errors(seq!["#[cacheable] 仅支持修饰 async 函数或方法"@]),
        ),
{
}

/// Where `cacheable` tells the user: at the key that is refused, and at the attribute where the
/// target or the id is missing or the item is no function. All tokens of the message stand there.
pub proof fn law_cacheable_tells_at(
    args: TokenStream,
    item: TokenStream,
    site: Span,
    expanded: Result<TokenStream, expand::BodyError>,
)
    requires
        expand::stands_at(expand::cacheable_place(args, item, site), expanded),
    ensures
        match CacheableArgsView::parse(tokens::trees(args)) {
            Err(Fault::NoTarget(_)) | Err(Fault::NoId) => told_at(expanded, site),
            Err(Fault::UnknownKey(_, _)) | Err(Fault::NeedsValue(_)) => args::refused_key(
                Attr::Cacheable,
                true,
                tokens::trees(args),
            ) matches Some(after) ==> told_at(
                expanded,
                tokens::places(args)[tokens::places(args).len() - after - 1],
            ),
            Err(Fault::Syntax(_)) => true,
            Ok(_) => (syntax::method_of(tokens::trees(item)) is Err && syntax::function_of(
                tokens::trees(item),
            ) is Err) ==> told_at(expanded, site),
        },
{
}

} // verus!
