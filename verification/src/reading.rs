//! A reader of the code that the attributes write: from tokens back to statements.
//!
//! The reader knows nothing of how the code is written. That it gives back the statements ties what
//! the laws say of statements to the tokens that come out.

use crate::args::{CacheEvictArgsView, CacheableArgsView};
use crate::code;
use crate::code::{Expr, Name, Scope, Stmt};
use crate::code_laws;
use crate::expand;
use crate::expand_laws;
use crate::laws;
use crate::meaning;
use crate::meaning::{Event, Failure, Place, Records, World};
use crate::syntax::FunctionView;
use crate::tokens;
use crate::tokens::{Delim, Tok};
use vstd::prelude::*;

verus! {

/// Whether a token is a dot.
pub open spec fn is_dot(tok: Tok) -> bool {
    tok matches Tok::Punct(ch, _) && ch == '.'
}

/// Where the last dot stands.
pub open spec fn last_dot(t: Seq<Tok>) -> Option<int>
    decreases t.len(),
{
    if t.len() == 0 {
        None
    } else if is_dot(t.last()) {
        Some(t.len() - 1)
    } else {
        last_dot(t.drop_last())
    }
}

/// The id in `crate::common::cache::ToCacheIdOpt::to_cache_id_opt(&(id))`.
pub open spec fn read_key(t: Seq<Tok>) -> Option<Seq<Tok>> {
    if t.len() == 14 && t.take(13) == seq![
        Tok::Ident("crate"@),
        Tok::Punct(':', true),
        Tok::Punct(':', false),
        Tok::Ident("common"@),
        Tok::Punct(':', true),
        Tok::Punct(':', false),
        Tok::Ident("cache"@),
        Tok::Punct(':', true),
        Tok::Punct(':', false),
        Tok::Ident("ToCacheIdOpt"@),
        Tok::Punct(':', true),
        Tok::Punct(':', false),
        Tok::Ident("to_cache_id_opt"@),
    ] {
        match t[13] {
            Tok::Group(Delim::Paren, inner) => if inner.len() == 2 && inner[0] == Tok::Punct(
                '&',
                false,
            ) {
                match inner[1] {
                    Tok::Group(Delim::Paren, id) => Some(id),
                    _ => None,
                }
            } else {
                None
            },
            _ => None,
        }
    } else {
        None
    }
}

/// The statements in `async move { stmts }.await`.
pub open spec fn read_run(t: Seq<Tok>) -> Option<Seq<Tok>> {
    if t.len() == 5 && t[0] == Tok::Ident("async"@) && t[1] == Tok::Ident("move"@) && t[3]
        == Tok::Punct('.', false) && t[4] == Tok::Ident("await"@) {
        match t[2] {
            Tok::Group(Delim::Brace, stmts) => Some(stmts),
            _ => None,
        }
    } else {
        None
    }
}

/// The parts of `cache.method::<types>(given).await`.
pub struct CallParts {
    pub cache: Seq<Tok>,
    pub method: Seq<char>,
    pub types: Seq<Tok>,
    pub given: Seq<Tok>,
}

/// Reads `cache.method::<types>(given).await`, where the types hold no dot.
pub open spec fn read_call(t: Seq<Tok>) -> Option<CallParts> {
    let n = t.len() - 4;
    if n < 0 || t[n] != Tok::Punct('>', false) || t[n + 2] != Tok::Punct('.', false) || t[n + 3]
        != Tok::Ident("await"@) {
        None
    } else {
        match (last_dot(t.take(n)), t[n + 1]) {
            (Some(dot), Tok::Group(Delim::Paren, given)) => if dot + 5 <= n && t[dot] == Tok::Punct(
                '.',
                false,
            ) && t[dot + 2] == Tok::Punct(':', true) && t[dot + 3] == Tok::Punct(':', false)
                && t[dot + 4] == Tok::Punct('<', false) {
                match t[dot + 1] {
                    Tok::Ident(method) => Some(
                        CallParts {
                            cache: t.take(dot),
                            method,
                            types: t.subrange(dot + 5, n),
                            given,
                        },
                    ),
                    _ => None,
                }
            } else {
                None
            },
            _ => None,
        }
    }
}

/// Reads `let _ = cache.method::<target>(given).await;` for a method that drops from the cache.
pub open spec fn read_drop(t: Seq<Tok>) -> Option<Stmt> {
    if t.len() >= 4 && t[0] == Tok::Ident("let"@) && t[1] == Tok::Ident("_"@) && t[2] == Tok::Punct(
        '=',
        false,
    ) && t.last() == Tok::Punct(';', false) {
        match read_call(t.subrange(3, t.len() - 1)) {
            Some(CallParts { cache, method, types, given }) => if method == "evict_page"@ {
                Some(
                    Stmt::Discard(
                        Expr::Evict { cache, target: types, ctx: given, scope: Scope::Page },
                    ),
                )
            } else if given.len() >= 2 && given[1] == Tok::Punct(',', false) {
                let ctx = given.skip(2);
                if method == "evict_with_ctx"@ && given[0] == Tok::Ident("__id_str"@) {
                    Some(
                        Stmt::Discard(
                            Expr::Evict {
                                cache,
                                target: types,
                                ctx,
                                scope: Scope::One(Name::IdStr),
                            },
                        ),
                    )
                } else if method == "evict_all_smart"@ && given[0] == Tok::Ident("__id_opt"@) {
                    Some(
                        Stmt::Discard(
                            Expr::Evict {
                                cache,
                                target: types,
                                ctx,
                                scope: Scope::All(Name::IdOpt),
                            },
                        ),
                    )
                } else {
                    None
                }
            } else {
                None
            },
            None => None,
        }
    } else {
        None
    }
}

/// Reads `if let Some(bound) = __id_opt { inner }`: what stands in the braces.
pub open spec fn read_if_some(t: Seq<Tok>, bound: Seq<char>) -> Option<Seq<Tok>> {
    if t.len() == 7 && t.take(3) == seq![
        Tok::Ident("if"@),
        Tok::Ident("let"@),
        Tok::Ident("Some"@),
    ] && t[3] == Tok::Group(Delim::Paren, seq![Tok::Ident(bound)]) && t[4] == Tok::Punct('=', false)
        && t[5] == Tok::Ident("__id_opt"@) {
        match t[6] {
            Tok::Group(Delim::Brace, inner) => Some(inner),
            _ => None,
        }
    } else {
        None
    }
}

/// Reads `let __id_opt = ...;` at the start of a sequence: the id.
pub open spec fn read_id_opt(t: Seq<Tok>) -> Option<Seq<Tok>> {
    if t.len() >= 18 && t[0] == Tok::Ident("let"@) && t[1] == Tok::Ident("__id_opt"@) && t[2]
        == Tok::Punct('=', false) && t[17] == Tok::Punct(';', false) {
        read_key(t.subrange(3, 17))
    } else {
        None
    }
}

/// Reads the statements that drop from the cache.
pub open spec fn read_drops(t: Seq<Tok>) -> Option<Seq<Stmt>> {
    if t.len() == 0 {
        Some(Seq::empty())
    } else {
        match read_id_opt(t) {
            Some(id) => {
                let known = Stmt::Let(Name::IdOpt, Expr::CacheId(id));
                match (read_if_some(t.skip(18), "__id_str"@), read_drop(t.skip(18))) {
                    (Some(inner), _) => match read_drop(inner) {
                        Some(drop) => Some(
                            seq![known, Stmt::IfSome(Name::IdStr, Name::IdOpt, seq![drop])],
                        ),
                        None => None,
                    },
                    (None, Some(drop)) => Some(seq![known, drop]),
                    (None, None) => None,
                }
            },
            None => match read_drop(t) {
                Some(drop) => Some(seq![drop]),
                None => None,
            },
        }
    }
}

/// Reads the body of a function with `cache_evict`.
pub open spec fn read_evict_body(t: Seq<Tok>) -> Option<Seq<Stmt>> {
    if t.len() == 16 && t.take(3) == seq![
        Tok::Ident("let"@),
        Tok::Ident("__res"@),
        Tok::Punct('=', false),
    ] && t.subrange(8, 14) == seq![
        Tok::Punct(';', false),
        Tok::Ident("if"@),
        Tok::Ident("__res"@),
        Tok::Punct('.', false),
        Tok::Ident("is_ok"@),
        Tok::Group(Delim::Paren, Seq::empty()),
    ] && t[15] == Tok::Ident("__res"@) {
        match (read_run(t.subrange(3, 8)), t[14]) {
            (Some(stmts), Tok::Group(Delim::Brace, inner)) => match read_drops(inner) {
                Some(drops) => Some(
                    seq![
                        Stmt::Let(Name::Res, Expr::Run(stmts)),
                        Stmt::IfOk(Name::Res, drops),
                        Stmt::Value(Expr::Var(Name::Res)),
                    ],
                ),
                None => None,
            },
            _ => None,
        }
    } else {
        None
    }
}

/// The last dot before tokens without one.
proof fn lemma_last_dot(a: Seq<Tok>, dot: Tok, b: Seq<Tok>)
    requires
        is_dot(dot),
        forall|i: int| 0 <= i < b.len() ==> !is_dot(#[trigger] b[i]),
    ensures
        last_dot(a + seq![dot] + b) == Some(a.len() as int),
    decreases b.len(),
{
    let t = a + seq![dot] + b;
    if b.len() == 0 {
        assert(t.last() == dot);
    } else {
        assert(t.last() == b[b.len() - 1]);
        assert(t.drop_last() =~= a + seq![dot] + b.drop_last());
        lemma_last_dot(a, dot, b.drop_last());
    }
}

/// A call is read as it is written.
proof fn lemma_read_call(parts: CallParts)
    requires
        forall|i: int| 0 <= i < parts.types.len() ==> !is_dot(#[trigger] parts.types[i]),
    ensures
        read_call(
            parts.cache + expand_laws::method_tokens(parts.method) + parts.types + seq![
                Tok::Punct('>', false),
                Tok::Group(Delim::Paren, parts.given),
                Tok::Punct('.', false),
                Tok::Ident("await"@),
            ],
        ) == Some(parts),
{
    let CallParts { cache, method, types, given } = parts;
    let end = seq![
        Tok::Punct('>', false),
        Tok::Group(Delim::Paren, given),
        Tok::Punct('.', false),
        Tok::Ident("await"@),
    ];
    let head = expand_laws::method_tokens(method);
    let t = cache + head + types + end;
    let n = t.len() - 4;
    let behind = head.skip(1) + types;
    assert forall|i: int| 0 <= i < behind.len() implies !is_dot(#[trigger] behind[i]) by {
        if i >= 4 {
            assert(behind[i] == types[i - 4]);
        }
    }
    lemma_last_dot(cache, head[0], behind);
    assert(t.take(n) =~= cache + seq![head[0]] + behind);
    let dot = cache.len() as int;
    assert(t[dot] == head[0] && t[dot + 1] == head[1] && t[dot + 2] == head[2] && t[dot + 3]
        == head[3] && t[dot + 4] == head[4]);
    assert(t[n] == end[0] && t[n + 1] == end[1] && t[n + 2] == end[2] && t[n + 3] == end[3]);
    assert(t.take(dot) =~= cache);
    assert(t.subrange(dot + 5, n) =~= types);
}

/// The methods that drop from the cache are not called the same.
proof fn lemma_methods_differ()
    ensures
        "evict_page"@ != "evict_with_ctx"@,
        "evict_page"@ != "evict_all_smart"@,
        "evict_with_ctx"@ != "evict_all_smart"@,
        "_"@ != "__id_opt"@,
{
    reveal_strlit("evict_page");
    reveal_strlit("evict_with_ctx");
    reveal_strlit("evict_all_smart");
    reveal_strlit("_");
    reveal_strlit("__id_opt");
    assert("evict_page"@.len() == 10);
    assert("evict_with_ctx"@.len() == 14);
    assert("evict_all_smart"@.len() == 15);
    assert("_"@.len() == 1 && "__id_opt"@.len() == 8);
}

/// A statement that drops from the cache is read as it is written.
proof fn lemma_read_drop(cache: Seq<Tok>, target: Seq<Tok>, ctx: Seq<Tok>)
    requires
        forall|i: int| 0 <= i < target.len() ==> !is_dot(#[trigger] target[i]),
    ensures
        read_drop(
            expand_laws::let_tokens("_"@) + cache + expand_laws::method_tokens("evict_page"@)
                + target + expand_laws::call_tokens(ctx),
        ) == Some(Stmt::Discard(Expr::Evict { cache, target, ctx, scope: Scope::Page })),
        read_drop(
            expand_laws::let_tokens("_"@) + cache + expand_laws::method_tokens("evict_with_ctx"@)
                + target + expand_laws::call_tokens(expand_laws::given_tokens("__id_str"@, ctx)),
        ) == Some(
            Stmt::Discard(Expr::Evict { cache, target, ctx, scope: Scope::One(Name::IdStr) }),
        ),
        read_drop(
            expand_laws::let_tokens("_"@) + cache + expand_laws::method_tokens("evict_all_smart"@)
                + target + expand_laws::call_tokens(expand_laws::given_tokens("__id_opt"@, ctx)),
        ) == Some(
            Stmt::Discard(Expr::Evict { cache, target, ctx, scope: Scope::All(Name::IdOpt) }),
        ),
{
    lemma_methods_differ();
    let one = expand_laws::given_tokens("__id_str"@, ctx);
    let all = expand_laws::given_tokens("__id_opt"@, ctx);
    assert(one.skip(2) =~= ctx);
    assert(all.skip(2) =~= ctx);
    lemma_drop_shape(cache, "evict_page"@, target, ctx);
    lemma_drop_shape(cache, "evict_with_ctx"@, target, one);
    lemma_drop_shape(cache, "evict_all_smart"@, target, all);
}

/// The call inside a statement that drops from the cache is read as it is written.
proof fn lemma_drop_shape(cache: Seq<Tok>, method: Seq<char>, target: Seq<Tok>, given: Seq<Tok>)
    requires
        forall|i: int| 0 <= i < target.len() ==> !is_dot(#[trigger] target[i]),
    ensures
        ({
            let t = expand_laws::let_tokens("_"@) + cache + expand_laws::method_tokens(method)
                + target + expand_laws::call_tokens(given);
            &&& t.len() >= 4
            &&& t[0] == Tok::Ident("let"@)
            &&& t[1] == Tok::Ident("_"@)
            &&& t[2] == Tok::Punct('=', false)
            &&& t.last() == Tok::Punct(';', false)
            &&& read_call(t.subrange(3, t.len() - 1)) == Some(
                CallParts { cache, method, types: target, given },
            )
        }),
{
    let t = expand_laws::let_tokens("_"@) + cache + expand_laws::method_tokens(method) + target
        + expand_laws::call_tokens(given);
    lemma_read_call(CallParts { cache, method, types: target, given });
    assert(t.subrange(3, t.len() - 1) =~= cache + expand_laws::method_tokens(method) + target
        + seq![
        Tok::Punct('>', false),
        Tok::Group(Delim::Paren, given),
        Tok::Punct('.', false),
        Tok::Ident("await"@),
    ]);
}

/// The conversion of an id is read as it is written.
proof fn lemma_read_id_opt(id: Seq<Tok>, rest: Seq<Tok>)
    ensures
        ({
            let t = expand_laws::let_tokens("__id_opt"@) + expand_laws::key_tokens(id) + seq![
                Tok::Punct(';', false),
            ] + rest;
            read_id_opt(t) == Some(id) && t.skip(18) == rest
        }),
{
    let key = expand_laws::key_tokens(id);
    let t = expand_laws::let_tokens("__id_opt"@) + key + seq![Tok::Punct(';', false)] + rest;
    assert(t.subrange(3, 17) =~= key);
    assert(t.skip(18) =~= rest);
    assert(key.take(13) =~= seq![
        Tok::Ident("crate"@),
        Tok::Punct(':', true),
        Tok::Punct(':', false),
        Tok::Ident("common"@),
        Tok::Punct(':', true),
        Tok::Punct(':', false),
        Tok::Ident("cache"@),
        Tok::Punct(':', true),
        Tok::Punct(':', false),
        Tok::Ident("ToCacheIdOpt"@),
        Tok::Punct(':', true),
        Tok::Punct(':', false),
        Tok::Ident("to_cache_id_opt"@),
    ]);
}

/// Whether a target has no dot, as no path does.
pub open spec fn has_no_dot(target: Seq<Tok>) -> bool {
    forall|i: int| 0 <= i < target.len() ==> !is_dot(#[trigger] target[i])
}

/// What drops from the cache is read back as the statements whose meaning the laws tell.
#[verifier::spinoff_prover]
#[verifier::rlimit(40)]
pub proof fn law_drops_read_back(args: CacheEvictArgsView, cache: Seq<Tok>, ctx: Seq<Tok>)
    requires
        has_no_dot(args.target),
    ensures
        read_drops(code::block_tokens(expand::evictions(args, cache, ctx))) == Some(
            expand::evictions(args, cache, ctx),
        ),
{
    let target = args.target;
    let stmts = expand::evictions(args, cache, ctx);
    let t = code::block_tokens(stmts);
    expand_laws::law_written_evictions(args, cache, ctx);
    lemma_read_drop(cache, target, ctx);
    lemma_methods_differ();
    if args.all && args.id is Some {
        let id = args.id->0;
        let drop = expand_laws::let_tokens("_"@) + cache + expand_laws::method_tokens(
            "evict_all_smart"@,
        ) + target + expand_laws::call_tokens(expand_laws::given_tokens("__id_opt"@, ctx));
        lemma_read_id_opt(id, drop);
        assert(t =~= expand_laws::let_tokens("__id_opt"@) + expand_laws::key_tokens(id) + seq![
            Tok::Punct(';', false),
        ] + drop);
        assert(drop[0] == Tok::Ident("let"@));
        lemma_let_is_no_if(drop);
        assert(stmts =~= seq![stmts[0], stmts[1]]);
    } else if args.all || args.page {
        assert(t[1] == Tok::Ident("_"@));
        assert(stmts =~= seq![stmts[0]]);
    } else if args.id is Some {
        let id = args.id->0;
        let inner = expand_laws::let_tokens("_"@) + cache + expand_laws::method_tokens(
            "evict_with_ctx"@,
        ) + target + expand_laws::call_tokens(expand_laws::given_tokens("__id_str"@, ctx));
        let check = seq![
            Tok::Ident("if"@),
            Tok::Ident("let"@),
            Tok::Ident("Some"@),
            Tok::Group(Delim::Paren, seq![Tok::Ident("__id_str"@)]),
            Tok::Punct('=', false),
            Tok::Ident("__id_opt"@),
            Tok::Group(Delim::Brace, inner),
        ];
        lemma_read_id_opt(id, check);
        assert(t =~= expand_laws::let_tokens("__id_opt"@) + expand_laws::key_tokens(id) + seq![
            Tok::Punct(';', false),
        ] + check);
        assert(check.take(3) =~= seq![Tok::Ident("if"@), Tok::Ident("let"@), Tok::Ident("Some"@)]);
        assert(stmts[1]->IfSome_2 =~= seq![stmts[1]->IfSome_2[0]]);
        assert(stmts =~= seq![stmts[0], stmts[1]]);
    } else {
        assert(stmts =~= Seq::<Stmt>::empty());
    }
}

/// What starts with `let` is no `if`.
proof fn lemma_let_is_no_if(t: Seq<Tok>)
    requires
        t.len() > 0,
        t[0] == Tok::Ident("let"@),
    ensures
        read_if_some(t, "__id_str"@) is None,
{
    reveal_strlit("let");
    reveal_strlit("if");
    assert("let"@.len() == 3 && "if"@.len() == 2);
    if t.len() == 7 {
        assert(t.take(3)[0] == t[0]);
    }
}

/// What `cache_evict` writes is read back as the statements whose meaning the laws tell.
pub proof fn law_evict_body_reads_back(args: CacheEvictArgsView, f: FunctionView)
    requires
        has_no_dot(args.target),
    ensures
        read_evict_body(code::block_tokens(expand::evict_body(args, f))) == Some(
            expand::evict_body(args, f),
        ),
{
    let body = expand::evict_body(args, f);
    let t = code::block_tokens(body);
    let cache = expand::manager(args.cache);
    let ctx = expand::context(f.params, args.ctx);
    expand_laws::law_written_evict_body(args, f);
    law_drops_read_back(args, cache, ctx);
    assert(t.take(3) =~= seq![Tok::Ident("let"@), Tok::Ident("__res"@), Tok::Punct('=', false)]);
    assert(t.subrange(8, 14) =~= seq![
        Tok::Punct(';', false),
        Tok::Ident("if"@),
        Tok::Ident("__res"@),
        Tok::Punct('.', false),
        Tok::Ident("is_ok"@),
        Tok::Group(Delim::Paren, Seq::empty()),
    ]);
    assert(t.subrange(3, 8) =~= seq![
        Tok::Ident("async"@),
        Tok::Ident("move"@),
        Tok::Group(Delim::Brace, f.stmts),
        Tok::Punct('.', false),
        Tok::Ident("await"@),
    ]);
    assert(body =~= seq![body[0], body[1], body[2]]);
}

/// The tokens that `cache_evict` writes, read back and run: the function's own statements run once
/// and first, and what they give comes out. Where that is an error the cache is asked for nothing;
/// else it is asked to drop what the arguments say, in the part of the cache that belongs to the
/// cache manager, the type and the context that the user gave or that stand in for them.
pub proof fn law_evict_tokens_run(
    args: CacheEvictArgsView,
    f: FunctionView,
    records: Records,
    world: World,
)
    requires
        has_no_dot(args.target),
    ensures
        ({
            let t = code::block_tokens(expand::evict_body(args, f));
            let result = (world.body)(f.stmts);
            read_evict_body(t) matches Some(body) && ({
                let call = meaning::call(body, records, world);
                &&& call.answer == Some(result)
                &&& result is Err ==> call.events == seq![Event::Body(f.stmts)] && call.records
                    == records
                &&& result is Ok ==> call.events == seq![Event::Body(f.stmts)] + laws::dropped(
                    args,
                    laws::write_part(args, f, world),
                    laws::write_key(args, world),
                )
            })
        }),
{
    law_evict_body_reads_back(args, f);
    laws::law_evict(args, f, records, world);
}

/// `match __inner_res { Ok(__val) => Ok(Some(__val)),
/// Err(crate::common::error::AppError::NotFound(_)) => Ok(None), Err(e) => Err(e), }`
pub open spec fn match_tokens() -> Seq<Tok> {
    seq![
        Tok::Ident("match"@),
        Tok::Ident("__inner_res"@),
        Tok::Group(
            Delim::Brace,
            seq![
                Tok::Ident("Ok"@),
                Tok::Group(Delim::Paren, seq![Tok::Ident("__val"@)]),
                Tok::Punct('=', true),
                Tok::Punct('>', false),
                Tok::Ident("Ok"@),
                Tok::Group(
                    Delim::Paren,
                    seq![
                        Tok::Ident("Some"@),
                        Tok::Group(Delim::Paren, seq![Tok::Ident("__val"@)]),
                    ],
                ),
                Tok::Punct(',', false),
                Tok::Ident("Err"@),
                Tok::Group(
                    Delim::Paren,
                    seq![
                        Tok::Ident("crate"@),
                        Tok::Punct(':', true),
                        Tok::Punct(':', false),
                        Tok::Ident("common"@),
                        Tok::Punct(':', true),
                        Tok::Punct(':', false),
                        Tok::Ident("error"@),
                        Tok::Punct(':', true),
                        Tok::Punct(':', false),
                        Tok::Ident("AppError"@),
                        Tok::Punct(':', true),
                        Tok::Punct(':', false),
                        Tok::Ident("NotFound"@),
                        Tok::Group(Delim::Paren, seq![Tok::Ident("_"@)]),
                    ],
                ),
                Tok::Punct('=', true),
                Tok::Punct('>', false),
                Tok::Ident("Ok"@),
                Tok::Group(Delim::Paren, seq![Tok::Ident("None"@)]),
                Tok::Punct(',', false),
                Tok::Ident("Err"@),
                Tok::Group(Delim::Paren, seq![Tok::Ident("e"@)]),
                Tok::Punct('=', true),
                Tok::Punct('>', false),
                Tok::Ident("Err"@),
                Tok::Group(Delim::Paren, seq![Tok::Ident("e"@)]),
                Tok::Punct(',', false),
            ],
        ),
    ]
}

/// `; return __cache_res.ok_or_else(|| crate::common::error::AppError::not_found("记录不存在"));`
pub open spec fn answer_tokens() -> Seq<Tok> {
    seq![
        Tok::Punct(';', false),
        Tok::Ident("return"@),
        Tok::Ident("__cache_res"@),
        Tok::Punct('.', false),
        Tok::Ident("ok_or_else"@),
        Tok::Group(
            Delim::Paren,
            seq![
                Tok::Punct('|', true),
                Tok::Punct('|', false),
                Tok::Ident("crate"@),
                Tok::Punct(':', true),
                Tok::Punct(':', false),
                Tok::Ident("common"@),
                Tok::Punct(':', true),
                Tok::Punct(':', false),
                Tok::Ident("error"@),
                Tok::Punct(':', true),
                Tok::Punct(':', false),
                Tok::Ident("AppError"@),
                Tok::Punct(':', true),
                Tok::Punct(':', false),
                Tok::Ident("not_found"@),
                Tok::Group(
                    Delim::Paren,
                    seq![Tok::Literal(tokens::string_literal("记录不存在"@))],
                ),
            ],
        ),
        Tok::Punct(';', false),
    ]
}

/// Reads a loader: the function's own statements.
pub open spec fn read_loader(t: Seq<Tok>) -> Option<Seq<Tok>> {
    if t.len() == 12 && t.take(3) == seq![
        Tok::Ident("let"@),
        Tok::Ident("__inner_res"@),
        Tok::Punct('=', false),
    ] && t[8] == Tok::Punct(';', false) && t.skip(9) == match_tokens() {
        read_run(t.subrange(3, 8))
    } else {
        None
    }
}

/// Reads `cache.get_or_load_with_ctx::<target, _, _>(__id, ctx, || async move { loader }).await?`.
pub open spec fn read_load(t: Seq<Tok>) -> Option<Expr> {
    if t.len() == 0 || t.last() != Tok::Punct('?', false) {
        None
    } else {
        match read_call(t.drop_last()) {
            Some(CallParts { cache, method, types, given }) => {
                let n = types.len() - 4;
                let m = given.len() - 6;
                if method == "get_or_load_with_ctx"@ && n >= 0 && m >= 2 && types.skip(n) == seq![
                    Tok::Punct(',', false),
                    Tok::Ident("_"@),
                    Tok::Punct(',', false),
                    Tok::Ident("_"@),
                ] && given[0] == Tok::Ident("__id"@) && given[1] == Tok::Punct(',', false)
                    && given.subrange(m, m + 5) == seq![
                    Tok::Punct(',', false),
                    Tok::Punct('|', true),
                    Tok::Punct('|', false),
                    Tok::Ident("async"@),
                    Tok::Ident("move"@),
                ] {
                    match given.last() {
                        Tok::Group(Delim::Brace, inner) => match read_loader(inner) {
                            Some(stmts) => Some(
                                Expr::Load {
                                    cache,
                                    target: types.take(n),
                                    ctx: given.subrange(2, m),
                                    key: Name::Id,
                                    loader: seq![
                                        Stmt::Let(Name::InnerRes, Expr::Run(stmts)),
                                        Stmt::Value(Expr::Absent(Name::InnerRes)),
                                    ],
                                },
                            ),
                            None => None,
                        },
                        _ => None,
                    }
                } else {
                    None
                }
            },
            None => None,
        }
    }
}

/// Reads the question to the cache and the answer.
pub open spec fn read_asked(t: Seq<Tok>) -> Option<Seq<Stmt>> {
    let n = t.len() - 7;
    if n >= 3 && t.take(3) == seq![
        Tok::Ident("let"@),
        Tok::Ident("__cache_res"@),
        Tok::Punct('=', false),
    ] && t.skip(n) == answer_tokens() {
        match read_load(t.subrange(3, n)) {
            Some(load) => Some(
                seq![
                    Stmt::Let(Name::CacheRes, load),
                    Stmt::Return(Expr::Missing(Name::CacheRes)),
                ],
            ),
            None => None,
        }
    } else {
        None
    }
}

/// Reads the body of a function with `cacheable`.
pub open spec fn read_cacheable_body(t: Seq<Tok>) -> Option<Seq<Stmt>> {
    if t.len() != 30 {
        None
    } else {
        match (
            read_id_opt(t),
            read_if_some(t.subrange(18, 25), "__id"@),
            read_run(t.subrange(25, 30)),
        ) {
            (Some(id), Some(inner), Some(stmts)) => match read_asked(inner) {
                Some(asked) => Some(
                    seq![
                        Stmt::Let(Name::IdOpt, Expr::CacheId(id)),
                        Stmt::IfSome(Name::Id, Name::IdOpt, asked),
                        Stmt::Value(Expr::Run(stmts)),
                    ],
                ),
                None => None,
            },
            _ => None,
        }
    }
}

/// A loader is read as it is written.
proof fn lemma_read_loader(stmts: Seq<Tok>)
    ensures
        read_loader(expand_laws::loader_tokens(stmts)) == Some(stmts),
{
    let t = expand_laws::loader_tokens(stmts);
    code_laws::law_names();
    code_laws::law_absent_tokens(Name::InnerRes);
    assert(t.skip(9) =~= match_tokens());
    assert(t.take(3) =~= seq![
        Tok::Ident("let"@),
        Tok::Ident("__inner_res"@),
        Tok::Punct('=', false),
    ]);
    assert(t.subrange(3, 8) =~= seq![
        Tok::Ident("async"@),
        Tok::Ident("move"@),
        Tok::Group(Delim::Brace, stmts),
        Tok::Punct('.', false),
        Tok::Ident("await"@),
    ]);
}

/// The call of the cache is read as it is written.
#[verifier::spinoff_prover]
#[verifier::rlimit(40)]
proof fn lemma_read_load(cache: Seq<Tok>, target: Seq<Tok>, ctx: Seq<Tok>, stmts: Seq<Tok>)
    requires
        has_no_dot(target),
    ensures
        read_load(
            cache + expand_laws::method_tokens("get_or_load_with_ctx"@) + target + seq![
                Tok::Punct(',', false),
                Tok::Ident("_"@),
                Tok::Punct(',', false),
                Tok::Ident("_"@),
                Tok::Punct('>', false),
                Tok::Group(
                    Delim::Paren,
                    expand_laws::given_tokens("__id"@, ctx) + seq![
                        Tok::Punct(',', false),
                        Tok::Punct('|', true),
                        Tok::Punct('|', false),
                        Tok::Ident("async"@),
                        Tok::Ident("move"@),
                        Tok::Group(Delim::Brace, expand_laws::loader_tokens(stmts)),
                    ],
                ),
                Tok::Punct('.', false),
                Tok::Ident("await"@),
                Tok::Punct('?', false),
            ],
        ) == Some(
            Expr::Load {
                cache,
                target,
                ctx,
                key: Name::Id,
                loader: seq![
                    Stmt::Let(Name::InnerRes, Expr::Run(stmts)),
                    Stmt::Value(Expr::Absent(Name::InnerRes)),
                ],
            },
        ),
{
    let open = seq![
        Tok::Punct(',', false),
        Tok::Ident("_"@),
        Tok::Punct(',', false),
        Tok::Ident("_"@),
    ];
    let closure = seq![
        Tok::Punct(',', false),
        Tok::Punct('|', true),
        Tok::Punct('|', false),
        Tok::Ident("async"@),
        Tok::Ident("move"@),
        Tok::Group(Delim::Brace, expand_laws::loader_tokens(stmts)),
    ];
    let given = expand_laws::given_tokens("__id"@, ctx) + closure;
    let types = target + open;
    let method = "get_or_load_with_ctx"@;
    let t = cache + expand_laws::method_tokens(method) + target + seq![
        Tok::Punct(',', false),
        Tok::Ident("_"@),
        Tok::Punct(',', false),
        Tok::Ident("_"@),
        Tok::Punct('>', false),
        Tok::Group(Delim::Paren, given),
        Tok::Punct('.', false),
        Tok::Ident("await"@),
        Tok::Punct('?', false),
    ];
    assert forall|i: int| 0 <= i < types.len() implies !is_dot(#[trigger] types[i]) by {
        if i < target.len() {
            assert(types[i] == target[i]);
        } else {
            assert(types[i] == open[i - target.len()]);
        }
    }
    lemma_read_call(CallParts { cache, method, types, given });
    lemma_read_loader(stmts);
    assert(t.drop_last() =~= cache + expand_laws::method_tokens(method) + types + seq![
        Tok::Punct('>', false),
        Tok::Group(Delim::Paren, given),
        Tok::Punct('.', false),
        Tok::Ident("await"@),
    ]);
    let n = types.len() - 4;
    let m = given.len() - 6;
    assert(types.skip(n) =~= open);
    assert(types.take(n) =~= target);
    assert(given.subrange(m, m + 5) =~= seq![
        Tok::Punct(',', false),
        Tok::Punct('|', true),
        Tok::Punct('|', false),
        Tok::Ident("async"@),
        Tok::Ident("move"@),
    ]);
    assert(given.subrange(2, m) =~= ctx);
    assert(given.last() == closure[5]);
    assert(t.last() == Tok::Punct('?', false));
}

/// The question to the cache and the answer are read as they are written.
#[verifier::spinoff_prover]
#[verifier::rlimit(40)]
proof fn lemma_read_asked(args: CacheableArgsView, f: FunctionView)
    requires
        has_no_dot(args.target),
    ensures
        read_asked(expand_laws::asked_tokens(args, f)) == Some(
            expand::cacheable_body(args, f)[1]->IfSome_2,
        ),
{
    let block = expand::cacheable_body(args, f)[1]->IfSome_2;
    let cache = expand::manager(args.cache);
    let ctx = expand::context(f.params, args.ctx);
    let t = expand_laws::asked_tokens(args, f);
    let n = t.len() - 7;
    code_laws::law_names();
    code_laws::law_missing_tokens(Name::CacheRes);
    lemma_read_load(cache, args.target, ctx, f.stmts);
    assert(t.take(3) =~= seq![
        Tok::Ident("let"@),
        Tok::Ident("__cache_res"@),
        Tok::Punct('=', false),
    ]);
    assert(t.skip(n) =~= answer_tokens());
    assert(t.subrange(3, n) =~= cache + expand_laws::method_tokens("get_or_load_with_ctx"@)
        + args.target + seq![
        Tok::Punct(',', false),
        Tok::Ident("_"@),
        Tok::Punct(',', false),
        Tok::Ident("_"@),
        Tok::Punct('>', false),
        Tok::Group(
            Delim::Paren,
            expand_laws::given_tokens("__id"@, ctx) + seq![
                Tok::Punct(',', false),
                Tok::Punct('|', true),
                Tok::Punct('|', false),
                Tok::Ident("async"@),
                Tok::Ident("move"@),
                Tok::Group(Delim::Brace, expand_laws::loader_tokens(f.stmts)),
            ],
        ),
        Tok::Punct('.', false),
        Tok::Ident("await"@),
        Tok::Punct('?', false),
    ]);
    let loader = block[0]->Let_1->loader;
    assert(loader =~= seq![loader[0], loader[1]]);
    assert(block =~= seq![block[0], block[1]]);
}

/// What `cacheable` writes is read back as the statements whose meaning the laws tell.
#[verifier::spinoff_prover]
#[verifier::rlimit(40)]
pub proof fn law_cacheable_body_reads_back(args: CacheableArgsView, f: FunctionView)
    requires
        has_no_dot(args.target),
    ensures
        read_cacheable_body(code::block_tokens(expand::cacheable_body(args, f))) == Some(
            expand::cacheable_body(args, f),
        ),
{
    let body = expand::cacheable_body(args, f);
    let t = code::block_tokens(body);
    expand_laws::law_written_cacheable_body(args, f);
    lemma_read_asked(args, f);
    let check = seq![
        Tok::Ident("if"@),
        Tok::Ident("let"@),
        Tok::Ident("Some"@),
        Tok::Group(Delim::Paren, seq![Tok::Ident("__id"@)]),
        Tok::Punct('=', false),
        Tok::Ident("__id_opt"@),
        Tok::Group(Delim::Brace, expand_laws::asked_tokens(args, f)),
    ];
    let run = seq![
        Tok::Ident("async"@),
        Tok::Ident("move"@),
        Tok::Group(Delim::Brace, f.stmts),
        Tok::Punct('.', false),
        Tok::Ident("await"@),
    ];
    lemma_read_id_opt(args.id, check + run);
    assert(t =~= expand_laws::let_tokens("__id_opt"@) + expand_laws::key_tokens(args.id) + seq![
        Tok::Punct(';', false),
    ] + (check + run));
    assert(t.subrange(18, 25) =~= check);
    assert(t.subrange(25, 30) =~= run);
    assert(check.take(3) =~= seq![Tok::Ident("if"@), Tok::Ident("let"@), Tok::Ident("Some"@)]);
    assert(body =~= seq![body[0], body[1], body[2]]);
}

/// The tokens that `cacheable` writes, read back and run on a record that the cache has: it is given
/// from there, and the function's own statements do not run.
pub proof fn law_cacheable_tokens_hit(
    args: CacheableArgsView,
    f: FunctionView,
    records: Records,
    world: World,
    place: Place,
)
    requires
        has_no_dot(args.target),
        laws::read_place(args, f, world) == Some(place),
        world.down is None,
        records.dom().contains(place),
    ensures
        read_cacheable_body(code::block_tokens(expand::cacheable_body(args, f))) matches Some(body)
            && ({
            let call = meaning::call(body, records, world);
            &&& call.answer == Some(laws::answer_of(records[place]))
            &&& call.events == seq![Event::Lookup(place)]
            &&& call.records == records
        }),
{
    law_cacheable_body_reads_back(args, f);
    laws::law_cacheable_hit(args, f, records, world, place);
}

/// The tokens that `cacheable` writes, read back and run on a record that the cache does not have:
/// the function's own statements run once, and a record that they give is given and kept.
pub proof fn law_cacheable_tokens_miss(
    args: CacheableArgsView,
    f: FunctionView,
    records: Records,
    world: World,
    place: Place,
)
    requires
        has_no_dot(args.target),
        laws::read_place(args, f, world) == Some(place),
        world.down is None,
        !records.dom().contains(place),
    ensures
        read_cacheable_body(code::block_tokens(expand::cacheable_body(args, f))) matches Some(body)
            && ({
            let call = meaning::call(body, records, world);
            &&& call.events == seq![Event::Lookup(place), Event::Body(f.stmts)]
            &&& (world.body)(f.stmts) matches Ok(record) ==> {
                &&& call.answer == Some(Ok::<int, Failure>(record))
                &&& call.records == records.insert(place, Some(record))
            }
        }),
{
    law_cacheable_body_reads_back(args, f);
    laws::law_cacheable_miss(args, f, records, world, place);
}

} // verus!
