//! Putting the generated code into the function that an attribute stands on.

use crate::args;
use crate::args::{
    Attr, CacheEvictArgs, CacheEvictArgsView, CacheableArgs, CacheableArgsView, Fault,
};
use crate::code;
use crate::code::{Expr, Name, Scope, Stmt};
use crate::emit;
use crate::syntax;
use crate::syntax::{Function, FunctionView};
use crate::tokens;
use crate::tokens::{Delim, Tok};
use proc_macro2::{Span, TokenStream};
use vstd::prelude::*;

verus! {

/// The name of the first parameter that the request context can come from.
pub open spec fn context_param(params: Seq<Option<Seq<char>>>) -> Option<Seq<char>>
    decreases params.len(),
{
    if params.len() == 0 {
        None
    } else if params[0] == Some("param"@) || params[0] == Some("ctx"@) {
        params[0]
    } else {
        context_param(params.skip(1))
    }
}

/// The request context: the one that is given; else the parameter `ctx`, where it stands before
/// any parameter `param`; else the context of `param`.
pub open spec fn context(params: Seq<Option<Seq<char>>>, explicit: Option<Seq<Tok>>) -> Seq<Tok> {
    match explicit {
        Some(ctx) => ctx,
        None => match context_param(params) {
            Some(name) if name != "param"@ => code::context_itself(),
            _ => code::context_of_param(),
        },
    }
}

/// The cache manager: the one that is given, else `self.cache`.
pub open spec fn manager(explicit: Option<Seq<Tok>>) -> Seq<Tok> {
    match explicit {
        Some(cache) => cache,
        None => code::self_cache(),
    }
}

/// Finds the request context of a call.
pub fn deduce_ctx(params: &Vec<Option<String>>, explicit_ctx: Option<TokenStream>) -> (ctx:
    TokenStream)
    ensures
        tokens::trees(ctx) == context(
            params@.map_values(|name: Option<String>| syntax::opt_chars(name)),
            tokens::opt_trees(explicit_ctx),
        ),
{
    let ghost names = params@.map_values(|name: Option<String>| syntax::opt_chars(name));
    if let Some(ctx) = explicit_ctx {
        return ctx;
    }
    let mut i: usize = 0;
    assert(names.skip(0) =~= names);
    while i < params.len()
        invariant
            i <= params.len(),
            names == params@.map_values(|name: Option<String>| syntax::opt_chars(name)),
            context_param(names) == context_param(names.skip(i as int)),
            explicit_ctx is None,
        decreases params.len() - i,
    {
        assert(names.skip(i as int).skip(1) =~= names.skip(i + 1));
        if let Some(name) = &params[i] {
            if *name == "param".to_owned() {
                return emit::context_of_param();
            }
            if *name == "ctx".to_owned() {
                return emit::context_itself();
            }
        }
        i = i + 1;
    }
    emit::context_of_param()
}

/// Finds the cache manager of a call.
pub fn deduce_cache(explicit_cache: Option<TokenStream>) -> (cache: TokenStream)
    ensures
        tokens::trees(cache) == manager(tokens::opt_trees(explicit_cache)),
{
    match explicit_cache {
        Some(cache) => cache,
        None => emit::self_cache(),
    }
}

/// The statements that drop from the cache what the arguments of `cache_evict` say: with `all`
/// the record and the page lists, or the page lists alone where there is no id; else with `page`
/// the page lists; else the record, where its id gives a key; else nothing.
pub open spec fn evictions(
    args: CacheEvictArgsView,
    cache: Seq<Tok>,
    ctx: Seq<Tok>,
) -> Seq<Stmt> {
    let drop = |scope: Scope|
        Stmt::Discard(Expr::Evict { cache, target: args.target, ctx, scope });
    match args.id {
        Some(id) if args.all => seq![
            Stmt::Let(Name::IdOpt, Expr::CacheId(id)),
            drop(Scope::All(Name::IdOpt)),
        ],
        None if args.all => seq![drop(Scope::Page)],
        _ if args.page => seq![drop(Scope::Page)],
        Some(id) => seq![
            Stmt::Let(Name::IdOpt, Expr::CacheId(id)),
            Stmt::IfSome(Name::IdStr, Name::IdOpt, seq![drop(Scope::One(Name::IdStr))]),
        ],
        None => Seq::empty(),
    }
}

/// The body that `cache_evict` gives to a function: its own statements first, then, where they
/// gave no error, what is dropped from the cache; what they gave is what the function gives.
pub open spec fn evict_body(args: CacheEvictArgsView, f: FunctionView) -> Seq<Stmt> {
    seq![
        Stmt::Let(Name::Res, Expr::Run(f.stmts)),
        Stmt::IfOk(
            Name::Res,
            evictions(args, manager(args.cache), context(f.params, args.ctx)),
        ),
        Stmt::Value(Expr::Var(Name::Res)),
    ]
}

/// The body that `cacheable` gives to a function. Where the id gives a key, the cache is asked
/// first and runs the function's own statements only to load what it does not have. Where it
/// gives none, the statements run as they are.
pub open spec fn cacheable_body(args: CacheableArgsView, f: FunctionView) -> Seq<Stmt> {
    seq![
        Stmt::Let(Name::IdOpt, Expr::CacheId(args.id)),
        Stmt::IfSome(
            Name::Id,
            Name::IdOpt,
            seq![
                Stmt::Let(
                    Name::CacheRes,
                    Expr::Load {
                        cache: manager(args.cache),
                        target: args.target,
                        ctx: context(f.params, args.ctx),
                        key: Name::Id,
                        loader: seq![
                            Stmt::Let(Name::InnerRes, Expr::Run(f.stmts)),
                            Stmt::Value(Expr::Absent(Name::InnerRes)),
                        ],
                    },
                ),
                Stmt::Return(Expr::Missing(Name::CacheRes)),
            ],
        ),
        Stmt::Value(Expr::Run(f.stmts)),
    ]
}

/// The tokens of one statement.
proof fn lemma_block_one(a: Stmt)
    ensures
        code::block_tokens(seq![a]) == a.tokens(),
{
    assert(seq![a].skip(1) =~= Seq::empty());
    assert(a.tokens() + Seq::<Tok>::empty() =~= a.tokens());
    reveal_with_fuel(code::block_tokens, 2);
}

/// The tokens of two statements.
proof fn lemma_block_two(a: Stmt, b: Stmt)
    ensures
        code::block_tokens(seq![a, b]) == a.tokens() + b.tokens(),
{
    assert(seq![a, b].skip(1) =~= seq![b]);
    lemma_block_one(b);
}

/// The tokens of three statements.
proof fn lemma_block_three(a: Stmt, b: Stmt, c: Stmt)
    ensures
        code::block_tokens(seq![a, b, c]) == a.tokens() + b.tokens() + c.tokens(),
{
    assert(seq![a, b, c].skip(1) =~= seq![b, c]);
    lemma_block_two(b, c);
    assert(a.tokens() + (b.tokens() + c.tokens()) =~= a.tokens() + b.tokens() + c.tokens());
}

/// Writes the statements that drop from the cache what the arguments say.
pub fn write_evictions(args: &CacheEvictArgs, cache: &TokenStream, ctx: &TokenStream) -> (out:
    TokenStream)
    ensures
        tokens::trees(out) == code::block_tokens(
            evictions(args@, tokens::trees(*cache), tokens::trees(*ctx)),
        ),
{
    let target = &args.target;
    let ghost stmts = evictions(args@, tokens::trees(*cache), tokens::trees(*ctx));
    let mut out = TokenStream::new();
    match &args.id {
        Some(id) if args.all => {
            emit::put_let(&mut out, Name::IdOpt, &emit::cache_id(id));
            emit::put_discard(&mut out, &emit::evict(cache, target, ctx, Scope::All(Name::IdOpt)));
            proof {
                lemma_block_two(stmts[0], stmts[1]);
                assert(stmts =~= seq![stmts[0], stmts[1]]);
                assert(tokens::trees(out) =~= stmts[0].tokens() + stmts[1].tokens());
            }
        },
        Some(id) if !args.page => {
            emit::put_let(&mut out, Name::IdOpt, &emit::cache_id(id));
            let mut inner = TokenStream::new();
            emit::put_discard(
                &mut inner,
                &emit::evict(cache, target, ctx, Scope::One(Name::IdStr)),
            );
            proof {
                let block = stmts[1]->IfSome_2;
                lemma_block_one(block[0]);
                assert(block =~= seq![block[0]]);
                assert(tokens::trees(inner) =~= code::block_tokens(block));
            }
            emit::put_if_some(&mut out, Name::IdStr, Name::IdOpt, inner);
            proof {
                lemma_block_two(stmts[0], stmts[1]);
                assert(stmts =~= seq![stmts[0], stmts[1]]);
                assert(tokens::trees(out) =~= stmts[0].tokens() + stmts[1].tokens());
            }
        },
        _ => if args.all || args.page {
            emit::put_discard(&mut out, &emit::evict(cache, target, ctx, Scope::Page));
            proof {
                lemma_block_one(stmts[0]);
                assert(stmts =~= seq![stmts[0]]);
                assert(tokens::trees(out) =~= stmts[0].tokens());
            }
        },
    }
    out
}

/// Writes the body that `cache_evict` gives to a function.
pub fn write_evict_body(args: CacheEvictArgs, f: &Function) -> (out: TokenStream)
    ensures
        tokens::trees(out) == code::block_tokens(evict_body(args@, f@)),
{
    let ghost body = evict_body(args@, f@);
    let mut args = args;
    let ctx = deduce_ctx(&f.params, args.ctx.take());
    let cache = deduce_cache(args.cache.take());
    let mut out = TokenStream::new();
    emit::put_let(&mut out, Name::Res, &emit::run(&f.stmts));
    emit::put_if_ok(&mut out, Name::Res, write_evictions(&args, &cache, &ctx));
    tokens::append(&mut out, &emit::var(Name::Res));
    proof {
        lemma_block_three(body[0], body[1], body[2]);
        assert(tokens::trees(out) =~= body[0].tokens() + body[1].tokens() + body[2].tokens());
    }
    out
}

/// Writes the body that `cacheable` gives to a function.
pub fn write_cacheable_body(args: CacheableArgs, f: &Function) -> (out: TokenStream)
    ensures
        tokens::trees(out) == code::block_tokens(cacheable_body(args@, f@)),
{
    let ghost body = cacheable_body(args@, f@);
    let ghost found = body[1]->IfSome_2;
    let ghost loading = found[0]->Let_1->loader;
    let CacheableArgs { target, id, ctx, cache } = args;
    let ctx = deduce_ctx(&f.params, ctx);
    let cache = deduce_cache(cache);
    let mut loader = TokenStream::new();
    emit::put_let(&mut loader, Name::InnerRes, &emit::run(&f.stmts));
    tokens::append(&mut loader, &emit::absent(Name::InnerRes));
    proof {
        lemma_block_two(loading[0], loading[1]);
        assert(tokens::trees(loader) =~= loading[0].tokens() + loading[1].tokens());
    }
    let mut inner = TokenStream::new();
    emit::put_let(
        &mut inner,
        Name::CacheRes,
        &emit::load(&cache, &target, &ctx, Name::Id, loader),
    );
    emit::put_return(&mut inner, &emit::missing(Name::CacheRes));
    proof {
        lemma_block_two(found[0], found[1]);
        assert(tokens::trees(inner) =~= found[0].tokens() + found[1].tokens());
    }
    let mut out = TokenStream::new();
    emit::put_let(&mut out, Name::IdOpt, &emit::cache_id(&id));
    emit::put_if_some(&mut out, Name::Id, Name::IdOpt, inner);
    tokens::append(&mut out, &emit::run(&f.stmts));
    proof {
        lemma_block_three(body[0], body[1], body[2]);
        assert(tokens::trees(out) =~= body[0].tokens() + body[1].tokens() + body[2].tokens());
    }
    out
}

/// A function with other statements in its body: all that stands before the body stays, and so
/// do the attributes inside it.
pub open spec fn with_statements(f: FunctionView, stmts: Seq<Tok>) -> Seq<Tok> {
    match f.shell.last() {
        Tok::Group(delim, inner) => f.shell.drop_last() + code::group(delim, inner + stmts),
        _ => f.shell,
    }
}

/// A function with another body, which has to read as a block; or the messages where it does
/// not.
pub open spec fn with_body(f: FunctionView, body: Seq<Tok>) -> Result<Seq<Tok>, Seq<Seq<char>>> {
    match syntax::statements_of(code::group(Delim::Brace, body)) {
        Ok(stmts) => Ok(with_statements(f, stmts)),
        Err(messages) => Err(messages),
    }
}

/// The body that an attribute wrote does not read as a block, because of what the user gave as
/// an argument: `1..` as the cache manager, for one.
pub struct BodyError {
    pub cause: syn::Error,
}

impl View for BodyError {
    type V = Seq<Seq<char>>;

    open spec fn view(&self) -> Seq<Seq<char>> {
        syntax::messages(self.cause)
    }
}

/// Writes a function with other statements in its body.
pub fn replace_statements(f: &Function, stmts: &TokenStream) -> (out: TokenStream)
    requires
        f@.wf(),
    ensures
        tokens::trees(out) == with_statements(f@, tokens::trees(*stmts)),
{
    match tokens::split_last_group(&f.shell) {
        Some((before, inner)) => {
            let mut out = before;
            let mut body = inner;
            tokens::append(&mut body, stmts);
            tokens::push_group(&mut out, Delim::Brace, body);
            assert(tokens::trees(out) =~= with_statements(f@, tokens::trees(*stmts)));
            out
        },
        None => {
            assert(false);
            TokenStream::new()
        },
    }
}

/// Writes a function with another body.
pub fn replace_body(f: &Function, body: TokenStream) -> (replaced: Result<TokenStream, BodyError>)
    requires
        f@.wf(),
    ensures
        match replaced {
            Ok(out) => with_body(f@, tokens::trees(body)) == Ok::<_, Seq<Seq<char>>>(
                tokens::trees(out),
            ),
            Err(error) => with_body(f@, tokens::trees(body)) == Err::<Seq<Tok>, _>(error@),
        },
{
    let mut block = TokenStream::new();
    let ghost inner = tokens::trees(body);
    tokens::push_group(&mut block, Delim::Brace, body);
    assert(tokens::trees(block) =~= code::group(Delim::Brace, inner));
    match syntax::parse_block(&block) {
        Ok(stmts) => Ok(replace_statements(f, &stmts)),
        Err(cause) => Err(BodyError { cause }),
    }
}

/// A function definition: a method where the tokens read as one, else a free function.
pub open spec fn definition(item: Seq<Tok>) -> Option<FunctionView> {
    match (syntax::method_of(item), syntax::function_of(item)) {
        (Ok(f), _) => Some(f),
        (Err(_), Ok(f)) => Some(f),
        (Err(_), Err(_)) => None,
    }
}

/// Reads a function definition.
pub fn read_function(item: &TokenStream) -> (read: Option<Function>)
    ensures
        match read {
            Some(f) => f@.wf() && definition(tokens::trees(*item)) == Some(f@),
            None => definition(tokens::trees(*item)) is None,
        },
{
    match syntax::parse_method(item) {
        Ok(f) => Some(f),
        Err(_) => match syntax::parse_function(item) {
            Ok(f) => Some(f),
            Err(_) => None,
        },
    }
}

/// What `cache_evict` makes of a definition.
pub open spec fn evict_expansion(args: Seq<Tok>, item: Seq<Tok>) -> Result<
    Seq<Tok>,
    Seq<Seq<char>>,
> {
    match CacheEvictArgsView::parse(args) {
        Err(fault) => Ok(syntax::compile_errors(fault.messages())),
        Ok(args) => match definition(item) {
            None => Ok(
                syntax::compile_errors(
                    seq!["#[cache_evict] 仅支持修饰 async 函数或方法"@],
                ),
            ),
            Some(f) => with_body(f, code::block_tokens(evict_body(args, f))),
        },
    }
}

/// What `cacheable` makes of a definition.
pub open spec fn cacheable_expansion(args: Seq<Tok>, item: Seq<Tok>) -> Result<
    Seq<Tok>,
    Seq<Seq<char>>,
> {
    match CacheableArgsView::parse(args) {
        Err(fault) => Ok(syntax::compile_errors(fault.messages())),
        Ok(args) => match definition(item) {
            None => Ok(
                syntax::compile_errors(seq!["#[cacheable] 仅支持修饰 async 函数或方法"@]),
            ),
            Some(f) => with_body(f, code::block_tokens(cacheable_body(args, f))),
        },
    }
}

/// The place that the user is told of where the arguments are refused, for an attribute that stands
/// at `site`: the key that is refused, or the attribute where something is missing. An error of
/// syntax has places of its own.
pub open spec fn fault_place(attr: Attr, fault: Fault, args: TokenStream, site: Span) -> Option<
    Span,
> {
    match fault {
        Fault::Syntax(_) => None,
        Fault::UnknownKey(_, _) | Fault::NeedsValue(_) => args::place_of(
            args,
            args::refused_key(attr, true, tokens::trees(args)),
        ),
        Fault::NoTarget(_) | Fault::NoId => Some(site),
    }
}

/// The place that `cache_evict` tells the user of, where it gives a `compile_error!`.
pub open spec fn evict_place(args: TokenStream, item: TokenStream, site: Span) -> Option<Span> {
    match CacheEvictArgsView::parse(tokens::trees(args)) {
        Err(fault) => fault_place(Attr::Evict, fault, args, site),
        Ok(_) => if definition(tokens::trees(item)) is None {
            Some(site)
        } else {
            None
        },
    }
}

/// The place that `cacheable` tells the user of, where it gives a `compile_error!`.
pub open spec fn cacheable_place(args: TokenStream, item: TokenStream, site: Span) -> Option<
    Span,
> {
    match CacheableArgsView::parse(tokens::trees(args)) {
        Err(fault) => fault_place(Attr::Cacheable, fault, args, site),
        Ok(_) => if definition(tokens::trees(item)) is None {
            Some(site)
        } else {
            None
        },
    }
}

/// Whether what comes out stands at a place, where there is one to tell of.
pub open spec fn stands_at(
    place: Option<Span>,
    expanded: Result<TokenStream, BodyError>,
) -> bool {
    place matches Some(place) ==> (expanded matches Ok(out) && tokens::places(out)
        == syntax::call_places(place))
}

/// The attribute for writes: the function's own statements run first, and where they gave no
/// error the cache drops what the arguments say.
///
/// ```text
/// #[cache_evict(UserBo, id = param.payload.id, all)]
/// pub async fn update(&self, param: ...) -> AppResult<UserBo> {
///     /* update the record */
/// }
/// ```
///
/// becomes
///
/// ```text
/// pub async fn update(&self, param: ...) -> AppResult<UserBo> {
///     let __res = async move {
///         /* update the record */
///     }.await;
///     if __res.is_ok() {
///         let __id_opt =
///             crate::common::cache::ToCacheIdOpt::to_cache_id_opt(&(param.payload.id));
///         let _ = self.cache.evict_all_smart::<UserBo>(__id_opt, &param.context).await;
///     }
///     __res
/// }
/// ```
///
/// Arguments that are refused, and an item that is no function, give a `compile_error!`. There
/// is no result where an argument keeps the new body from being a block.
pub fn cache_evict(args: TokenStream, item: TokenStream) -> (expanded: Result<
    TokenStream,
    BodyError,
>)
    ensures
        match expanded {
            Ok(out) => evict_expansion(tokens::trees(args), tokens::trees(item)) == Ok::<
                _,
                Seq<Seq<char>>,
            >(tokens::trees(out)),
            Err(error) => evict_expansion(tokens::trees(args), tokens::trees(item)) == Err::<
                Seq<Tok>,
                _,
            >(error@),
        },
        exists|site: Span| stands_at(#[trigger] evict_place(args, item, site), expanded),
{
    let site = Span::call_site();
    let expanded = cache_evict_at(args, item, site);
    assert(stands_at(evict_place(args, item, site), expanded));
    expanded
}

/// As [`cache_evict`], for an attribute that stands at `site`.
pub fn cache_evict_at(args: TokenStream, item: TokenStream, site: Span) -> (expanded: Result<
    TokenStream,
    BodyError,
>)
    ensures
        match expanded {
            Ok(out) => evict_expansion(tokens::trees(args), tokens::trees(item)) == Ok::<
                _,
                Seq<Seq<char>>,
            >(tokens::trees(out)),
            Err(error) => evict_expansion(tokens::trees(args), tokens::trees(item)) == Err::<
                Seq<Tok>,
                _,
            >(error@),
        },
        stands_at(evict_place(args, item, site), expanded),
{
    let args = match CacheEvictArgs::parse(args) {
        Ok(args) => args,
        Err(error) => return Ok(error.report(site)),
    };
    match read_function(&item) {
        Some(f) => {
            let body = write_evict_body(args, &f);
            replace_body(&f, body)
        },
        None => Ok(
            syntax::compile_error_at(site, "#[cache_evict] 仅支持修饰 async 函数或方法"),
        ),
    }
}

/// The attribute for reads: the cache is asked first, and the function's own statements run
/// only to load what it does not have.
///
/// ```text
/// #[cacheable(UserBo, id = param.payload.id)]
/// pub async fn get(&self, param: &ServiceRequest<UserBo>) -> AppResult<UserBo> {
///     /* read the record */
/// }
/// ```
///
/// becomes
///
/// ```text
/// pub async fn get(&self, param: &ServiceRequest<UserBo>) -> AppResult<UserBo> {
///     let __id_opt = crate::common::cache::ToCacheIdOpt::to_cache_id_opt(&(param.payload.id));
///     if let Some(__id) = __id_opt {
///         let __cache_res = self
///             .cache
///             .get_or_load_with_ctx::<UserBo, _, _>(__id, &param.context, || async move {
///                 let __inner_res = async move {
///                     /* read the record */
///                 }.await;
///                 match __inner_res {
///                     Ok(__val) => Ok(Some(__val)),
///                     Err(crate::common::error::AppError::NotFound(_)) => Ok(None),
///                     Err(e) => Err(e),
///                 }
///             })
///             .await?;
///         return __cache_res
///             .ok_or_else(|| crate::common::error::AppError::not_found("记录不存在"));
///     }
///     async move {
///         /* read the record */
///     }.await
/// }
/// ```
///
/// Arguments that are refused, and an item that is no function, give a `compile_error!`. There
/// is no result where an argument keeps the new body from being a block.
pub fn cacheable(args: TokenStream, item: TokenStream) -> (expanded: Result<
    TokenStream,
    BodyError,
>)
    ensures
        match expanded {
            Ok(out) => cacheable_expansion(tokens::trees(args), tokens::trees(item)) == Ok::<
                _,
                Seq<Seq<char>>,
            >(tokens::trees(out)),
            Err(error) => cacheable_expansion(tokens::trees(args), tokens::trees(item)) == Err::<
                Seq<Tok>,
                _,
            >(error@),
        },
        exists|site: Span| stands_at(#[trigger] cacheable_place(args, item, site), expanded),
{
    let site = Span::call_site();
    let expanded = cacheable_at(args, item, site);
    assert(stands_at(cacheable_place(args, item, site), expanded));
    expanded
}

/// As [`cacheable`], for an attribute that stands at `site`.
pub fn cacheable_at(args: TokenStream, item: TokenStream, site: Span) -> (expanded: Result<
    TokenStream,
    BodyError,
>)
    ensures
        match expanded {
            Ok(out) => cacheable_expansion(tokens::trees(args), tokens::trees(item)) == Ok::<
                _,
                Seq<Seq<char>>,
            >(tokens::trees(out)),
            Err(error) => cacheable_expansion(tokens::trees(args), tokens::trees(item)) == Err::<
                Seq<Tok>,
                _,
            >(error@),
        },
        stands_at(cacheable_place(args, item, site), expanded),
{
    let args = match CacheableArgs::parse(args) {
        Ok(args) => args,
        Err(error) => return Ok(error.report(site)),
    };
    match read_function(&item) {
        Some(f) => {
            let body = write_cacheable_body(args, &f);
            replace_body(&f, body)
        },
        None => Ok(
            syntax::compile_error_at(site, "#[cacheable] 仅支持修饰 async 函数或方法"),
        ),
    }
}

} // verus!
