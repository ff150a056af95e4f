//! The code that the attributes put around a function's body: its shape, and its tokens.

use crate::tokens;
use crate::tokens::{Delim, Tok};
use vstd::prelude::*;

verus! {

/// A local variable of the generated code.
#[derive(Clone, Copy, PartialEq, Eq, Structural, Debug)]
pub enum Name {
    /// The id of the record as a cache key, if it has one.
    IdOpt,
    /// The cache key that a record is looked up by.
    Id,
    /// The cache key of the record that is dropped.
    IdStr,
    /// What the cache found or loaded.
    CacheRes,
    /// What the body gave to the cache.
    InnerRes,
    /// What the body gave.
    Res,
}

impl Name {
    /// How the variable is spelt.
    pub open spec fn text(self) -> Seq<char> {
        match self {
            Name::IdOpt => "__id_opt"@,
            Name::Id => "__id"@,
            Name::IdStr => "__id_str"@,
            Name::CacheRes => "__cache_res"@,
            Name::InnerRes => "__inner_res"@,
            Name::Res => "__res"@,
        }
    }
}

/// What a call drops from the cache.
#[derive(Clone, Copy, PartialEq, Eq, Structural, Debug)]
pub enum Scope {
    /// The page lists.
    Page,
    /// The record under a key.
    One(Name),
    /// The record under a key, if there is one, and the page lists.
    All(Name),
}

/// An expression of the generated code.
pub enum Expr {
    Var(Name),
    /// The function's own statements, run to their end.
    Run(Seq<Tok>),
    /// The id that the user gave, as a cache key.
    CacheId(Seq<Tok>),
    /// A call that drops something from the cache.
    Evict { cache: Seq<Tok>, target: Seq<Tok>, ctx: Seq<Tok>, scope: Scope },
    /// A call that looks a key up in the cache and runs the loader where it is not there. An
    /// error ends the function.
    Load { cache: Seq<Tok>, target: Seq<Tok>, ctx: Seq<Tok>, key: Name, loader: Seq<Stmt> },
    /// A result in which the error for a missing record has become an absent value.
    Absent(Name),
    /// A result in which an absent value has become the error for a missing record.
    Missing(Name),
}

/// A statement of the generated code.
pub enum Stmt {
    Let(Name, Expr),
    /// An expression whose value is not used.
    Discard(Expr),
    /// Statements for the case that a variable holds a key, which they know by another name.
    IfSome(Name, Name, Seq<Stmt>),
    /// Statements for the case that a variable holds no error.
    IfOk(Name, Seq<Stmt>),
    Return(Expr),
    /// The value of the block.
    Value(Expr),
}

/// An identifier or keyword.
pub open spec fn word(text: Seq<char>) -> Seq<Tok> {
    seq![Tok::Ident(text)]
}

/// An operator of one character.
pub open spec fn punct(ch: char) -> Seq<Tok> {
    seq![Tok::Punct(ch, false)]
}

/// An operator of two characters.
pub open spec fn operator(a: char, b: char) -> Seq<Tok> {
    seq![Tok::Punct(a, true), Tok::Punct(b, false)]
}

/// Tokens between delimiters.
pub open spec fn group(delim: Delim, inner: Seq<Tok>) -> Seq<Tok> {
    seq![Tok::Group(delim, inner)]
}

/// `::name`
pub open spec fn segment(name: Seq<char>) -> Seq<Tok> {
    operator(':', ':') + word(name)
}

/// `.name`
pub open spec fn member(name: Seq<char>) -> Seq<Tok> {
    punct('.') + word(name)
}

/// `async move { inner }`
pub open spec fn async_block(inner: Seq<Tok>) -> Seq<Tok> {
    word("async"@) + word("move"@) + group(Delim::Brace, inner)
}

/// `crate::common::error::AppError::name`
pub open spec fn app_error(name: Seq<char>) -> Seq<Tok> {
    word("crate"@) + segment("common"@) + segment("error"@) + segment("AppError"@) + segment(name)
}

/// `name(inner)`
pub open spec fn wrapped(name: Seq<char>, inner: Seq<Tok>) -> Seq<Tok> {
    word(name) + group(Delim::Paren, inner)
}

/// `pattern => value,`
pub open spec fn arm(pattern: Seq<Tok>, value: Seq<Tok>) -> Seq<Tok> {
    pattern + operator('=', '>') + value + punct(',')
}

/// `cache.method::<types>(args).await`
pub open spec fn cache_call(
    cache: Seq<Tok>,
    method: Seq<char>,
    types: Seq<Tok>,
    args: Seq<Tok>,
) -> Seq<Tok> {
    cache + member(method) + operator(':', ':') + punct('<') + types + punct('>') + group(
        Delim::Paren,
        args,
    ) + member("await"@)
}

/// `cache.get_or_load_with_ctx::<target, _, _>(key, ctx, || async move { loader }).await?`
pub open spec fn load_call(
    cache: Seq<Tok>,
    target: Seq<Tok>,
    ctx: Seq<Tok>,
    key: Name,
    loader: Seq<Tok>,
) -> Seq<Tok> {
    cache_call(
        cache,
        "get_or_load_with_ctx"@,
        target + punct(',') + word("_"@) + punct(',') + word("_"@),
        word(key.text()) + punct(',') + ctx + punct(',') + operator('|', '|') + async_block(loader),
    ) + punct('?')
}

/// `&param.context`
pub open spec fn context_of_param() -> Seq<Tok> {
    punct('&') + word("param"@) + member("context"@)
}

/// `&ctx`
pub open spec fn context_itself() -> Seq<Tok> {
    punct('&') + word("ctx"@)
}

/// `self.cache`
pub open spec fn self_cache() -> Seq<Tok> {
    word("self"@) + member("cache"@)
}

/// `let name = value;`
pub open spec fn let_stmt(name: Seq<char>, value: Seq<Tok>) -> Seq<Tok> {
    word("let"@) + word(name) + punct('=') + value + punct(';')
}

/// `if let Some(bound) = name { block }`
pub open spec fn if_some(bound: Name, name: Name, block: Seq<Tok>) -> Seq<Tok> {
    word("if"@) + word("let"@) + wrapped("Some"@, word(bound.text())) + punct('=') + word(
        name.text(),
    ) + group(Delim::Brace, block)
}

/// `if name.is_ok() { block }`
pub open spec fn if_ok(name: Name, block: Seq<Tok>) -> Seq<Tok> {
    word("if"@) + word(name.text()) + member("is_ok"@) + group(Delim::Paren, Seq::empty()) + group(
        Delim::Brace,
        block,
    )
}

/// `return value;`
pub open spec fn return_stmt(value: Seq<Tok>) -> Seq<Tok> {
    word("return"@) + value + punct(';')
}

/// The message of the error for a missing record.
pub open spec fn missing_text() -> Seq<char> {
    "记录不存在"@
}

impl Scope {
    /// The method that drops it.
    pub open spec fn method(self) -> Seq<char> {
        match self {
            Scope::Page => "evict_page"@,
            Scope::One(_) => "evict_with_ctx"@,
            Scope::All(_) => "evict_all_smart"@,
        }
    }

    /// The arguments of that method.
    pub open spec fn args(self, ctx: Seq<Tok>) -> Seq<Tok> {
        match self {
            Scope::Page => ctx,
            Scope::One(key) | Scope::All(key) => word(key.text()) + punct(',') + ctx,
        }
    }
}

impl Expr {
    /// How the expression is written.
    pub open spec fn tokens(self) -> Seq<Tok>
        decreases self,
    {
        match self {
            Expr::Var(name) => word(name.text()),
            Expr::Run(stmts) => async_block(stmts) + member("await"@),
            Expr::CacheId(id) => word("crate"@) + segment("common"@) + segment("cache"@) + segment(
                "ToCacheIdOpt"@,
            ) + segment("to_cache_id_opt"@) + group(
                Delim::Paren,
                punct('&') + group(Delim::Paren, id),
            ),
            Expr::Evict { cache, target, ctx, scope } => cache_call(
                cache,
                scope.method(),
                target,
                scope.args(ctx),
            ),
            Expr::Load { cache, target, ctx, key, loader } => load_call(
                cache,
                target,
                ctx,
                key,
                block_tokens(loader),
            ),
            Expr::Absent(name) => word("match"@) + word(name.text()) + group(
                Delim::Brace,
                arm(
                    wrapped("Ok"@, word("__val"@)),
                    wrapped("Ok"@, wrapped("Some"@, word("__val"@))),
                ) + arm(
                    wrapped("Err"@, app_error("NotFound"@) + group(Delim::Paren, word("_"@))),
                    wrapped("Ok"@, word("None"@)),
                ) + arm(wrapped("Err"@, word("e"@)), wrapped("Err"@, word("e"@))),
            ),
            Expr::Missing(name) => word(name.text()) + member("ok_or_else"@) + group(
                Delim::Paren,
                operator('|', '|') + app_error("not_found"@) + group(
                    Delim::Paren,
                    seq![Tok::Literal(tokens::string_literal(missing_text()))],
                ),
            ),
        }
    }
}

impl Stmt {
    /// How the statement is written.
    pub open spec fn tokens(self) -> Seq<Tok>
        decreases self,
    {
        match self {
            Stmt::Let(name, value) => let_stmt(name.text(), value.tokens()),
            Stmt::Discard(value) => let_stmt("_"@, value.tokens()),
            Stmt::IfSome(bound, name, block) => if_some(bound, name, block_tokens(block)),
            Stmt::IfOk(name, block) => if_ok(name, block_tokens(block)),
            Stmt::Return(value) => return_stmt(value.tokens()),
            Stmt::Value(value) => value.tokens(),
        }
    }
}

/// The tokens of statements in a row.
pub open spec fn block_tokens(block: Seq<Stmt>) -> Seq<Tok>
    decreases block,
{
    if block.len() == 0 {
        Seq::empty()
    } else {
        block[0].tokens() + block_tokens(block.skip(1))
    }
}

} // verus!
