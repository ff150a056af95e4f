//! Writing the generated code into token streams.

use crate::code;
use crate::code::{Expr, Name, Scope};
use crate::tokens;
use crate::tokens::Delim;
use proc_macro2::TokenStream;
use vstd::prelude::*;

verus! {

/// The words of the generated code are identifiers and keywords.
pub proof fn lemma_words()
    ensures
        tokens::is_word("let"@),
        tokens::is_word("if"@),
        tokens::is_word("async"@),
        tokens::is_word("move"@),
        tokens::is_word("await"@),
        tokens::is_word("match"@),
        tokens::is_word("return"@),
        tokens::is_word("crate"@),
        tokens::is_word("common"@),
        tokens::is_word("cache"@),
        tokens::is_word("error"@),
        tokens::is_word("AppError"@),
        tokens::is_word("ToCacheIdOpt"@),
        tokens::is_word("to_cache_id_opt"@),
        tokens::is_word("NotFound"@),
        tokens::is_word("not_found"@),
        tokens::is_word("ok_or_else"@),
        tokens::is_word("is_ok"@),
        tokens::is_word("Ok"@),
        tokens::is_word("Err"@),
        tokens::is_word("Some"@),
        tokens::is_word("None"@),
        tokens::is_word("e"@),
        tokens::is_word("_"@),
        tokens::is_word("__val"@),
        tokens::is_word("evict_page"@),
        tokens::is_word("evict_with_ctx"@),
        tokens::is_word("evict_all_smart"@),
        tokens::is_word("get_or_load_with_ctx"@),
        tokens::is_word("__id_opt"@),
        tokens::is_word("__id"@),
        tokens::is_word("__id_str"@),
        tokens::is_word("__cache_res"@),
        tokens::is_word("__inner_res"@),
        tokens::is_word("__res"@),
        tokens::is_word("self"@),
        tokens::is_word("param"@),
        tokens::is_word("context"@),
        tokens::is_word("ctx"@),
{
    reveal_strlit("let");
    reveal_strlit("if");
    reveal_strlit("async");
    reveal_strlit("move");
    reveal_strlit("await");
    reveal_strlit("match");
    reveal_strlit("return");
    reveal_strlit("crate");
    reveal_strlit("common");
    reveal_strlit("cache");
    reveal_strlit("error");
    reveal_strlit("AppError");
    reveal_strlit("ToCacheIdOpt");
    reveal_strlit("to_cache_id_opt");
    reveal_strlit("NotFound");
    reveal_strlit("not_found");
    reveal_strlit("ok_or_else");
    reveal_strlit("is_ok");
    reveal_strlit("Ok");
    reveal_strlit("Err");
    reveal_strlit("Some");
    reveal_strlit("None");
    reveal_strlit("e");
    reveal_strlit("_");
    reveal_strlit("__val");
    reveal_strlit("evict_page");
    reveal_strlit("evict_with_ctx");
    reveal_strlit("evict_all_smart");
    reveal_strlit("get_or_load_with_ctx");
    reveal_strlit("__id_opt");
    reveal_strlit("__id");
    reveal_strlit("__id_str");
    reveal_strlit("__cache_res");
    reveal_strlit("__inner_res");
    reveal_strlit("__res");
    reveal_strlit("self");
    reveal_strlit("param");
    reveal_strlit("context");
    reveal_strlit("ctx");
}

fn put_word(out: &mut TokenStream, text: &str)
    requires
        tokens::is_word(text@),
    ensures
        tokens::trees(*final(out)) == tokens::trees(*old(out)) + code::word(text@),
{
    tokens::push_ident(out, text);
}

fn put_punct(out: &mut TokenStream, ch: char)
    requires
        tokens::is_punct(ch),
    ensures
        tokens::trees(*final(out)) == tokens::trees(*old(out)) + code::punct(ch),
{
    tokens::push_punct(out, ch, false);
}

fn put_operator(out: &mut TokenStream, a: char, b: char)
    requires
        tokens::is_punct(a),
        tokens::is_punct(b),
    ensures
        tokens::trees(*final(out)) == tokens::trees(*old(out)) + code::operator(a, b),
{
    tokens::push_punct(out, a, true);
    tokens::push_punct(out, b, false);
}

fn put_group(out: &mut TokenStream, delim: Delim, inner: TokenStream)
    ensures
        tokens::trees(*final(out)) == tokens::trees(*old(out)) + code::group(
            delim,
            tokens::trees(inner),
        ),
{
    tokens::push_group(out, delim, inner);
}

fn put_segment(out: &mut TokenStream, name: &str)
    requires
        tokens::is_word(name@),
    ensures
        tokens::trees(*final(out)) == tokens::trees(*old(out)) + code::segment(name@),
{
    put_operator(out, ':', ':');
    put_word(out, name);
}

fn put_member(out: &mut TokenStream, name: &str)
    requires
        tokens::is_word(name@),
    ensures
        tokens::trees(*final(out)) == tokens::trees(*old(out)) + code::member(name@),
{
    put_punct(out, '.');
    put_word(out, name);
}

fn put_name(out: &mut TokenStream, name: Name)
    ensures
        tokens::trees(*final(out)) == tokens::trees(*old(out)) + code::word(name.text()),
{
    proof {
        lemma_words();
    }
    match name {
        Name::IdOpt => put_word(out, "__id_opt"),
        Name::Id => put_word(out, "__id"),
        Name::IdStr => put_word(out, "__id_str"),
        Name::CacheRes => put_word(out, "__cache_res"),
        Name::InnerRes => put_word(out, "__inner_res"),
        Name::Res => put_word(out, "__res"),
    }
}

fn put_async_block(out: &mut TokenStream, inner: TokenStream)
    ensures
        tokens::trees(*final(out)) == tokens::trees(*old(out)) + code::async_block(
            tokens::trees(inner),
        ),
{
    proof {
        lemma_words();
    }
    put_word(out, "async");
    put_word(out, "move");
    put_group(out, Delim::Brace, inner);
}

fn put_app_error(out: &mut TokenStream, name: &str)
    requires
        tokens::is_word(name@),
    ensures
        tokens::trees(*final(out)) == tokens::trees(*old(out)) + code::app_error(name@),
{
    proof {
        lemma_words();
    }
    put_word(out, "crate");
    put_segment(out, "common");
    put_segment(out, "error");
    put_segment(out, "AppError");
    put_segment(out, name);
}

/// `name(inner)`
fn wrapped(name: &str, inner: TokenStream) -> (out: TokenStream)
    requires
        tokens::is_word(name@),
    ensures
        tokens::trees(out) == code::wrapped(name@, tokens::trees(inner)),
{
    let mut out = TokenStream::new();
    put_word(&mut out, name);
    put_group(&mut out, Delim::Paren, inner);
    out
}

/// A single word.
fn lone(text: &str) -> (out: TokenStream)
    requires
        tokens::is_word(text@),
    ensures
        tokens::trees(out) == code::word(text@),
{
    let mut out = TokenStream::new();
    put_word(&mut out, text);
    out
}

fn put_arm(out: &mut TokenStream, pattern: TokenStream, value: TokenStream)
    ensures
        tokens::trees(*final(out)) == tokens::trees(*old(out)) + code::arm(
            tokens::trees(pattern),
            tokens::trees(value),
        ),
{
    tokens::append(out, &pattern);
    put_operator(out, '=', '>');
    tokens::append(out, &value);
    put_punct(out, ',');
}

fn cache_call(cache: &TokenStream, method: &str, types: &TokenStream, args: TokenStream) -> (out:
    TokenStream)
    requires
        tokens::is_word(method@),
    ensures
        tokens::trees(out) == code::cache_call(
            tokens::trees(*cache),
            method@,
            tokens::trees(*types),
            tokens::trees(args),
        ),
{
    proof {
        lemma_words();
    }
    let mut out = TokenStream::new();
    tokens::append(&mut out, cache);
    put_member(&mut out, method);
    put_operator(&mut out, ':', ':');
    put_punct(&mut out, '<');
    tokens::append(&mut out, types);
    put_punct(&mut out, '>');
    put_group(&mut out, Delim::Paren, args);
    put_member(&mut out, "await");
    out
}

/// Writes a variable.
pub fn var(name: Name) -> (out: TokenStream)
    ensures
        tokens::trees(out) == Expr::Var(name).tokens(),
{
    let mut out = TokenStream::new();
    put_name(&mut out, name);
    out
}

/// Writes the run of a function's own statements.
pub fn run(stmts: &TokenStream) -> (out: TokenStream)
    ensures
        tokens::trees(out) == Expr::Run(tokens::trees(*stmts)).tokens(),
{
    proof {
        lemma_words();
    }
    let mut inner = TokenStream::new();
    tokens::append(&mut inner, stmts);
    let mut out = TokenStream::new();
    put_async_block(&mut out, inner);
    put_member(&mut out, "await");
    assert(Seq::<tokens::Tok>::empty() + tokens::trees(*stmts) =~= tokens::trees(*stmts));
    out
}

/// Writes the conversion of an id to a cache key.
pub fn cache_id(id: &TokenStream) -> (out: TokenStream)
    ensures
        tokens::trees(out) == Expr::CacheId(tokens::trees(*id)).tokens(),
{
    proof {
        lemma_words();
    }
    let mut inner = TokenStream::new();
    tokens::append(&mut inner, id);
    assert(tokens::trees(inner) =~= tokens::trees(*id));
    let mut arg = TokenStream::new();
    put_punct(&mut arg, '&');
    put_group(&mut arg, Delim::Paren, inner);
    assert(tokens::trees(arg) =~= code::punct('&') + code::group(
        Delim::Paren,
        tokens::trees(*id),
    ));
    let mut out = TokenStream::new();
    put_word(&mut out, "crate");
    put_segment(&mut out, "common");
    put_segment(&mut out, "cache");
    put_segment(&mut out, "ToCacheIdOpt");
    put_segment(&mut out, "to_cache_id_opt");
    put_group(&mut out, Delim::Paren, arg);
    out
}

/// Writes a call that drops something from the cache.
pub fn evict(cache: &TokenStream, target: &TokenStream, ctx: &TokenStream, scope: Scope) -> (out:
    TokenStream)
    ensures
        tokens::trees(out) == (Expr::Evict {
            cache: tokens::trees(*cache),
            target: tokens::trees(*target),
            ctx: tokens::trees(*ctx),
            scope,
        }).tokens(),
{
    proof {
        lemma_words();
    }
    let mut args = TokenStream::new();
    match scope {
        Scope::Page => {},
        Scope::One(key) | Scope::All(key) => {
            put_name(&mut args, key);
            put_punct(&mut args, ',');
        },
    }
    tokens::append(&mut args, ctx);
    assert(tokens::trees(args) =~= scope.args(tokens::trees(*ctx)));
    let method = match scope {
        Scope::Page => "evict_page",
        Scope::One(_) => "evict_with_ctx",
        Scope::All(_) => "evict_all_smart",
    };
    cache_call(cache, method, target, args)
}

/// Writes a call that looks a key up in the cache, with its loader.
pub fn load(
    cache: &TokenStream,
    target: &TokenStream,
    ctx: &TokenStream,
    key: Name,
    loader: TokenStream,
) -> (out: TokenStream)
    ensures
        tokens::trees(out) == code::load_call(
            tokens::trees(*cache),
            tokens::trees(*target),
            tokens::trees(*ctx),
            key,
            tokens::trees(loader),
        ),
{
    proof {
        lemma_words();
    }
    let mut types = TokenStream::new();
    tokens::append(&mut types, target);
    put_punct(&mut types, ',');
    put_word(&mut types, "_");
    put_punct(&mut types, ',');
    put_word(&mut types, "_");
    assert(tokens::trees(types) =~= tokens::trees(*target) + code::punct(',') + code::word("_"@)
        + code::punct(',') + code::word("_"@));
    let mut args = TokenStream::new();
    put_name(&mut args, key);
    put_punct(&mut args, ',');
    tokens::append(&mut args, ctx);
    put_punct(&mut args, ',');
    put_operator(&mut args, '|', '|');
    let ghost inner = tokens::trees(loader);
    put_async_block(&mut args, loader);
    assert(tokens::trees(args) =~= code::word(key.text()) + code::punct(',') + tokens::trees(*ctx)
        + code::punct(',') + code::operator('|', '|') + code::async_block(inner));
    let mut out = cache_call(cache, "get_or_load_with_ctx", &types, args);
    put_punct(&mut out, '?');
    out
}

/// Writes the match that makes an absent value of the error for a missing record.
pub fn absent(name: Name) -> (out: TokenStream)
    ensures
        tokens::trees(out) == Expr::Absent(name).tokens(),
{
    proof {
        lemma_words();
    }
    let mut arms = TokenStream::new();
    put_arm(
        &mut arms,
        wrapped("Ok", lone("__val")),
        wrapped("Ok", wrapped("Some", lone("__val"))),
    );
    let mut not_found = TokenStream::new();
    put_app_error(&mut not_found, "NotFound");
    put_group(&mut not_found, Delim::Paren, lone("_"));
    assert(tokens::trees(not_found) =~= code::app_error("NotFound"@) + code::group(
        Delim::Paren,
        code::word("_"@),
    ));
    put_arm(&mut arms, wrapped("Err", not_found), wrapped("Ok", lone("None")));
    put_arm(&mut arms, wrapped("Err", lone("e")), wrapped("Err", lone("e")));
    let mut out = TokenStream::new();
    put_word(&mut out, "match");
    put_name(&mut out, name);
    assert(tokens::trees(arms) =~= code::arm(
        code::wrapped("Ok"@, code::word("__val"@)),
        code::wrapped("Ok"@, code::wrapped("Some"@, code::word("__val"@))),
    ) + code::arm(
        code::wrapped(
            "Err"@,
            code::app_error("NotFound"@) + code::group(Delim::Paren, code::word("_"@)),
        ),
        code::wrapped("Ok"@, code::word("None"@)),
    ) + code::arm(
        code::wrapped("Err"@, code::word("e"@)),
        code::wrapped("Err"@, code::word("e"@)),
    ));
    put_group(&mut out, Delim::Brace, arms);
    out
}

/// Writes the conversion that makes the error for a missing record of an absent value.
pub fn missing(name: Name) -> (out: TokenStream)
    ensures
        tokens::trees(out) == Expr::Missing(name).tokens(),
{
    proof {
        lemma_words();
    }
    let mut text = TokenStream::new();
    tokens::push_string(&mut text, "记录不存在");
    assert(tokens::trees(text) =~= seq![
        tokens::Tok::Literal(tokens::string_literal(code::missing_text())),
    ]);
    let mut arg = TokenStream::new();
    put_operator(&mut arg, '|', '|');
    put_app_error(&mut arg, "not_found");
    put_group(&mut arg, Delim::Paren, text);
    assert(tokens::trees(arg) =~= code::operator('|', '|') + code::app_error("not_found"@)
        + code::group(
        Delim::Paren,
        seq![tokens::Tok::Literal(tokens::string_literal(code::missing_text()))],
    ));
    let mut out = TokenStream::new();
    put_name(&mut out, name);
    put_member(&mut out, "ok_or_else");
    put_group(&mut out, Delim::Paren, arg);
    out
}

/// Writes `let name = value;` at the end.
pub fn put_let(out: &mut TokenStream, name: Name, value: &TokenStream)
    ensures
        tokens::trees(*final(out)) == tokens::trees(*old(out)) + code::let_stmt(
            name.text(),
            tokens::trees(*value),
        ),
{
    proof {
        lemma_words();
    }
    put_word(out, "let");
    put_name(out, name);
    put_punct(out, '=');
    tokens::append(out, value);
    put_punct(out, ';');
}

/// Writes `let _ = value;` at the end.
pub fn put_discard(out: &mut TokenStream, value: &TokenStream)
    ensures
        tokens::trees(*final(out)) == tokens::trees(*old(out)) + code::let_stmt(
            "_"@,
            tokens::trees(*value),
        ),
{
    proof {
        lemma_words();
    }
    put_word(out, "let");
    put_word(out, "_");
    put_punct(out, '=');
    tokens::append(out, value);
    put_punct(out, ';');
}

/// Writes `if let Some(bound) = name { block }` at the end.
pub fn put_if_some(out: &mut TokenStream, bound: Name, name: Name, block: TokenStream)
    ensures
        tokens::trees(*final(out)) == tokens::trees(*old(out)) + code::if_some(
            bound,
            name,
            tokens::trees(block),
        ),
{
    proof {
        lemma_words();
    }
    put_word(out, "if");
    put_word(out, "let");
    put_word(out, "Some");
    put_group(out, Delim::Paren, var(bound));
    put_punct(out, '=');
    put_name(out, name);
    put_group(out, Delim::Brace, block);
}

/// Writes `if name.is_ok() { block }` at the end.
pub fn put_if_ok(out: &mut TokenStream, name: Name, block: TokenStream)
    ensures
        tokens::trees(*final(out)) == tokens::trees(*old(out)) + code::if_ok(
            name,
            tokens::trees(block),
        ),
{
    proof {
        lemma_words();
    }
    put_word(out, "if");
    put_name(out, name);
    put_member(out, "is_ok");
    put_group(out, Delim::Paren, TokenStream::new());
    put_group(out, Delim::Brace, block);
}

/// Writes `return value;` at the end.
pub fn put_return(out: &mut TokenStream, value: &TokenStream)
    ensures
        tokens::trees(*final(out)) == tokens::trees(*old(out)) + code::return_stmt(
            tokens::trees(*value),
        ),
{
    proof {
        lemma_words();
    }
    put_word(out, "return");
    tokens::append(out, value);
    put_punct(out, ';');
}

/// Writes `&param.context`.
pub fn context_of_param() -> (out: TokenStream)
    ensures
        tokens::trees(out) == code::context_of_param(),
{
    proof {
        lemma_words();
    }
    let mut out = TokenStream::new();
    put_punct(&mut out, '&');
    put_word(&mut out, "param");
    put_member(&mut out, "context");
    out
}

/// Writes `&ctx`.
pub fn context_itself() -> (out: TokenStream)
    ensures
        tokens::trees(out) == code::context_itself(),
{
    proof {
        lemma_words();
    }
    let mut out = TokenStream::new();
    put_punct(&mut out, '&');
    put_word(&mut out, "ctx");
    out
}

/// Writes `self.cache`.
pub fn self_cache() -> (out: TokenStream)
    ensures
        tokens::trees(out) == code::self_cache(),
{
    proof {
        lemma_words();
    }
    let mut out = TokenStream::new();
    put_word(&mut out, "self");
    put_member(&mut out, "cache");
    out
}

} // verus!
