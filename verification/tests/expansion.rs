//! What the attributes make of functions.

use pecs_macro::args::{ArgsError, CacheEvictArgs, CacheableArgs};
use pecs_macro::code::{Name, Scope};
use pecs_macro::emit;
use pecs_macro::expand::{
    cache_evict_at, cacheable_at, deduce_cache, deduce_ctx, read_function, replace_body, replace_statements, write_cacheable_body,
    write_evict_body, write_evictions,
};
use pecs_macro::{cache_evict, cacheable};
use proc_macro2::{Span, TokenStream, TokenTree};

fn toks(text: &str) -> TokenStream {
    text.parse().unwrap()
}

/// The tokens of a stream as texts, with the delimiters of groups.
fn flat(stream: TokenStream) -> Vec<String> {
    let mut out = Vec::new();
    for tree in stream {
        match tree {
            TokenTree::Group(group) => {
                out.push(format!("{:?}<", group.delimiter()));
                out.extend(flat(group.stream()));
                out.push(format!("{:?}>", group.delimiter()));
            }
            other => out.push(other.to_string()),
        }
    }
    out
}

fn assert_same(found: TokenStream, expected: &str) {
    assert_eq!(flat(found), flat(toks(expected)));
}

fn evict(args: &str, item: &str) -> TokenStream {
    match cache_evict(toks(args), toks(item)) {
        Ok(out) => out,
        Err(error) => panic!("{}", error.cause),
    }
}

fn cached(args: &str, item: &str) -> TokenStream {
    match cacheable(toks(args), toks(item)) {
        Ok(out) => out,
        Err(error) => panic!("{}", error.cause),
    }
}

/// The first message that an error tells the user.
fn said(error: ArgsError) -> String {
    for tree in error.report(Span::call_site()) {
        if let TokenTree::Group(group) = tree {
            return syn::parse2::<syn::LitStr>(group.stream()).unwrap().value();
        }
    }
    panic!("no message")
}

fn evict_args(text: &str) -> CacheEvictArgs {
    match CacheEvictArgs::parse(toks(text)) {
        Ok(args) => args,
        Err(error) => panic!("{}", said(error)),
    }
}

fn cacheable_args(text: &str) -> CacheableArgs {
    match CacheableArgs::parse(toks(text)) {
        Ok(args) => args,
        Err(error) => panic!("{}", said(error)),
    }
}

const SAVE: &str = "pub async fn save(&self, param: &Req) -> Res<()> { self.db.save(param).await?; Ok(()) }";

#[test]
fn evict_all_with_id() {
    assert_same(
        evict("UserBo, id = param.payload.id, all = true", SAVE),
        "pub async fn save(&self, param: &Req) -> Res<()> {
            let __res = async move { self.db.save(param).await?; Ok(()) }.await;
            if __res.is_ok() {
                let __id_opt =
                    crate::common::cache::ToCacheIdOpt::to_cache_id_opt(&(param.payload.id));
                let _ = self.cache.evict_all_smart::<UserBo>(__id_opt, &param.context).await;
            }
            __res
        }",
    );
}

#[test]
fn evict_all_without_id_is_page() {
    let expected = "pub async fn save(&self, param: &Req) -> Res<()> {
            let __res = async move { self.db.save(param).await?; Ok(()) }.await;
            if __res.is_ok() {
                let _ = self.cache.evict_page::<UserBo>(&param.context).await;
            }
            __res
        }";
    assert_same(evict("UserBo, all", SAVE), expected);
    assert_same(evict("UserBo, page", SAVE), expected);
    assert_same(evict("UserBo, page, all", SAVE), expected);
}

#[test]
fn evict_page_does_not_look_at_id() {
    assert_eq!(
        flat(evict("UserBo, id = param.id, page", SAVE)),
        flat(evict("UserBo, page", SAVE)),
    );
}

#[test]
fn evict_all_covers_page() {
    assert_eq!(
        flat(evict("UserBo, id = param.id, page, all", SAVE)),
        flat(evict("UserBo, id = param.id, all", SAVE)),
    );
}

#[test]
fn evict_one_record() {
    assert_same(
        evict("UserBo, id = param.id", SAVE),
        "pub async fn save(&self, param: &Req) -> Res<()> {
            let __res = async move { self.db.save(param).await?; Ok(()) }.await;
            if __res.is_ok() {
                let __id_opt = crate::common::cache::ToCacheIdOpt::to_cache_id_opt(&(param.id));
                if let Some(__id_str) = __id_opt {
                    let _ = self.cache.evict_with_ctx::<UserBo>(__id_str, &param.context).await;
                }
            }
            __res
        }",
    );
}

#[test]
fn evict_nothing() {
    assert_same(
        evict("UserBo", SAVE),
        "pub async fn save(&self, param: &Req) -> Res<()> {
            let __res = async move { self.db.save(param).await?; Ok(()) }.await;
            if __res.is_ok() { }
            __res
        }",
    );
}

#[test]
fn evict_with_everything_given() {
    assert_same(
        evict(
            "target = model::Page<UserBo>, id = a + 1, all, ctx = &c, cache = CACHE.get()",
            "async fn f() -> R { done() }",
        ),
        "async fn f() -> R {
            let __res = async move { done() }.await;
            if __res.is_ok() {
                let __id_opt = crate::common::cache::ToCacheIdOpt::to_cache_id_opt(&(a + 1));
                let _ = CACHE.get().evict_all_smart::<model::Page<UserBo> >(__id_opt, &c).await;
            }
            __res
        }",
    );
}

#[test]
fn cacheable_asks_the_cache_first() {
    assert_same(
        cached(
            "UserBo, id = param.payload.id",
            "pub async fn get(&self, param: &ServiceRequest<UserBo>) -> AppResult<UserBo> {
                let entity = self.user_repo.get(param).await?;
                Ok(entity.into())
            }",
        ),
        "pub async fn get(&self, param: &ServiceRequest<UserBo>) -> AppResult<UserBo> {
            let __id_opt =
                crate::common::cache::ToCacheIdOpt::to_cache_id_opt(&(param.payload.id));
            if let Some(__id) = __id_opt {
                let __cache_res = self.cache.get_or_load_with_ctx::<UserBo, _, _>(
                    __id, &param.context, || async move {
                        let __inner_res = async move {
                            let entity = self.user_repo.get(param).await?;
                            Ok(entity.into())
                        }.await;
                        match __inner_res {
                            Ok(__val) => Ok(Some(__val)),
                            Err(crate::common::error::AppError::NotFound(_)) => Ok(None),
                            Err(e) => Err(e),
                        }
                    }
                ).await?;
                return __cache_res
                    .ok_or_else(|| crate::common::error::AppError::not_found(\"记录不存在\"));
            }
            async move {
                let entity = self.user_repo.get(param).await?;
                Ok(entity.into())
            }.await
        }",
    );
}

#[test]
fn cacheable_with_everything_given() {
    let out = cached(
        "target = UserBo, id = id, ctx = &c, cache = cache",
        "async fn load(id: u64) -> R { find(id) }",
    );
    let text = flat(out).join(" ");
    assert!(text.contains(
        "let __cache_res = cache . get_or_load_with_ctx : : < UserBo , _ , _ > Parenthesis< __id , & c , | | async move"
    ));
}

#[test]
fn attributes_visibility_and_signature_stay() {
    assert_same(
        evict(
            "T, page",
            "#[inline] #[doc = \"saves\"] pub(crate) async unsafe fn f<'a, X: Tr>(&'a self, ctx: &C) -> R<X>
                where X: Copy { #![allow(unused)] #![deny(warnings)] work() }",
        ),
        "#[inline] #[doc = \"saves\"] pub(crate) async unsafe fn f<'a, X: Tr>(&'a self, ctx: &C) -> R<X>
            where X: Copy {
            #![allow(unused)] #![deny(warnings)]
            let __res = async move { work() }.await;
            if __res.is_ok() {
                let _ = self.cache.evict_page::<T>(&ctx).await;
            }
            __res
        }",
    );
}

#[test]
fn default_method() {
    assert_same(
        evict("T", "default async fn f() -> R { }"),
        "default async fn f() -> R {
            let __res = async move { }.await;
            if __res.is_ok() { }
            __res
        }",
    );
}

#[test]
fn item_that_is_no_function() {
    assert_same(
        evict("UserBo, page", "struct S;"),
        "::core::compile_error! { \"#[cache_evict] 仅支持修饰 async 函数或方法\" }",
    );
    assert_same(
        cached("UserBo, id = 1", "fn f();"),
        "::core::compile_error! { \"#[cacheable] 仅支持修饰 async 函数或方法\" }",
    );
}

#[test]
fn refused_arguments_come_before_the_item() {
    for item in [SAVE, "struct S;"] {
        assert_same(
            evict("", item),
            "::core::compile_error! {
                \"必须指定 target 类型，例如 `UserBo` 或 `target = UserBo`\"
            }",
        );
        assert_same(
            cached("UserBo", item),
            "::core::compile_error! { \"必须指定 id 表达式，例如 `id = param.payload.id`\" }",
        );
    }
}

#[test]
fn raw_identifier_is_told_whole() {
    let out = evict("UserBo, r#type = 1", SAVE);
    assert_same(
        out,
        "::core::compile_error! {
            \"未知参数 `r#type`，支持 target, id, page, all, ctx, cache\"
        }",
    );
}

#[test]
fn body_that_is_no_block() {
    match cache_evict(toks("UserBo, page, cache = 1.."), toks(SAVE)) {
        Ok(_) => panic!("the new body cannot be read"),
        Err(error) => assert_eq!(error.cause.to_string(), "expected `;`"),
    }
    assert!(cacheable(toks("UserBo, id = 1, cache = 1.."), toks(SAVE)).is_err());
    // Without a call on the cache manager the same argument does no harm.
    assert!(cache_evict(toks("UserBo, cache = 1.."), toks(SAVE)).is_ok());
}

#[test]
fn context_of_a_call() {
    let some = |name: &str| Some(name.to_string());
    let given = deduce_ctx(&vec![some("ctx")], Some(toks("&request.ctx")));
    assert_same(given, "&request.ctx");
    assert_same(deduce_ctx(&vec![None, some("a"), some("param")], None), "&param.context");
    assert_same(deduce_ctx(&vec![None, some("ctx"), some("param")], None), "&ctx");
    assert_same(deduce_ctx(&vec![some("param"), some("ctx")], None), "&param.context");
    assert_same(deduce_ctx(&vec![some("context")], None), "&param.context");
    assert_same(deduce_ctx(&vec![], None), "&param.context");
}

#[test]
fn cache_manager_of_a_call() {
    assert_same(deduce_cache(None), "self.cache");
    assert_same(deduce_cache(Some(toks("CACHE.get()"))), "CACHE.get()");
}

#[test]
fn parameters_that_are_plain_names() {
    let f = read_function(&toks(
        "async fn f(&mut self, (a, b): (u8, u8), mut ctx: C, ref param: P, _: u8) {}",
    ));
    match f {
        Some(f) => assert_eq!(
            f.params,
            vec![None, None, Some("ctx".to_string()), Some("param".to_string()), None],
        ),
        None => panic!("a method"),
    }
    assert!(read_function(&toks("enum E {}")).is_none());
    assert!(read_function(&toks("fn f() {} fn g() {}")).is_none());
}

#[test]
fn parts_of_a_function() {
    let f = match read_function(&toks("#[a] fn f(x: u8) -> u8 { #![b] let y = x; y }")) {
        Some(f) => f,
        None => panic!("a function"),
    };
    assert_same(f.shell.clone(), "#[a] fn f(x: u8) -> u8 { #![b] }");
    assert_same(f.stmts.clone(), "let y = x; y");
    assert_same(
        replace_statements(&f, &toks("z")),
        "#[a] fn f(x: u8) -> u8 { #![b] z }",
    );
    match replace_body(&f, toks("let z = 1; z")) {
        Ok(out) => assert_same(out, "#[a] fn f(x: u8) -> u8 { #![b] let z = 1; z }"),
        Err(error) => panic!("{}", error.cause),
    }
    assert!(replace_body(&f, toks("let z")).is_err());
}

#[test]
fn bodies_are_written_as_they_are() {
    let f = match read_function(&toks("async fn f(ctx: C) -> R { a; b() }")) {
        Some(f) => f,
        None => panic!("a function"),
    };
    assert_same(
        write_evict_body(evict_args("T, id = i"), &f),
        "let __res = async move { a; b() }.await;
        if __res.is_ok() {
            let __id_opt = crate::common::cache::ToCacheIdOpt::to_cache_id_opt(&(i));
            if let Some(__id_str) = __id_opt {
                let _ = self.cache.evict_with_ctx::<T>(__id_str, &ctx).await;
            }
        }
        __res",
    );
    assert_same(
        write_evictions(&evict_args("T, id = i, all"), &toks("c"), &toks("x")),
        "let __id_opt = crate::common::cache::ToCacheIdOpt::to_cache_id_opt(&(i));
        let _ = c.evict_all_smart::<T>(__id_opt, x).await;",
    );
    let body = flat(write_cacheable_body(cacheable_args("T, id = i"), &f)).join(" ");
    assert!(body.starts_with("let __id_opt = crate : : common : : cache : : ToCacheIdOpt"));
    assert!(body.ends_with("async move Brace< a ; b Parenthesis< Parenthesis> Brace> . await"));
}

#[test]
fn single_pieces_of_code() {
    assert_same(emit::var(Name::Res), "__res");
    assert_same(emit::run(&toks("a; b")), "async move { a; b }.await");
    assert_same(
        emit::evict(&toks("self.cache"), &toks("T"), &toks("&ctx"), Scope::One(Name::IdStr)),
        "self.cache.evict_with_ctx::<T>(__id_str, &ctx).await",
    );
    assert_same(
        emit::absent(Name::InnerRes),
        "match __inner_res {
            Ok(__val) => Ok(Some(__val)),
            Err(crate::common::error::AppError::NotFound(_)) => Ok(None),
            Err(e) => Err(e),
        }",
    );
}

#[test]
fn methods_and_functions_alike() {
    // Only a method can be marked `default`.
    let body = "async fn f(ctx: C) -> R { work() }";
    let method = flat(evict("T, page", &format!("default {}", body)));
    let function = flat(evict("T, page", body));
    assert_eq!(method[0], "default");
    assert_eq!(&method[1..], &function[..]);
}

/// The first token's place, as a column.
fn first_column(stream: TokenStream) -> usize {
    let trees: Vec<TokenTree> = stream.into_iter().collect();
    trees[0].span().start().column
}

#[test]
fn errors_stand_at_their_places() {
    let far: Vec<TokenTree> = toks("                    x").into_iter().collect();
    let site = far[0].span();
    let at = |evict: bool, args: &str, item: &str| {
        let expanded = if evict {
            cache_evict_at(toks(args), toks(item), site)
        } else {
            cacheable_at(toks(args), toks(item), site)
        };
        first_column(expanded.ok().unwrap())
    };
    // The attribute.
    assert_eq!(at(true, "", SAVE), 20);
    assert_eq!(at(false, "UserBo", SAVE), 20);
    assert_eq!(at(true, "UserBo", "struct S;"), 20);
    assert_eq!(at(false, "UserBo, id = 1", "struct S;"), 20);
    // The key that is refused.
    assert_eq!(at(true, "UserBo, id", SAVE), 8);
    assert_eq!(at(false, "UserBo, id = 1, ttl = 3", SAVE), 16);
    assert_eq!(first_column(evict("UserBo, ttl = 3", SAVE)), 8);
    assert_eq!(first_column(cached("UserBo, id = 1, ttl = 3", SAVE)), 16);
    assert_eq!(first_column(evict("id = 1", SAVE)), Span::call_site().start().column);
}
