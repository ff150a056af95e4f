//! Reading the arguments of the attributes.

use pecs_macro::args::{
    ArgsError, Attr, CacheEvictArgs, CacheableArgs, Entry, Key, Settings, read_settings,
};
use proc_macro2::{Delimiter, Group, Ident, Literal, Punct, Spacing, Span, TokenStream, TokenTree};

fn toks(text: &str) -> TokenStream {
    text.parse().unwrap()
}

/// The first message that an error tells the user.
fn said(error: ArgsError) -> String {
    for tree in error.report(Span::call_site()) {
        if let TokenTree::Group(group) = tree {
            return syn::parse2::<syn::LitStr>(group.stream()).unwrap().value();
        }
    }
    panic!("no message")
}

fn evict(text: &str) -> CacheEvictArgs {
    match CacheEvictArgs::parse(toks(text)) {
        Ok(args) => args,
        Err(error) => panic!("{}", said(error)),
    }
}

fn cached(text: &str) -> CacheableArgs {
    match CacheableArgs::parse(toks(text)) {
        Ok(args) => args,
        Err(error) => panic!("{}", said(error)),
    }
}

fn evict_error(text: &str) -> ArgsError {
    match CacheEvictArgs::parse(toks(text)) {
        Ok(_) => panic!("refused: {}", text),
        Err(error) => error,
    }
}

fn cached_error(text: &str) -> ArgsError {
    match CacheableArgs::parse(toks(text)) {
        Ok(_) => panic!("refused: {}", text),
        Err(error) => error,
    }
}

fn text(stream: &TokenStream) -> String {
    stream.to_string()
}

fn opt_text(stream: &Option<TokenStream>) -> Option<String> {
    stream.as_ref().map(text)
}

/// Everything that the arguments hold, as text.
fn shown(args: &CacheEvictArgs) -> String {
    format!(
        "{} {:?} {} {} {:?} {:?}",
        text(&args.target),
        opt_text(&args.id),
        args.page,
        args.all,
        opt_text(&args.ctx),
        opt_text(&args.cache),
    )
}

#[test]
fn target_and_page() {
    let args = evict("UserBo, page");
    assert_eq!(text(&args.target), "UserBo");
    assert!(args.page && !args.all);
    assert!(args.id.is_none() && args.ctx.is_none() && args.cache.is_none());
}

#[test]
fn target_id_and_all() {
    let args = evict("UserBo, id = param.payload.id, all = true");
    assert_eq!(opt_text(&args.id), Some(text(&toks("param.payload.id"))));
    assert!(!args.page && args.all);
}

#[test]
fn every_key() {
    let args = evict(
        "target = UserBo, id = param.payload.id, all, ctx = &param.context, cache = self.cache",
    );
    assert_eq!(text(&args.target), "UserBo");
    assert_eq!(opt_text(&args.id), Some(text(&toks("param.payload.id"))));
    assert_eq!(opt_text(&args.ctx), Some(text(&toks("&param.context"))));
    assert_eq!(opt_text(&args.cache), Some(text(&toks("self.cache"))));
    assert!(args.all && !args.page);
    let args = cached("target = UserBo, id = 7, ctx = &c, cache = self.cache");
    assert_eq!(text(&args.target), "UserBo");
    assert_eq!(text(&args.id), "7");
    assert_eq!(opt_text(&args.ctx), Some(text(&toks("&c"))));
    assert_eq!(opt_text(&args.cache), Some(text(&toks("self.cache"))));
}

#[test]
fn switch_alone_is_on() {
    assert_eq!(shown(&evict("T, page")), shown(&evict("T, page = true")));
    assert_eq!(shown(&evict("T, all, id = 1")), shown(&evict("T, all = true, id = 1")));
    assert!(!evict("T, page = false").page);
    assert!(!evict("T, all, all = false").all);
}

#[test]
fn switch_in_a_list() {
    let without = shown(&evict("T, id = a + 1, ctx = &c, cache = f(x, y)"));
    for key in ["page", "all"] {
        // The places after the first argument, after the second one and so on.
        for list in [
            "T, K, id = a + 1, ctx = &c, cache = f(x, y)",
            "T, id = a + 1, K, ctx = &c, cache = f(x, y)",
            "T, id = a + 1, ctx = &c, K, cache = f(x, y)",
            "T, id = a + 1, ctx = &c, cache = f(x, y), K",
            "T K id = a + 1, ctx = &c, cache = f(x, y),",
        ] {
            let with = |switch: String| evict(&list.replace("K", &switch));
            assert_eq!(shown(&with(format!("{} = false", key))), without);
            let on = with(format!("{} = true", key));
            let mut alone = with(key.to_string());
            assert_eq!(shown(&alone), shown(&on));
            assert_eq!((alone.page, alone.all), (key == "page", key == "all"));
            alone.page = false;
            alone.all = false;
            assert_eq!(shown(&alone), without);
        }
    }
    // Without a comma before it, a word may belong to the value that it follows.
    let args = evict("T, id = return page");
    assert_eq!(opt_text(&args.id), Some("return page".to_string()));
    assert!(!args.page);
}

#[test]
fn switch_in_a_list_that_is_refused() {
    for list in ["T, K, ttl = 3", "T, id = 1, K, ctx"] {
        for switch in ["page", "page = true", "page = false"] {
            assert_eq!(
                said(evict_error(&list.replace("K", switch))),
                said(evict_error(&list.replace("K, ", ""))),
            );
        }
    }
}

#[test]
fn bare_target_is_a_target() {
    assert_eq!(shown(&evict("a::B<C>, page")), shown(&evict("target = a::B<C>, page")));
    assert_eq!(text(&cached("T, id = 1").target), text(&cached("target = T, id = 1").target));
    // A switch or a key in the first place is taken for a target.
    assert_eq!(text(&evict("page").target), "page");
    assert!(!evict("page").page);
}

#[test]
fn last_argument_counts() {
    let args = evict("A, id = 1, target = B, id = 2, page, page = false");
    assert_eq!(shown(&args), shown(&evict("B, id = 2")));
    // An earlier argument may be left out.
    assert_eq!(
        shown(&evict("T, ctx = a, page, ctx = b, cache = c")),
        shown(&evict("T, page, ctx = b, cache = c")),
    );
    assert_eq!(
        text(&cached("A, id = 1, cache = c, target = B, id = 2").id),
        text(&cached("cache = c, target = B, id = 2").id),
    );
}

#[test]
fn commas_may_be_left_out_or_stand_at_the_end() {
    assert_eq!(shown(&evict("T page all")), shown(&evict("T, page, all,")));
    assert_eq!(shown(&evict("T, id = 1,")), shown(&evict("T, id = 1")));
}

#[test]
fn later_key_without_target() {
    assert!(matches!(evict_error("id = 1"), ArgsError::NoTarget(Attr::Evict)));
    assert!(matches!(evict_error(""), ArgsError::NoTarget(Attr::Evict)));
    assert_eq!(
        said(evict_error("id = 1")),
        "必须指定 target 类型，例如 `UserBo` 或 `target = UserBo`",
    );
    assert!(matches!(cached_error("id = 1"), ArgsError::NoTarget(Attr::Cacheable)));
    assert_eq!(
        said(cached_error("")),
        "必须指定 target 类型，例如 `UserBo`",
    );
}

#[test]
fn cacheable_needs_an_id() {
    assert!(matches!(cached_error("UserBo"), ArgsError::NoId));
    assert_eq!(
        said(cached_error("UserBo, ctx = &c")),
        "必须指定 id 表达式，例如 `id = param.payload.id`",
    );
}

#[test]
fn unknown_key() {
    match evict_error("UserBo, ttl = 3") {
        ArgsError::UnknownKey(Attr::Evict, key, _) => assert_eq!(key, "ttl"),
        error => panic!("{}", said(error)),
    }
    assert_eq!(
        said(evict_error("ttl = 3")),
        "未知参数 `ttl`，支持 target, id, page, all, ctx, cache",
    );
    // The switches of `cache_evict` are no keys of `cacheable`.
    for key in ["page", "all"] {
        match cached_error(&format!("UserBo, {} = true", key)) {
            ArgsError::UnknownKey(Attr::Cacheable, found, _) => assert_eq!(found, key),
            error => panic!("{}", said(error)),
        }
    }
    assert_eq!(
        said(cached_error("UserBo, ttl = 3")),
        "未知参数 `ttl`，支持 target, id, ctx, cache",
    );
}

#[test]
fn key_that_needs_a_value() {
    for key in ["target", "id", "ctx", "cache", "ttl"] {
        match evict_error(&format!("UserBo, {}", key)) {
            ArgsError::NeedsValue(found, _) => assert_eq!(found, key),
            error => panic!("{}", said(error)),
        }
    }
    assert_eq!(
        said(evict_error("UserBo, id")),
        "参数 `id` 需赋值，如 `id = ...`",
    );
}

#[test]
fn syntax_errors() {
    let message = |error: ArgsError| match error {
        ArgsError::Syntax(error) => error.to_string(),
        _ => panic!("an error of syntax"),
    };
    assert_eq!(message(cached_error("UserBo, id")), "expected `=`");
    assert_eq!(message(cached_error("UserBo, id, ctx = 1")), "expected `=`");
    assert_eq!(message(evict_error("UserBo, page = 1")), "expected boolean literal");
    assert_eq!(message(evict_error("UserBo, page = -1")), "expected boolean literal");
    assert_eq!(
        message(evict_error("UserBo, page =")),
        "unexpected end of input, expected boolean literal",
    );
    assert_eq!(message(evict_error("UserBo, 3")), "expected identifier");
    assert_eq!(
        message(evict_error("UserBo, type = 3")),
        "expected identifier, found keyword `type`",
    );
    assert_eq!(message(evict_error("\"UserBo\"")), "expected identifier");
    assert_eq!(message(evict_error("'a = 3")), "expected identifier");
    assert!(matches!(evict_error("UserBo, id ="), ArgsError::Syntax(_)));
    assert!(matches!(evict_error("target = 3"), ArgsError::Syntax(_)));
    assert!(matches!(evict_error("UserBo,, page"), ArgsError::Syntax(_)));
}

#[test]
fn equality_sign_is_seen_in_a_longer_operator() {
    // `==` starts with `=`, so this is a key and not a bare target.
    assert!(matches!(evict_error("UserBo == 3"), ArgsError::UnknownKey(_, _, _)));
    assert!(matches!(evict_error("id == 3"), ArgsError::Syntax(_)));
}

#[test]
fn group_that_is_not_read_to_its_end_is_told_of_last() {
    assert_eq!(
        said(evict_error("UserBo, id = a[1 2]")),
        "unexpected token, expected `]`",
    );
    assert!(matches!(evict_error("UserBo, id = a[1 2], ttl = 3"), ArgsError::UnknownKey(_, _, _)));
    assert!(matches!(evict_error("id = a[1 2]"), ArgsError::NoTarget(_)));
    assert!(matches!(cached_error("T, ctx = a[1 2]"), ArgsError::NoId));
    match read_settings(Attr::Cacheable, toks("T, id = a[1 2], ctx = f(b[3; 4])")) {
        Ok((settings, stray)) => {
            assert!(settings.target.is_some() && settings.id.is_some() && settings.ctx.is_some());
            assert!(stray.is_some());
        }
        Err(error) => panic!("{}", said(error)),
    }
}

#[test]
fn bare_groups_are_looked_through() {
    let bare = |inner: TokenStream| {
        let mut out = TokenStream::new();
        out.extend([TokenTree::Group(Group::new(Delimiter::None, inner))]);
        out
    };
    let mut args = bare(toks("UserBo"));
    args.extend(toks(", "));
    args.extend(bare(toks("page =")));
    args.extend(bare(bare(toks("true, id"))));
    args.extend(bare(TokenStream::new()));
    args.extend(toks("="));
    args.extend(bare(toks("1 + 2")));
    match CacheEvictArgs::parse(args) {
        Ok(args) => {
            assert!(args.page);
            assert_eq!(text(&args.target), "UserBo");
            let id: Vec<TokenTree> = args.id.unwrap().into_iter().collect();
            assert!(matches!(&id[..], [TokenTree::Group(g)] if g.delimiter() == Delimiter::None));
        }
        Err(error) => panic!("{}", said(error)),
    }
}

#[test]
fn tokens_made_by_hand() {
    let mut args = TokenStream::new();
    args.extend([
        TokenTree::Ident(Ident::new("target", Span::call_site())),
        TokenTree::Punct(Punct::new('=', Spacing::Alone)),
        TokenTree::Ident(Ident::new("UserBo", Span::call_site())),
        TokenTree::Punct(Punct::new(',', Spacing::Alone)),
        TokenTree::Ident(Ident::new("id", Span::call_site())),
        TokenTree::Punct(Punct::new('=', Spacing::Joint)),
        TokenTree::Literal(Literal::string("x")),
    ]);
    match CacheableArgs::parse(args) {
        Ok(args) => assert_eq!(text(&args.id), "\"x\""),
        Err(error) => panic!("{}", said(error)),
    }
}

#[test]
fn keys_of_the_attributes() {
    let find = |attr: Attr, word: &str| Key::find(attr, &word.to_string());
    assert_eq!(find(Attr::Evict, "target"), Some(Key::Target));
    assert_eq!(find(Attr::Evict, "id"), Some(Key::Id));
    assert_eq!(find(Attr::Evict, "page"), Some(Key::Page));
    assert_eq!(find(Attr::Evict, "all"), Some(Key::All));
    assert_eq!(find(Attr::Evict, "ctx"), Some(Key::Ctx));
    assert_eq!(find(Attr::Evict, "cache"), Some(Key::Cache));
    assert_eq!(find(Attr::Evict, "Id"), None);
    assert_eq!(find(Attr::Cacheable, "cache"), Some(Key::Cache));
    assert_eq!(find(Attr::Cacheable, "page"), None);
    assert_eq!(find(Attr::Cacheable, "all"), None);
}

#[test]
fn settings_one_by_one() {
    let mut settings = Settings::new();
    settings.set(Entry::Page(true));
    settings.set(Entry::Target(toks("A")));
    settings.set(Entry::Page(false));
    settings.set(Entry::Id(toks("1")));
    settings.set(Entry::Target(toks("B")));
    assert_eq!(settings.page, Some(false));
    assert_eq!(settings.all, None);
    match CacheEvictArgs::from_settings(settings) {
        Ok(args) => assert_eq!(shown(&args), shown(&evict("B, id = 1"))),
        Err(error) => panic!("{}", said(error)),
    }
    let mut settings = Settings::new();
    settings.set(Entry::Id(toks("1")));
    settings.set(Entry::All(true));
    settings.set(Entry::Ctx(toks("c")));
    settings.set(Entry::Cache(toks("d")));
    assert!(matches!(
        CacheableArgs::from_settings(settings),
        Err(ArgsError::NoTarget(Attr::Cacheable))
    ));
}

/// The column at which a place starts.
fn column(span: Span) -> usize {
    span.start().column
}

/// A place that is none of the tests' tokens.
fn elsewhere() -> Span {
    let far: Vec<TokenTree> = toks("                              x").into_iter().collect();
    far[0].span()
}

/// The columns of all tokens of a stream, a group before what is in it.
fn columns(stream: TokenStream) -> Vec<usize> {
    let mut out = Vec::new();
    for tree in stream {
        out.push(column(tree.span()));
        if let TokenTree::Group(group) = tree {
            out.extend(columns(group.stream()));
        }
    }
    out
}

#[test]
fn refused_key_is_told_of_at_its_place() {
    for (error, place) in [
        (evict_error("UserBo, id = a + 1, ttl = 3, page"), 20),
        (evict_error("ttl = 3"), 0),
        (evict_error("UserBo, page = true, ctx, cache = c"), 21),
        (evict_error("UserBo all x::<Y>() ="), 11),
        (cached_error("UserBo, id = f(a, b), page = true"), 22),
    ] {
        match &error {
            ArgsError::UnknownKey(_, _, span) | ArgsError::NeedsValue(_, span) => {
                assert_eq!(column(*span), place);
            }
            _ => panic!("a key is refused"),
        }
        assert_eq!(columns(error.report(elsewhere())), vec![place; 9]);
    }
}

#[test]
fn refused_key_in_a_bare_group() {
    let mut args = toks("UserBo,");
    let inner = toks("        page = true, ttl = 3");
    args.extend([TokenTree::Group(Group::new(Delimiter::None, inner))]);
    args.extend(toks(", all"));
    match CacheEvictArgs::parse(args) {
        Err(ArgsError::UnknownKey(_, key, span)) => {
            assert_eq!(key, "ttl");
            assert_eq!(column(span), 21);
        }
        _ => panic!("a key is refused"),
    }
}

#[test]
fn what_is_missing_is_told_of_at_the_attribute() {
    for error in [evict_error("id = 1"), cached_error("id = 1"), cached_error("UserBo")] {
        assert_eq!(columns(error.report(elsewhere())), vec![30; 9]);
    }
}

#[test]
fn order_does_not_count() {
    let first = shown(&evict("target = T, id = 1, all, ctx = c, cache = d, page = false"));
    for list in [
        "page = false, cache = d, ctx = c, all = true, id = 1, target = T",
        "id = 1, target = T, all, page = false, cache = d, ctx = c",
    ] {
        assert_eq!(shown(&evict(list)), first);
    }
    let a = cached("target = T, id = 1, ctx = c, cache = d");
    let b = cached("cache = d, id = 1, ctx = c, target = T");
    assert_eq!((text(&a.target), text(&a.id)), (text(&b.target), text(&b.id)));
    assert_eq!((opt_text(&a.ctx), opt_text(&a.cache)), (opt_text(&b.ctx), opt_text(&b.cache)));
}
