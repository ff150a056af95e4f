//! What is read of arguments, told from the tokens that the user wrote.

use crate::args;
use crate::args::{
    ArgsError, Attr, CacheEvictArgs, CacheEvictArgsView, CacheableArgs, CacheableArgsView, Entry,
    EntryView, Fault, Key, Read, ReadView, Settings, SettingsView,
};
use crate::expand::BodyError;
use crate::syntax;
use crate::syntax::{Function, Piece, PieceView};
use crate::tokens;
use crate::tokens::Tok;
use proc_macro2::{Span, TokenStream};
use vstd::prelude::*;

verus! {

/// A stream, a text or an error that may be there holds what it holds.
pub proof fn law_optional_views(stream: TokenStream, text: String, error: syn::Error)
    ensures
        tokens::opt_trees(Some(stream)) == Some(tokens::trees(stream)),
        tokens::opt_trees(None) is None,
        syntax::opt_chars(Some(text)) == Some(text@),
        syntax::opt_chars(None) is None,
        syntax::opt_messages(Some(error)) == Some(syntax::messages(error)),
        syntax::opt_messages(None) is None,
{
}

/// Arguments, settings, functions and errors hold what their fields hold, each field under its own
/// name.
pub proof fn law_views(
    evict: CacheEvictArgs,
    cacheable: CacheableArgs,
    settings: Settings,
    read: Read,
    piece: Piece,
    f: Function,
    i: int,
    body: BodyError,
)
    ensures
        tokens::trees(evict.target) == evict@.target,
        tokens::opt_trees(evict.id) == evict@.id,
        evict.page == evict@.page,
        evict.all == evict@.all,
        tokens::opt_trees(evict.ctx) == evict@.ctx,
        tokens::opt_trees(evict.cache) == evict@.cache,
        tokens::trees(cacheable.target) == cacheable@.target,
        tokens::trees(cacheable.id) == cacheable@.id,
        tokens::opt_trees(cacheable.ctx) == cacheable@.ctx,
        tokens::opt_trees(cacheable.cache) == cacheable@.cache,
        tokens::opt_trees(settings.target) == settings@.target,
        tokens::opt_trees(settings.id) == settings@.id,
        settings.page == settings@.page,
        settings.all == settings@.all,
        tokens::opt_trees(settings.ctx) == settings@.ctx,
        tokens::opt_trees(settings.cache) == settings@.cache,
        read.entry@ == read@.entry,
        tokens::trees(read.rest) == read@.rest,
        syntax::opt_messages(read.stray) == read@.stray,
        tokens::trees(piece.tokens) == piece@.tokens,
        tokens::trees(piece.rest) == piece@.rest,
        syntax::opt_messages(piece.stray) == piece@.stray,
        tokens::trees(f.shell) == f@.shell,
        tokens::trees(f.stmts) == f@.stmts,
        f.params@.len() == f@.params.len(),
        0 <= i < f.params@.len() ==> syntax::opt_chars(f.params@[i]) == f@.params[i],
        syntax::messages(body.cause) == body@,
{
}

/// An argument holds the tokens or the boolean that it was made of, under the same key.
pub proof fn law_entry_views(stream: TokenStream, on: bool)
    ensures
        Entry::Target(stream)@ == EntryView::Target(tokens::trees(stream)),
        Entry::Id(stream)@ == EntryView::Id(tokens::trees(stream)),
        Entry::Page(on)@ == EntryView::Page(on),
        Entry::All(on)@ == EntryView::All(on),
        Entry::Ctx(stream)@ == EntryView::Ctx(tokens::trees(stream)),
        Entry::Cache(stream)@ == EntryView::Cache(tokens::trees(stream)),
{
}

/// What an error tells, and where: an unknown key and one without a value at the key, something
/// that is missing at the attribute.
pub proof fn law_errors(attr: Attr, key: String, error: syn::Error, span: Span, site: Span)
    ensures
        ArgsError::Syntax(error)@ == Fault::Syntax(syntax::messages(error)),
        ArgsError::UnknownKey(attr, key, span)@ == Fault::UnknownKey(attr, key@),
        ArgsError::NeedsValue(key, span)@ == Fault::NeedsValue(key@),
        ArgsError::NoTarget(attr)@ == Fault::NoTarget(attr),
        ArgsError::NoId@ == Fault::NoId,
        ArgsError::UnknownKey(attr, key, span).place(site) == Some(span),
        ArgsError::NeedsValue(key, span).place(site) == Some(span),
        ArgsError::NoTarget(attr).place(site) == Some(site),
        ArgsError::NoId.place(site) == Some(site),
        ArgsError::UnknownKey(attr, key, span).key_place() == Some(span),
        ArgsError::NeedsValue(key, span).key_place() == Some(span),
        ArgsError::Syntax(error).key_place() is None,
        ArgsError::NoTarget(attr).key_place() is None,
        ArgsError::NoId.key_place() is None,
{
}

/// The words in which the user is told.
pub proof fn law_fault_messages(texts: Seq<Seq<char>>, key: Seq<char>)
    ensures
        Fault::Syntax(texts).messages() == texts,
        Fault::UnknownKey(Attr::Evict, key).messages() == seq![
            "未知参数 `"@ + key + "`，支持 target, id, page, all, ctx, cache"@,
        ],
        Fault::UnknownKey(Attr::Cacheable, key).messages() == seq![
            "未知参数 `"@ + key + "`，支持 target, id, ctx, cache"@,
        ],
        Fault::NeedsValue(key).messages() == seq![
            "参数 `"@ + key + "` 需赋值，如 `"@ + key + " = ...`"@,
        ],
        Fault::NoTarget(Attr::Evict).messages() == seq![
            "必须指定 target 类型，例如 `UserBo` 或 `target = UserBo`"@,
        ],
        Fault::NoTarget(Attr::Cacheable).messages() == seq![
            "必须指定 target 类型，例如 `UserBo`"@,
        ],
        Fault::NoId.messages() == seq!["必须指定 id 表达式，例如 `id = param.payload.id`"@],
{
}

/// No two keys are spelt the same.
proof fn lemma_words_differ()
    ensures
        "target"@ != "id"@ && "target"@ != "ctx"@ && "target"@ != "cache"@,
        "target"@ != "page"@ && "target"@ != "all"@,
        "id"@ != "ctx"@ && "id"@ != "cache"@ && "id"@ != "page"@ && "id"@ != "all"@,
        "ctx"@ != "cache"@ && "ctx"@ != "page"@ && "ctx"@ != "all"@,
        "cache"@ != "page"@ && "cache"@ != "all"@,
        "page"@ != "all"@,
{
    reveal_strlit("target");
    reveal_strlit("id");
    reveal_strlit("page");
    reveal_strlit("all");
    reveal_strlit("ctx");
    reveal_strlit("cache");
    assert("ctx"@[0] == 'c' && "all"@[0] == 'a');
    assert("target"@.len() == 6 && "id"@.len() == 2 && "page"@.len() == 4 && "all"@.len() == 3);
    assert("ctx"@.len() == 3 && "cache"@.len() == 5);
}

/// The words that are keys: `target`, `id`, `ctx` and `cache` for both attributes, `page` and `all`
/// for `cache_evict` alone, and no other word.
pub proof fn law_keys(attr: Attr, word: Seq<char>)
    ensures
        args::key_of(attr, "target"@) == Some(Key::Target),
        args::key_of(attr, "id"@) == Some(Key::Id),
        args::key_of(attr, "ctx"@) == Some(Key::Ctx),
        args::key_of(attr, "cache"@) == Some(Key::Cache),
        args::key_of(Attr::Evict, "page"@) == Some(Key::Page),
        args::key_of(Attr::Evict, "all"@) == Some(Key::All),
        args::key_of(Attr::Cacheable, "page"@) is None,
        args::key_of(Attr::Cacheable, "all"@) is None,
        args::key_of(attr, word) is Some ==> word == "target"@ || word == "id"@ || word == "ctx"@
            || word == "cache"@ || word == "page"@ || word == "all"@,
{
    lemma_words_differ();
}

/// The first argument is a target alone where its second token is not `=`: what reads as a path
/// there is the target.
pub proof fn law_first_argument_alone(attr: Attr, s: Seq<Tok>, piece: PieceView)
    requires
        !tokens::second_is(s, '='),
    ensures
        syntax::path_prefix(s) == Ok::<_, Seq<Seq<char>>>(piece) ==> args::entry_of(attr, true, s)
            == Ok::<_, Fault>(
            ReadView {
                entry: EntryView::Target(piece.tokens),
                rest: piece.rest,
                stray: piece.stray,
            },
        ),
        syntax::path_prefix(s) matches Err(messages) ==> args::entry_of(attr, true, s) == Err::<
            ReadView,
            _,
        >(Fault::Syntax(messages)),
{
}

/// An argument that is no target alone starts with a word; where it does not, the reader's error is
/// told.
pub proof fn law_argument_without_word(attr: Attr, first: bool, s: Seq<Tok>)
    requires
        first ==> tokens::second_is(s, '='),
    ensures
        syntax::ident(s) matches Err(messages) ==> args::entry_of(attr, first, s) == Err::<
            ReadView,
            _,
        >(Fault::Syntax(messages)),
{
}

/// What a path or an expression gives as an argument.
pub open spec fn piece_entry(
    entry: EntryView,
    piece: PieceView,
) -> Result<ReadView, Fault> {
    Ok(ReadView { entry, rest: piece.rest, stray: piece.stray })
}

/// An argument `word = value`: the target is the path that the value starts with, the id, the
/// context and the cache manager are the expression, each whatever the other arguments are; a switch
/// of `cache_evict` is the boolean. Where the value does not read so, the reader's error is told, and
/// any other word is told to be unknown.
pub proof fn law_argument_with_value(
    attr: Attr,
    first: bool,
    s: Seq<Tok>,
    word: Seq<char>,
    after: Seq<Tok>,
    value: Seq<Tok>,
)
    requires
        first ==> tokens::second_is(s, '='),
        syntax::ident(s) == Ok::<_, Seq<Seq<char>>>((word, after)),
        syntax::punct(after, '=') == Ok::<_, Seq<Seq<char>>>(value),
    ensures
        ({
            let read = args::entry_of(attr, first, s);
            let path = syntax::path_prefix(value);
            let expr = syntax::expr_prefix(value);
            let boolean = syntax::boolean(value);
            let switch = attr is Evict && (word == "page"@ || word == "all"@);
            &&& word == "target"@ ==> match path {
                Ok(piece) => read == piece_entry(EntryView::Target(piece.tokens), piece),
                Err(messages) => read == Err::<ReadView, _>(Fault::Syntax(messages)),
            }
            &&& word == "id"@ ==> match expr {
                Ok(piece) => read == piece_entry(EntryView::Id(piece.tokens), piece),
                Err(messages) => read == Err::<ReadView, _>(Fault::Syntax(messages)),
            }
            &&& word == "ctx"@ ==> match expr {
                Ok(piece) => read == piece_entry(EntryView::Ctx(piece.tokens), piece),
                Err(messages) => read == Err::<ReadView, _>(Fault::Syntax(messages)),
            }
            &&& word == "cache"@ ==> match expr {
                Ok(piece) => read == piece_entry(EntryView::Cache(piece.tokens), piece),
                Err(messages) => read == Err::<ReadView, _>(Fault::Syntax(messages)),
            }
            &&& switch ==> match boolean {
                Ok((on, rest)) => read == Ok::<_, Fault>(
                    ReadView {
                        entry: if word == "page"@ {
                            EntryView::Page(on)
                        } else {
                            EntryView::All(on)
                        },
                        rest,
                        stray: None,
                    },
                ),
                Err(messages) => read == Err::<ReadView, _>(Fault::Syntax(messages)),
            }
            &&& (word != "target"@ && word != "id"@ && word != "ctx"@ && word != "cache"@
                && !switch) ==> read == Err::<ReadView, _>(Fault::UnknownKey(attr, word))
        }),
{
    lemma_words_differ();
}

/// A word that no `=` follows: `cache_evict` takes `page` and `all` so, and they are then on; any
/// other word is told to need a value. `cacheable` tells that `=` is missing.
pub proof fn law_argument_without_value(
    first: bool,
    s: Seq<Tok>,
    word: Seq<char>,
    after: Seq<Tok>,
    messages: Seq<Seq<char>>,
)
    requires
        first ==> tokens::second_is(s, '='),
        syntax::ident(s) == Ok::<_, Seq<Seq<char>>>((word, after)),
        syntax::punct(after, '=') == Err::<Seq<Tok>, _>(messages),
    ensures
        ({
            let read = args::entry_of(Attr::Evict, first, s);
            &&& word == "page"@ ==> read == Ok::<_, Fault>(
                ReadView { entry: EntryView::Page(true), rest: after, stray: None },
            )
            &&& word == "all"@ ==> read == Ok::<_, Fault>(
                ReadView { entry: EntryView::All(true), rest: after, stray: None },
            )
            &&& (word != "page"@ && word != "all"@) ==> read == Err::<ReadView, _>(
                Fault::NeedsValue(word),
            )
        }),
        args::entry_of(Attr::Cacheable, first, s) == Err::<ReadView, _>(Fault::Syntax(messages)),
{
    lemma_words_differ();
}

/// Whether a sequence is what another leaves once the comma is gone that it may start with.
pub open spec fn is_past_comma(s: Seq<Tok>, rest: Seq<Tok>) -> bool {
    match syntax::punct(s, ',') {
        Ok(after) => rest == after,
        Err(_) => rest == s,
    }
}

/// Arguments are read one after another to the end, with a comma behind each or without: the first
/// one comes first, the others follow as they are read from there on, and none is lost. The first
/// argument that is refused decides. Of groups that were not read to their end the first one is
/// remembered.
pub proof fn law_arguments_in_a_row(
    attr: Attr,
    first: bool,
    s: Seq<Tok>,
    read: ReadView,
    rest: Seq<Tok>,
)
    ensures
        args::entries_of(attr, first, Seq::empty()) == Ok::<_, Fault>(
            (Seq::<EntryView>::empty(), None::<Seq<Seq<char>>>),
        ),
        s.len() > 0 ==> (args::entry_of(attr, first, s) matches Err(fault) ==> args::entries_of(
            attr,
            first,
            s,
        ) == Err::<(Seq<EntryView>, Option<Seq<Seq<char>>>), _>(fault)),
        s.len() > 0 && args::entry_of(attr, first, s) == Ok::<_, Fault>(read) && is_past_comma(
            read.rest,
            rest,
        ) && tokens::weight(rest) < tokens::weight(s) ==> match args::entries_of(
            attr,
            false,
            rest,
        ) {
            Ok((others, stray)) => args::entries_of(attr, first, s) == Ok::<_, Fault>(
                (
                    seq![read.entry] + others,
                    if read.stray is Some {
                        read.stray
                    } else {
                        stray
                    },
                ),
            ),
            Err(fault) => args::entries_of(attr, first, s) == Err::<
                (Seq<EntryView>, Option<Seq<Seq<char>>>),
                _,
            >(fault),
        },
        is_past_comma(read.rest, rest) ==> args::past_comma(read.rest) == rest,
{
}

/// The key that is refused is the one that the first refused argument starts with: it is found by
/// the number of tokens behind it, which arguments before it do not change.
pub proof fn law_refused_key(
    attr: Attr,
    first: bool,
    s: Seq<Tok>,
    read: ReadView,
    rest: Seq<Tok>,
    word: Seq<char>,
    after: Seq<Tok>,
    input: TokenStream,
    behind: nat,
)
    ensures
        args::refused_key(attr, first, Seq::empty()) is None,
        s.len() > 0 && syntax::ident(s) == Ok::<_, Seq<Seq<char>>>((word, after)) && (
        args::entry_of(attr, first, s) == Err::<ReadView, _>(Fault::UnknownKey(attr, word))
            || args::entry_of(attr, first, s) == Err::<ReadView, _>(Fault::NeedsValue(word)))
            ==> args::refused_key(attr, first, s) == Some(tokens::weight(after)),
        args::entry_of(attr, first, s) matches Err(Fault::Syntax(_)) ==> args::refused_key(
            attr,
            first,
            s,
        ) is None,
        s.len() > 0 && args::entry_of(attr, first, s) == Ok::<_, Fault>(read) && is_past_comma(
            read.rest,
            rest,
        ) && tokens::weight(rest) < tokens::weight(s) ==> args::refused_key(attr, first, s)
            == args::refused_key(attr, false, rest),
        args::place_of(input, None) is None,
        args::place_of(input, Some(behind)) == Some(
            tokens::places(input)[tokens::places(input).len() - behind - 1],
        ),
{
}

/// Whether `value` is what the last argument with the key `target` gives; `None` where there is
/// none.
pub open spec fn last_target(entries: Seq<EntryView>, value: Option<Seq<Tok>>) -> bool {
    match value {
        Some(path) => exists|i: int|
            0 <= i < entries.len() && #[trigger] entries[i] == EntryView::Target(path) && forall|
                k: int,
            |
                i < k < entries.len() ==> !(#[trigger] entries[k] is Target),
        None => forall|k: int| 0 <= k < entries.len() ==> !(#[trigger] entries[k] is Target),
    }
}

/// The same for `id`.
pub open spec fn last_id(entries: Seq<EntryView>, value: Option<Seq<Tok>>) -> bool {
    match value {
        Some(expr) => exists|i: int|
            0 <= i < entries.len() && #[trigger] entries[i] == EntryView::Id(expr) && forall|
                k: int,
            |
                i < k < entries.len() ==> !(#[trigger] entries[k] is Id),
        None => forall|k: int| 0 <= k < entries.len() ==> !(#[trigger] entries[k] is Id),
    }
}

/// The same for `ctx`.
pub open spec fn last_ctx(entries: Seq<EntryView>, value: Option<Seq<Tok>>) -> bool {
    match value {
        Some(expr) => exists|i: int|
            0 <= i < entries.len() && #[trigger] entries[i] == EntryView::Ctx(expr) && forall|
                k: int,
            |
                i < k < entries.len() ==> !(#[trigger] entries[k] is Ctx),
        None => forall|k: int| 0 <= k < entries.len() ==> !(#[trigger] entries[k] is Ctx),
    }
}

/// The same for `cache`.
pub open spec fn last_cache(entries: Seq<EntryView>, value: Option<Seq<Tok>>) -> bool {
    match value {
        Some(expr) => exists|i: int|
            0 <= i < entries.len() && #[trigger] entries[i] == EntryView::Cache(expr) && forall|
                k: int,
            |
                i < k < entries.len() ==> !(#[trigger] entries[k] is Cache),
        None => forall|k: int| 0 <= k < entries.len() ==> !(#[trigger] entries[k] is Cache),
    }
}

/// The same for `page`.
pub open spec fn last_page(entries: Seq<EntryView>, value: Option<bool>) -> bool {
    match value {
        Some(on) => exists|i: int|
            0 <= i < entries.len() && #[trigger] entries[i] == EntryView::Page(on) && forall|
                k: int,
            |
                i < k < entries.len() ==> !(#[trigger] entries[k] is Page),
        None => forall|k: int| 0 <= k < entries.len() ==> !(#[trigger] entries[k] is Page),
    }
}

/// The same for `all`.
pub open spec fn last_all(entries: Seq<EntryView>, value: Option<bool>) -> bool {
    match value {
        Some(on) => exists|i: int|
            0 <= i < entries.len() && #[trigger] entries[i] == EntryView::All(on) && forall|k: int|
                i < k < entries.len() ==> !(#[trigger] entries[k] is All),
        None => forall|k: int| 0 <= k < entries.len() ==> !(#[trigger] entries[k] is All),
    }
}

/// Each setting is what the last argument with its key gives, whatever the other arguments are, and
/// is not there exactly where no argument has its key.
pub proof fn law_settings(entries: Seq<EntryView>)
    ensures
        last_target(entries, SettingsView::of(entries).target),
        last_id(entries, SettingsView::of(entries).id),
        last_page(entries, SettingsView::of(entries).page),
        last_all(entries, SettingsView::of(entries).all),
        last_ctx(entries, SettingsView::of(entries).ctx),
        last_cache(entries, SettingsView::of(entries).cache),
    decreases entries.len(),
{
    let made = SettingsView::of(entries);
    if entries.len() > 0 {
        let before = entries.drop_last();
        let n = entries.len() - 1;
        let early = SettingsView::of(before);
        law_settings(before);
        args::lemma_settings_push(before, entries.last());
        assert(before.push(entries.last()) =~= entries);
        assert(forall|k: int| 0 <= k < n ==> #[trigger] before[k] == entries[k]);
        assert(entries[n] == entries.last());
        if !(entries[n] is Target) && early.target is Some {
            let i = choose|i: int|
                0 <= i < before.len() && #[trigger] before[i] == EntryView::Target(early.target->0)
                    && forall|k: int| i < k < before.len() ==> !(#[trigger] before[k] is Target);
            assert(entries[i] == EntryView::Target(early.target->0));
        }
        if !(entries[n] is Id) && early.id is Some {
            let i = choose|i: int|
                0 <= i < before.len() && #[trigger] before[i] == EntryView::Id(early.id->0)
                    && forall|k: int| i < k < before.len() ==> !(#[trigger] before[k] is Id);
            assert(entries[i] == EntryView::Id(early.id->0));
        }
        if !(entries[n] is Ctx) && early.ctx is Some {
            let i = choose|i: int|
                0 <= i < before.len() && #[trigger] before[i] == EntryView::Ctx(early.ctx->0)
                    && forall|k: int| i < k < before.len() ==> !(#[trigger] before[k] is Ctx);
            assert(entries[i] == EntryView::Ctx(early.ctx->0));
        }
        if !(entries[n] is Cache) && early.cache is Some {
            let i = choose|i: int|
                0 <= i < before.len() && #[trigger] before[i] == EntryView::Cache(early.cache->0)
                    && forall|k: int| i < k < before.len() ==> !(#[trigger] before[k] is Cache);
            assert(entries[i] == EntryView::Cache(early.cache->0));
        }
        if !(entries[n] is Page) && early.page is Some {
            let i = choose|i: int|
                0 <= i < before.len() && #[trigger] before[i] == EntryView::Page(early.page->0)
                    && forall|k: int| i < k < before.len() ==> !(#[trigger] before[k] is Page);
            assert(entries[i] == EntryView::Page(early.page->0));
        }
        if !(entries[n] is All) && early.all is Some {
            let i = choose|i: int|
                0 <= i < before.len() && #[trigger] before[i] == EntryView::All(early.all->0)
                    && forall|k: int| i < k < before.len() ==> !(#[trigger] before[k] is All);
            assert(entries[i] == EntryView::All(early.all->0));
        }
    }
}

/// Settings start with nothing, and one more argument sets its own field and leaves the others.
pub proof fn law_settings_step(old: SettingsView, tokens: Seq<Tok>, on: bool)
    ensures
        SettingsView::unset() == (SettingsView {
            target: None,
            id: None,
            page: None,
            all: None,
            ctx: None,
            cache: None,
        }),
        old.with(EntryView::Target(tokens)) == (SettingsView { target: Some(tokens), ..old }),
        old.with(EntryView::Id(tokens)) == (SettingsView { id: Some(tokens), ..old }),
        old.with(EntryView::Page(on)) == (SettingsView { page: Some(on), ..old }),
        old.with(EntryView::All(on)) == (SettingsView { all: Some(on), ..old }),
        old.with(EntryView::Ctx(tokens)) == (SettingsView { ctx: Some(tokens), ..old }),
        old.with(EntryView::Cache(tokens)) == (SettingsView { cache: Some(tokens), ..old }),
{
}

/// What settings make of `cache_evict`: every value that is set is there as it is, whatever else is
/// set, a switch is on exactly where it is set to `true`, and only a missing target is refused.
pub proof fn law_evict_from_settings(s: SettingsView)
    ensures
        match CacheEvictArgsView::from_settings(s) {
            Ok(made) => {
                &&& s.target == Some(made.target)
                &&& made.id == s.id
                &&& made.page <==> s.page == Some(true)
                &&& made.all <==> s.all == Some(true)
                &&& made.ctx == s.ctx
                &&& made.cache == s.cache
            },
            Err(fault) => s.target is None && fault == Fault::NoTarget(Attr::Evict),
        },
{
}

/// What settings make of `cacheable`: every value that is set is there as it is, whatever else is
/// set, and only a missing target and, with a target, a missing id are refused.
pub proof fn law_cacheable_from_settings(s: SettingsView)
    ensures
        match CacheableArgsView::from_settings(s) {
            Ok(made) => {
                &&& s.target == Some(made.target)
                &&& s.id == Some(made.id)
                &&& made.ctx == s.ctx
                &&& made.cache == s.cache
            },
            Err(fault) => if s.target is None {
                fault == Fault::NoTarget(Attr::Cacheable)
            } else {
                s.id is None && fault == Fault::NoId
            },
        },
{
}

/// The arguments of `cache_evict` that are read hold every value that is given, independently of
/// the other keys: the target, the id, the context and the cache manager are those of the last
/// argument with their key, a switch is on exactly where the last argument with its key is on, and
/// what no argument gives is not there. They are refused exactly where an argument is refused, where
/// no target is given, and where a group was not read to its end.
pub proof fn law_evict_arguments(s: Seq<Tok>)
    ensures
        match args::entries_of(Attr::Evict, true, s) {
            Err(fault) => CacheEvictArgsView::parse(s) == Err::<CacheEvictArgsView, _>(fault),
            Ok((entries, stray)) => match CacheEvictArgsView::parse(s) {
                Ok(made) => {
                    &&& stray is None
                    &&& last_target(entries, Some(made.target))
                    &&& last_id(entries, made.id)
                    &&& made.page <==> last_page(entries, Some(true))
                    &&& made.all <==> last_all(entries, Some(true))
                    &&& last_ctx(entries, made.ctx)
                    &&& last_cache(entries, made.cache)
                },
                Err(fault) => if last_target(entries, None) {
                    fault == Fault::NoTarget(Attr::Evict)
                } else {
                    stray is Some && fault == Fault::Syntax(stray->0)
                },
            },
        },
{
    if let Ok((entries, _)) = args::entries_of(Attr::Evict, true, s) {
        law_settings(entries);
        lemma_last_is_one(entries);
    }
}

/// The arguments of `cacheable` that are read hold every value that is given, independently of the
/// other keys: the target, the id, the context and the cache manager are those of the last argument
/// with their key, and what no argument gives is not there. They are refused exactly where an
/// argument is refused, where no target or no id is given, and where a group was not read to its
/// end.
pub proof fn law_cacheable_arguments(s: Seq<Tok>)
    ensures
        match args::entries_of(Attr::Cacheable, true, s) {
            Err(fault) => CacheableArgsView::parse(s) == Err::<CacheableArgsView, _>(fault),
            Ok((entries, stray)) => match CacheableArgsView::parse(s) {
                Ok(made) => {
                    &&& stray is None
                    &&& last_target(entries, Some(made.target))
                    &&& last_id(entries, Some(made.id))
                    &&& last_ctx(entries, made.ctx)
                    &&& last_cache(entries, made.cache)
                },
                Err(fault) => if last_target(entries, None) {
                    fault == Fault::NoTarget(Attr::Cacheable)
                } else if last_id(entries, None) {
                    fault == Fault::NoId
                } else {
                    stray is Some && fault == Fault::Syntax(stray->0)
                },
            },
        },
{
    if let Ok((entries, _)) = args::entries_of(Attr::Cacheable, true, s) {
        law_settings(entries);
        lemma_last_is_one(entries);
    }
}

/// The last argument with a key gives one value.
proof fn lemma_last_is_one(entries: Seq<EntryView>)
    ensures
        !(last_page(entries, Some(true)) && last_page(entries, Some(false))),
        !(last_page(entries, Some(true)) && last_page(entries, None)),
        !(last_all(entries, Some(true)) && last_all(entries, Some(false))),
        !(last_all(entries, Some(true)) && last_all(entries, None)),
        forall|v: Seq<Tok>| !(#[trigger] last_target(entries, Some(v)) && last_target(entries, None)),
        forall|v: Seq<Tok>| !(#[trigger] last_id(entries, Some(v)) && last_id(entries, None)),
{
}

} // verus!
