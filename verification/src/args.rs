//! The arguments of the two attributes.

use crate::syntax;
use crate::syntax::Piece;
use crate::tokens;
use crate::tokens::Tok;
use proc_macro2::{Span, TokenStream};
use vstd::prelude::*;

verus! {

/// The attribute whose arguments are read.
#[derive(Clone, Copy, PartialEq, Eq, Structural, Debug)]
pub enum Attr {
    Evict,
    Cacheable,
}

/// What an argument sets.
#[derive(Clone, Copy, PartialEq, Eq, Structural, Debug)]
pub enum Key {
    Target,
    Id,
    Page,
    All,
    Ctx,
    Cache,
}

/// One argument.
pub enum Entry {
    Target(TokenStream),
    Id(TokenStream),
    Page(bool),
    All(bool),
    Ctx(TokenStream),
    Cache(TokenStream),
}

/// What an argument holds.
pub enum EntryView {
    Target(Seq<Tok>),
    Id(Seq<Tok>),
    Page(bool),
    All(bool),
    Ctx(Seq<Tok>),
    Cache(Seq<Tok>),
}

impl EntryView {
    /// What the argument sets.
    pub open spec fn key(self) -> Key {
        match self {
            EntryView::Target(_) => Key::Target,
            EntryView::Id(_) => Key::Id,
            EntryView::Page(_) => Key::Page,
            EntryView::All(_) => Key::All,
            EntryView::Ctx(_) => Key::Ctx,
            EntryView::Cache(_) => Key::Cache,
        }
    }
}

impl View for Entry {
    type V = EntryView;

    open spec fn view(&self) -> EntryView {
        match *self {
            Entry::Target(path) => EntryView::Target(tokens::trees(path)),
            Entry::Id(expr) => EntryView::Id(tokens::trees(expr)),
            Entry::Page(on) => EntryView::Page(on),
            Entry::All(on) => EntryView::All(on),
            Entry::Ctx(expr) => EntryView::Ctx(tokens::trees(expr)),
            Entry::Cache(expr) => EntryView::Cache(tokens::trees(expr)),
        }
    }
}

/// Why arguments are refused.
pub enum ArgsError {
    /// A path, an expression, a literal or a separator does not read.
    Syntax(syn::Error),
    /// A key that the attribute does not know.
    UnknownKey(Attr, String, Span),
    /// A key that needs a value stands alone.
    NeedsValue(String, Span),
    /// No target is given.
    NoTarget(Attr),
    /// No id is given.
    NoId,
}

/// Why arguments are refused, without the place.
pub enum Fault {
    Syntax(Seq<Seq<char>>),
    UnknownKey(Attr, Seq<char>),
    NeedsValue(Seq<char>),
    NoTarget(Attr),
    NoId,
}

impl View for ArgsError {
    type V = Fault;

    open spec fn view(&self) -> Fault {
        match *self {
            ArgsError::Syntax(error) => Fault::Syntax(syntax::messages(error)),
            ArgsError::UnknownKey(attr, key, _) => Fault::UnknownKey(attr, key@),
            ArgsError::NeedsValue(key, _) => Fault::NeedsValue(key@),
            ArgsError::NoTarget(attr) => Fault::NoTarget(attr),
            ArgsError::NoId => Fault::NoId,
        }
    }
}

impl Fault {
    /// The messages that tell the user of it.
    pub open spec fn messages(self) -> Seq<Seq<char>> {
        match self {
            Fault::Syntax(messages) => messages,
            Fault::UnknownKey(Attr::Evict, key) => seq![
                "未知参数 `"@ + key + "`，支持 target, id, page, all, ctx, cache"@,
            ],
            Fault::UnknownKey(Attr::Cacheable, key) => seq![
                "未知参数 `"@ + key + "`，支持 target, id, ctx, cache"@,
            ],
            Fault::NeedsValue(key) => seq![
                "参数 `"@ + key + "` 需赋值，如 `"@ + key + " = ...`"@,
            ],
            Fault::NoTarget(Attr::Evict) => seq![
                "必须指定 target 类型，例如 `UserBo` 或 `target = UserBo`"@,
            ],
            Fault::NoTarget(Attr::Cacheable) => seq!["必须指定 target 类型，例如 `UserBo`"@],
            Fault::NoId => seq!["必须指定 id 表达式，例如 `id = param.payload.id`"@],
        }
    }
}

impl ArgsError {
    /// The place of the key that is refused, where one is.
    pub open spec fn key_place(self) -> Option<Span> {
        match self {
            ArgsError::UnknownKey(_, _, span) => Some(span),
            ArgsError::NeedsValue(_, span) => Some(span),
            _ => None,
        }
    }

    /// The place that the user is told of: the key that is refused, or the place of the attribute
    /// where something is missing. An error of syntax has places of its own.
    pub open spec fn place(self, site: Span) -> Option<Span> {
        match self {
            ArgsError::Syntax(_) => None,
            ArgsError::UnknownKey(_, _, span) => Some(span),
            ArgsError::NeedsValue(_, span) => Some(span),
            ArgsError::NoTarget(_) => Some(site),
            ArgsError::NoId => Some(site),
        }
    }

    /// Writes the `compile_error!` that tells the user, for an attribute that stands at `site`.
    pub fn report(self, site: Span) -> (out: TokenStream)
        ensures
            tokens::trees(out) == syntax::compile_errors(self@.messages()),
            self.place(site) matches Some(place) ==> tokens::places(out) == syntax::call_places(
                place,
            ),
    {
        match self {
            ArgsError::Syntax(error) => syntax::to_compile_error(&error),
            ArgsError::UnknownKey(Attr::Evict, key, span) => syntax::compile_error_at(
                span,
                "未知参数 `".to_owned().concat(key.as_str()).concat(
                    "`，支持 target, id, page, all, ctx, cache",
                ).as_str(),
            ),
            ArgsError::UnknownKey(Attr::Cacheable, key, span) => syntax::compile_error_at(
                span,
                "未知参数 `".to_owned().concat(key.as_str()).concat(
                    "`，支持 target, id, ctx, cache",
                ).as_str(),
            ),
            ArgsError::NeedsValue(key, span) => syntax::compile_error_at(
                span,
                "参数 `".to_owned().concat(key.as_str()).concat("` 需赋值，如 `").concat(
                    key.as_str(),
                ).concat(" = ...`").as_str(),
            ),
            ArgsError::NoTarget(Attr::Evict) => syntax::compile_error_at(
                site,
                "必须指定 target 类型，例如 `UserBo` 或 `target = UserBo`",
            ),
            ArgsError::NoTarget(Attr::Cacheable) => syntax::compile_error_at(
                site,
                "必须指定 target 类型，例如 `UserBo`",
            ),
            ArgsError::NoId => syntax::compile_error_at(
                site,
                "必须指定 id 表达式，例如 `id = param.payload.id`",
            ),
        }
    }
}

/// The key that a word names in an attribute.
pub open spec fn key_of(attr: Attr, word: Seq<char>) -> Option<Key> {
    if word == "target"@ {
        Some(Key::Target)
    } else if word == "id"@ {
        Some(Key::Id)
    } else if word == "ctx"@ {
        Some(Key::Ctx)
    } else if word == "cache"@ {
        Some(Key::Cache)
    } else if attr is Evict && word == "page"@ {
        Some(Key::Page)
    } else if attr is Evict && word == "all"@ {
        Some(Key::All)
    } else {
        None
    }
}

impl Key {
    /// Finds the key that a word names in an attribute.
    pub fn find(attr: Attr, word: &String) -> (key: Option<Key>)
        ensures
            key == key_of(attr, word@),
    {
        if *word == "target".to_owned() {
            Some(Key::Target)
        } else if *word == "id".to_owned() {
            Some(Key::Id)
        } else if *word == "ctx".to_owned() {
            Some(Key::Ctx)
        } else if *word == "cache".to_owned() {
            Some(Key::Cache)
        } else if attr == Attr::Evict && *word == "page".to_owned() {
            Some(Key::Page)
        } else if attr == Attr::Evict && *word == "all".to_owned() {
            Some(Key::All)
        } else {
            None
        }
    }
}

/// An argument at the start of a stream.
pub struct Read {
    pub entry: Entry,
    pub rest: TokenStream,
    /// The error to report in the end where a group inside the argument was not read to its end.
    pub stray: Option<syn::Error>,
}

/// What an argument at the start of a sequence holds.
pub struct ReadView {
    pub entry: EntryView,
    pub rest: Seq<Tok>,
    pub stray: Option<Seq<Seq<char>>>,
}

impl View for Read {
    type V = ReadView;

    open spec fn view(&self) -> ReadView {
        ReadView {
            entry: self.entry@,
            rest: tokens::trees(self.rest),
            stray: syntax::opt_messages(self.stray),
        }
    }
}

/// The value of a key at the start of a sequence: a path for the target, a boolean literal for
/// a switch, an expression otherwise.
pub open spec fn value_of(key: Key, s: Seq<Tok>) -> Result<ReadView, Fault> {
    match key {
        Key::Target => match syntax::path_prefix(s) {
            Ok(piece) => Ok(
                ReadView {
                    entry: EntryView::Target(piece.tokens),
                    rest: piece.rest,
                    stray: piece.stray,
                },
            ),
            Err(messages) => Err(Fault::Syntax(messages)),
        },
        Key::Page | Key::All => match syntax::boolean(s) {
            Ok((on, rest)) => Ok(
                ReadView {
                    entry: if key is Page {
                        EntryView::Page(on)
                    } else {
                        EntryView::All(on)
                    },
                    rest,
                    stray: None,
                },
            ),
            Err(messages) => Err(Fault::Syntax(messages)),
        },
        Key::Id | Key::Ctx | Key::Cache => match syntax::expr_prefix(s) {
            Ok(piece) => Ok(
                ReadView {
                    entry: match key {
                        Key::Id => EntryView::Id(piece.tokens),
                        Key::Ctx => EntryView::Ctx(piece.tokens),
                        _ => EntryView::Cache(piece.tokens),
                    },
                    rest: piece.rest,
                    stray: piece.stray,
                },
            ),
            Err(messages) => Err(Fault::Syntax(messages)),
        },
    }
}

/// The argument at the start of a sequence. The first argument may be a bare target. Any other
/// is a key with `=` and a value; `cache_evict` also takes a switch alone, which is then on.
pub open spec fn entry_of(attr: Attr, first: bool, s: Seq<Tok>) -> Result<ReadView, Fault> {
    if first && !tokens::second_is(s, '=') {
        value_of(Key::Target, s)
    } else {
        match syntax::ident(s) {
            Err(messages) => Err(Fault::Syntax(messages)),
            Ok((word, rest)) => match syntax::punct(rest, '=') {
                Ok(value) => match key_of(attr, word) {
                    Some(key) => value_of(key, value),
                    None => Err(Fault::UnknownKey(attr, word)),
                },
                Err(messages) => match (attr, key_of(attr, word)) {
                    (Attr::Cacheable, _) => Err(Fault::Syntax(messages)),
                    (Attr::Evict, Some(Key::Page)) => Ok(
                        ReadView { entry: EntryView::Page(true), rest, stray: None },
                    ),
                    (Attr::Evict, Some(Key::All)) => Ok(
                        ReadView { entry: EntryView::All(true), rest, stray: None },
                    ),
                    (Attr::Evict, _) => Err(Fault::NeedsValue(word)),
                },
            },
        }
    }
}

/// A sequence without the comma that it may start with.
pub open spec fn past_comma(s: Seq<Tok>) -> Seq<Tok> {
    match syntax::punct(s, ',') {
        Ok(rest) => rest,
        Err(_) => s,
    }
}

/// All arguments of a sequence, in order, and the messages of the first group inside them that
/// was not read to its end; or the first fault. Between two arguments a comma may stand.
pub open spec fn entries_of(attr: Attr, first: bool, s: Seq<Tok>) -> Result<
    (Seq<EntryView>, Option<Seq<Seq<char>>>),
    Fault,
>
    decreases tokens::weight(s),
{
    if s.len() == 0 {
        Ok((Seq::empty(), None))
    } else {
        match entry_of(attr, first, s) {
            Err(fault) => Err(fault),
            Ok(read) => {
                let rest = past_comma(read.rest);
                if tokens::weight(rest) < tokens::weight(s) {
                    match entries_of(attr, false, rest) {
                        Err(fault) => Err(fault),
                        Ok((entries, stray)) => Ok(
                            (seq![read.entry] + entries, first_of(read.stray, stray)),
                        ),
                    }
                } else {
                    // Not reached: every argument has at least one token.
                    Err(Fault::Syntax(Seq::empty()))
                }
            },
        }
    }
}

/// Where the argument at the start of a sequence is refused for its key: how many tokens follow
/// the key.
pub open spec fn entry_refused(attr: Attr, first: bool, s: Seq<Tok>) -> Option<nat> {
    match (entry_of(attr, first, s), syntax::ident(s)) {
        (Err(Fault::UnknownKey(_, _)), Ok((_, rest))) => Some(tokens::weight(rest)),
        (Err(Fault::NeedsValue(_)), Ok((_, rest))) => Some(tokens::weight(rest)),
        _ => None,
    }
}

/// Where an argument of a sequence is refused for its key: how many tokens follow the key.
pub open spec fn refused_key(attr: Attr, first: bool, s: Seq<Tok>) -> Option<nat>
    decreases tokens::weight(s),
{
    if s.len() == 0 {
        None
    } else {
        match entry_of(attr, first, s) {
            Err(_) => entry_refused(attr, first, s),
            Ok(read) => {
                let rest = past_comma(read.rest);
                if tokens::weight(rest) < tokens::weight(s) {
                    refused_key(attr, false, rest)
                } else {
                    None
                }
            },
        }
    }
}

/// The place of a token that a number of tokens follow, where there is such a number.
pub open spec fn place_of(input: TokenStream, after: Option<nat>) -> Option<Span> {
    match after {
        Some(after) => Some(tokens::place_before(tokens::places(input), after)),
        None => None,
    }
}

/// The first of two values that is there.
pub open spec fn first_of<T>(a: Option<T>, b: Option<T>) -> Option<T> {
    match a {
        Some(_) => a,
        None => b,
    }
}

/// Reads the value of a key.
fn read_value(key: Key, input: &TokenStream) -> (read: Result<Read, ArgsError>)
    ensures
        match read {
            Ok(read) => {
                &&& value_of(key, tokens::trees(*input)) == Ok::<_, Fault>(read@)
                &&& tokens::weight(read@.rest) <= tokens::weight(tokens::trees(*input))
                &&& key is Target ==> tokens::weight(read@.rest) < tokens::weight(
                    tokens::trees(*input),
                )
                &&& tokens::ends_with(*input, read.rest)
            },
            Err(error) => {
                &&& value_of(key, tokens::trees(*input)) == Err::<ReadView, _>(error@)
                &&& error is Syntax
            },
        },
{
    match key {
        Key::Target => match syntax::parse_path(input) {
            Ok(piece) => Ok(
                Read { entry: Entry::Target(piece.tokens), rest: piece.rest, stray: piece.stray },
            ),
            Err(error) => Err(ArgsError::Syntax(error)),
        },
        Key::Page | Key::All => match syntax::parse_bool(input) {
            Ok((on, rest)) => {
                proof {
                    tokens::lemma_next_shrinks(tokens::trees(*input));
                }
                let entry = if key == Key::Page {
                    Entry::Page(on)
                } else {
                    Entry::All(on)
                };
                Ok(Read { entry, rest, stray: None })
            },
            Err(error) => Err(ArgsError::Syntax(error)),
        },
        Key::Id | Key::Ctx | Key::Cache => match syntax::parse_expr(input) {
            Ok(Piece { tokens, rest, stray }) => {
                let entry = match key {
                    Key::Id => Entry::Id(tokens),
                    Key::Ctx => Entry::Ctx(tokens),
                    _ => Entry::Cache(tokens),
                };
                Ok(Read { entry, rest, stray })
            },
            Err(error) => Err(ArgsError::Syntax(error)),
        },
    }
}

/// Reads one argument.
fn read_entry(attr: Attr, first: bool, input: &TokenStream) -> (read: Result<Read, ArgsError>)
    ensures
        match read {
            Ok(read) => {
                &&& entry_of(attr, first, tokens::trees(*input)) == Ok::<_, Fault>(read@)
                &&& tokens::weight(read@.rest) < tokens::weight(tokens::trees(*input))
                &&& tokens::ends_with(*input, read.rest)
            },
            Err(error) => {
                let refused = entry_refused(attr, first, tokens::trees(*input));
                &&& entry_of(attr, first, tokens::trees(*input)) == Err::<ReadView, _>(error@)
                &&& error.key_place() == place_of(*input, refused)
                &&& refused matches Some(after) ==> after < tokens::places(*input).len()
            },
        },
{
    if first && !syntax::peek2_eq(input) {
        return read_value(Key::Target, input);
    }
    let word = match syntax::parse_ident(input) {
        Ok(word) => word,
        Err(error) => return Err(ArgsError::Syntax(error)),
    };
    proof {
        tokens::lemma_next_shrinks(tokens::trees(*input));
        tokens::lemma_next_shrinks(tokens::trees(word.rest));
    }
    let key = Key::find(attr, &word.text);
    if attr == Attr::Cacheable || syntax::peek_eq(&word.rest) {
        let value = match syntax::parse_eq(&word.rest) {
            Ok(value) => value,
            Err(error) => return Err(ArgsError::Syntax(error)),
        };
        match key {
            Some(key) => read_value(key, &value),
            None => Err(ArgsError::UnknownKey(attr, word.text, word.span)),
        }
    } else {
        match key {
            Some(Key::Page) => Ok(
                Read { entry: Entry::Page(true), rest: word.rest, stray: None },
            ),
            Some(Key::All) => Ok(Read { entry: Entry::All(true), rest: word.rest, stray: None }),
            _ => Err(ArgsError::NeedsValue(word.text, word.span)),
        }
    }
}

/// Drops the comma that a stream may start with.
fn skip_comma(input: TokenStream) -> (rest: TokenStream)
    ensures
        tokens::trees(rest) == past_comma(tokens::trees(input)),
        tokens::weight(tokens::trees(rest)) <= tokens::weight(tokens::trees(input)),
        tokens::places(rest).is_suffix_of(tokens::places(input)),
{
    if syntax::peek_comma(&input) {
        proof {
            tokens::lemma_next_shrinks(tokens::trees(input));
        }
        match syntax::parse_comma(&input) {
            Ok(rest) => rest,
            Err(_) => {
                assert(false);
                input
            },
        }
    } else {
        input
    }
}

/// What the arguments set; what none of them sets is not there.
pub struct Settings {
    pub target: Option<TokenStream>,
    pub id: Option<TokenStream>,
    pub page: Option<bool>,
    pub all: Option<bool>,
    pub ctx: Option<TokenStream>,
    pub cache: Option<TokenStream>,
}

/// What settings hold.
#[verifier::ext_equal]
pub struct SettingsView {
    pub target: Option<Seq<Tok>>,
    pub id: Option<Seq<Tok>>,
    pub page: Option<bool>,
    pub all: Option<bool>,
    pub ctx: Option<Seq<Tok>>,
    pub cache: Option<Seq<Tok>>,
}

impl View for Settings {
    type V = SettingsView;

    open spec fn view(&self) -> SettingsView {
        SettingsView {
            target: tokens::opt_trees(self.target),
            id: tokens::opt_trees(self.id),
            page: self.page,
            all: self.all,
            ctx: tokens::opt_trees(self.ctx),
            cache: tokens::opt_trees(self.cache),
        }
    }
}

/// What the last argument that `pick` takes gives.
pub open spec fn latest<T>(entries: Seq<EntryView>, pick: spec_fn(EntryView) -> Option<T>) -> Option<
    T,
>
    decreases entries.len(),
{
    if entries.len() == 0 {
        None
    } else {
        first_of(pick(entries.last()), latest(entries.drop_last(), pick))
    }
}

impl SettingsView {
    /// Nothing is set.
    pub open spec fn unset() -> SettingsView {
        SettingsView { target: None, id: None, page: None, all: None, ctx: None, cache: None }
    }

    /// What arguments set: of those with the same key the last one counts.
    pub open spec fn of(entries: Seq<EntryView>) -> SettingsView {
        SettingsView {
            target: latest(
                entries,
                |e: EntryView|
                    match e {
                        EntryView::Target(path) => Some(path),
                        _ => None,
                    },
            ),
            id: latest(
                entries,
                |e: EntryView|
                    match e {
                        EntryView::Id(expr) => Some(expr),
                        _ => None,
                    },
            ),
            page: latest(
                entries,
                |e: EntryView|
                    match e {
                        EntryView::Page(on) => Some(on),
                        _ => None,
                    },
            ),
            all: latest(
                entries,
                |e: EntryView|
                    match e {
                        EntryView::All(on) => Some(on),
                        _ => None,
                    },
            ),
            ctx: latest(
                entries,
                |e: EntryView|
                    match e {
                        EntryView::Ctx(expr) => Some(expr),
                        _ => None,
                    },
            ),
            cache: latest(
                entries,
                |e: EntryView|
                    match e {
                        EntryView::Cache(expr) => Some(expr),
                        _ => None,
                    },
            ),
        }
    }

    /// Whether the settings hold what an argument sets.
    pub open spec fn holds(self, entry: EntryView) -> bool {
        match entry {
            EntryView::Target(path) => self.target == Some(path),
            EntryView::Id(expr) => self.id == Some(expr),
            EntryView::Page(on) => self.page == Some(on),
            EntryView::All(on) => self.all == Some(on),
            EntryView::Ctx(expr) => self.ctx == Some(expr),
            EntryView::Cache(expr) => self.cache == Some(expr),
        }
    }

    /// Whether the settings hold nothing for a key.
    pub open spec fn lacks(self, key: Key) -> bool {
        match key {
            Key::Target => self.target is None,
            Key::Id => self.id is None,
            Key::Page => self.page is None,
            Key::All => self.all is None,
            Key::Ctx => self.ctx is None,
            Key::Cache => self.cache is None,
        }
    }

    /// What these settings leave open, `earlier` ones set.
    pub open spec fn over(self, earlier: SettingsView) -> SettingsView {
        SettingsView {
            target: first_of(self.target, earlier.target),
            id: first_of(self.id, earlier.id),
            page: first_of(self.page, earlier.page),
            all: first_of(self.all, earlier.all),
            ctx: first_of(self.ctx, earlier.ctx),
            cache: first_of(self.cache, earlier.cache),
        }
    }

    /// The settings after one more argument.
    pub open spec fn with(self, entry: EntryView) -> SettingsView {
        match entry {
            EntryView::Target(path) => SettingsView { target: Some(path), ..self },
            EntryView::Id(expr) => SettingsView { id: Some(expr), ..self },
            EntryView::Page(on) => SettingsView { page: Some(on), ..self },
            EntryView::All(on) => SettingsView { all: Some(on), ..self },
            EntryView::Ctx(expr) => SettingsView { ctx: Some(expr), ..self },
            EntryView::Cache(expr) => SettingsView { cache: Some(expr), ..self },
        }
    }
}

/// Whether one of the arguments has a key.
pub open spec fn mentions(entries: Seq<EntryView>, key: Key) -> bool {
    exists|i: int| 0 <= i < entries.len() && (#[trigger] entries[i]).key() == key
}

impl Settings {
    /// Settings in which nothing is set.
    pub fn new() -> (settings: Settings)
        ensures
            settings@ == SettingsView::unset(),
    {
        Settings { target: None, id: None, page: None, all: None, ctx: None, cache: None }
    }

    /// Takes one more argument into account.
    pub fn set(&mut self, entry: Entry)
        ensures
            final(self)@ == old(self)@.with(entry@),
    {
        match entry {
            Entry::Target(path) => self.target = Some(path),
            Entry::Id(expr) => self.id = Some(expr),
            Entry::Page(on) => self.page = Some(on),
            Entry::All(on) => self.all = Some(on),
            Entry::Ctx(expr) => self.ctx = Some(expr),
            Entry::Cache(expr) => self.cache = Some(expr),
        }
    }
}

/// One more argument changes only what it sets.
pub proof fn lemma_settings_push(entries: Seq<EntryView>, entry: EntryView)
    ensures
        SettingsView::of(entries.push(entry)) == SettingsView::of(entries).with(entry),
{
    assert(entries.push(entry).drop_last() =~= entries);
}

/// Of two lists in a row the later one counts.
proof fn lemma_latest_add<T>(
    a: Seq<EntryView>,
    b: Seq<EntryView>,
    pick: spec_fn(EntryView) -> Option<T>,
)
    ensures
        latest(a + b, pick) == first_of(latest(b, pick), latest(a, pick)),
    decreases b.len(),
{
    if b.len() == 0 {
        assert(a + b =~= a);
    } else {
        lemma_latest_add(a, b.drop_last(), pick);
        assert((a + b).drop_last() =~= a + b.drop_last());
    }
}

/// What two lists in a row set: the later one counts, and the earlier one where it sets nothing.
pub proof fn lemma_settings_add(a: Seq<EntryView>, b: Seq<EntryView>)
    ensures
        SettingsView::of(a + b) == SettingsView::of(b).over(SettingsView::of(a)),
{
    assert forall|pick: spec_fn(EntryView) -> Option<Seq<Tok>>| #[trigger]
        latest(a + b, pick) == first_of(latest(b, pick), latest(a, pick)) by {
        lemma_latest_add(a, b, pick);
    }
    assert forall|pick: spec_fn(EntryView) -> Option<bool>| #[trigger]
        latest(a + b, pick) == first_of(latest(b, pick), latest(a, pick)) by {
        lemma_latest_add(a, b, pick);
    }
}

/// What one argument sets.
pub proof fn lemma_settings_one(entry: EntryView)
    ensures
        SettingsView::of(seq![entry]) == SettingsView::unset().with(entry),
{
    let none = Seq::<EntryView>::empty();
    lemma_settings_push(none, entry);
    assert(none.push(entry) =~= seq![entry]);
    assert(SettingsView::of(none) =~= SettingsView::unset());
}

/// A key that no argument has is not set.
pub proof fn lemma_unmentioned(entries: Seq<EntryView>, key: Key)
    requires
        !mentions(entries, key),
    ensures
        SettingsView::of(entries).lacks(key),
    decreases entries.len(),
{
    if entries.len() > 0 {
        let before = entries.drop_last();
        assert forall|i: int| 0 <= i < before.len() implies (#[trigger] before[i]).key() != key by {
            assert(before[i] == entries[i]);
        }
        lemma_unmentioned(before, key);
        lemma_settings_push(before, entries.last());
        assert(before.push(entries.last()) =~= entries);
        assert(entries[entries.len() - 1].key() != key);
    }
}

/// The first `n` arguments of a sequence, the messages of the first group inside them that was not
/// read to its end, and the sequence from the next argument on; where there are so many.
pub open spec fn split_entries(attr: Attr, first: bool, s: Seq<Tok>, n: nat) -> Option<
    (Seq<EntryView>, Option<Seq<Seq<char>>>, Seq<Tok>),
>
    decreases n,
{
    if n == 0 {
        Some((Seq::empty(), None, s))
    } else if s.len() == 0 {
        None
    } else {
        match entry_of(attr, first, s) {
            Err(_) => None,
            Ok(read) => {
                let rest = past_comma(read.rest);
                if tokens::weight(rest) < tokens::weight(s) {
                    match split_entries(attr, false, rest, (n - 1) as nat) {
                        None => None,
                        Some((entries, stray, end)) => Some(
                            (seq![read.entry] + entries, first_of(read.stray, stray), end),
                        ),
                    }
                } else {
                    None
                }
            },
        }
    }
}

/// All arguments of a sequence are its first ones and those from there on.
pub proof fn lemma_split_entries(attr: Attr, first: bool, s: Seq<Tok>, n: nat)
    ensures
        split_entries(attr, first, s, n) matches Some((done, stray, rest)) ==> entries_of(
            attr,
            first,
            s,
        ) == joined(done, stray, entries_of(attr, first && n == 0, rest)),
    decreases n,
{
    if let Some((done, stray, rest)) = split_entries(attr, first, s, n) {
        if n == 0 {
            if let Ok((entries, _)) = entries_of(attr, first, s) {
                assert(done + entries =~= entries);
            }
        } else {
            let read = entry_of(attr, first, s)->Ok_0;
            let after = past_comma(read.rest);
            lemma_split_entries(attr, false, after, (n - 1) as nat);
            let (later, _, _) = split_entries(attr, false, after, (n - 1) as nat)->0;
            if let Ok((entries, _)) = entries_of(attr, false, rest) {
                assert(seq![read.entry] + (later + entries) =~= done + entries);
            }
        }
    }
}

/// What is read when `done` stands before the rest.
pub open spec fn joined(
    done: Seq<EntryView>,
    stray: Option<Seq<Seq<char>>>,
    rest: Result<(Seq<EntryView>, Option<Seq<Seq<char>>>), Fault>,
) -> Result<(Seq<EntryView>, Option<Seq<Seq<char>>>), Fault> {
    match rest {
        Ok((entries, later)) => Ok((done + entries, first_of(stray, later))),
        Err(fault) => Err(fault),
    }
}

/// Reads all arguments of an attribute.
pub fn read_settings(attr: Attr, input: TokenStream) -> (read: Result<
    (Settings, Option<syn::Error>),
    ArgsError,
>)
    ensures
        match read {
            Ok((settings, stray)) => entries_of(attr, true, tokens::trees(input)) matches Ok(
                (entries, messages),
            ) && settings@ == SettingsView::of(entries) && syntax::opt_messages(stray)
                == messages,
            Err(error) => {
                &&& entries_of(attr, true, tokens::trees(input)) == Err::<
                    (Seq<EntryView>, Option<Seq<Seq<char>>>),
                    _,
                >(error@)
                &&& error.key_place() == place_of(
                    input,
                    refused_key(attr, true, tokens::trees(input)),
                )
            },
        },
        read is Ok ==> refused_key(attr, true, tokens::trees(input)) is None,
{
    let ghost whole = entries_of(attr, true, tokens::trees(input));
    let mut settings = Settings::new();
    let mut stray: Option<syn::Error> = None;
    let mut rest = input;
    let mut first = true;
    let ghost mut done: Seq<EntryView> = Seq::empty();
    assert(SettingsView::of(done) =~= SettingsView::unset());
    assert(joined(done, None, whole) =~= whole) by {
        if let Ok((entries, _)) = whole {
            assert(done + entries =~= entries);
        }
    }
    while !rest.is_empty()
        invariant
            whole == entries_of(attr, true, tokens::trees(input)),
            settings@ == SettingsView::of(done),
            whole == joined(
                done,
                syntax::opt_messages(stray),
                entries_of(attr, first, tokens::trees(rest)),
            ),
            tokens::places(rest).is_suffix_of(tokens::places(input)),
            refused_key(attr, true, tokens::trees(input)) == refused_key(
                attr,
                first,
                tokens::trees(rest),
            ),
        decreases tokens::weight(tokens::trees(rest)),
    {
        let Read { entry, rest: after, stray: left } = match read_entry(attr, first, &rest) {
            Ok(read) => read,
            Err(error) => return Err(error),
        };
        proof {
            lemma_settings_push(done, entry@);
            if let Ok((entries, _)) = entries_of(
                attr,
                false,
                past_comma(tokens::trees(after)),
            ) {
                assert(done + (seq![entry@] + entries) =~= done.push(entry@) + entries);
            }
            done = done.push(entry@);
        }
        settings.set(entry);
        if stray.is_none() {
            stray = left;
        }
        rest = skip_comma(after);
        first = false;
    }
    assert(done + Seq::<EntryView>::empty() =~= done);
    Ok((settings, stray))
}

/// The arguments of `cache_evict`.
///
/// - `#[cache_evict(UserBo, page)]`: only the page lists are dropped.
/// - `#[cache_evict(UserBo, id = param.payload.id, all = true)]`: the record and the page lists.
/// - `#[cache_evict(target = UserBo, id = param.payload.id, all, ctx = &param.context,
///   cache = self.cache)]`: every argument under its key.
pub struct CacheEvictArgs {
    /// The type whose cache policy names what is dropped.
    pub target: TokenStream,
    /// The expression for the id of the record.
    pub id: Option<TokenStream>,
    /// Whether only the page lists are dropped.
    pub page: bool,
    /// Whether the record and the page lists are dropped.
    pub all: bool,
    /// The request context, where it is given.
    pub ctx: Option<TokenStream>,
    /// The cache manager, where it is given.
    pub cache: Option<TokenStream>,
}

/// What the arguments of `cache_evict` hold.
pub struct CacheEvictArgsView {
    pub target: Seq<Tok>,
    pub id: Option<Seq<Tok>>,
    pub page: bool,
    pub all: bool,
    pub ctx: Option<Seq<Tok>>,
    pub cache: Option<Seq<Tok>>,
}

impl View for CacheEvictArgs {
    type V = CacheEvictArgsView;

    open spec fn view(&self) -> CacheEvictArgsView {
        CacheEvictArgsView {
            target: tokens::trees(self.target),
            id: tokens::opt_trees(self.id),
            page: self.page,
            all: self.all,
            ctx: tokens::opt_trees(self.ctx),
            cache: tokens::opt_trees(self.cache),
        }
    }
}

impl CacheEvictArgsView {
    /// The arguments that settings make: a target is needed, and a switch that is not set is
    /// off.
    pub open spec fn from_settings(settings: SettingsView) -> Result<CacheEvictArgsView, Fault> {
        match settings.target {
            None => Err(Fault::NoTarget(Attr::Evict)),
            Some(target) => Ok(
                CacheEvictArgsView {
                    target,
                    id: settings.id,
                    page: settings.page == Some(true),
                    all: settings.all == Some(true),
                    ctx: settings.ctx,
                    cache: settings.cache,
                },
            ),
        }
    }

    /// The arguments that a sequence holds, or why it is refused. A group that was not read to
    /// its end is told of last.
    pub open spec fn parse(s: Seq<Tok>) -> Result<CacheEvictArgsView, Fault> {
        match entries_of(Attr::Evict, true, s) {
            Err(fault) => Err(fault),
            Ok((entries, stray)) => match (Self::from_settings(SettingsView::of(entries)), stray) {
                (Ok(_), Some(messages)) => Err(Fault::Syntax(messages)),
                (made, _) => made,
            },
        }
    }
}

impl CacheEvictArgs {
    /// Makes the arguments that settings give.
    pub fn from_settings(settings: Settings) -> (made: Result<CacheEvictArgs, ArgsError>)
        ensures
            match made {
                Ok(args) => CacheEvictArgsView::from_settings(settings@) == Ok::<_, Fault>(args@),
                Err(error) => {
                    &&& CacheEvictArgsView::from_settings(settings@) == Err::<
                        CacheEvictArgsView,
                        _,
                    >(error@)
                    &&& error.key_place() is None
                },
            },
    {
        let Settings { target, id, page, all, ctx, cache } = settings;
        match target {
            None => Err(ArgsError::NoTarget(Attr::Evict)),
            Some(target) => Ok(
                CacheEvictArgs {
                    target,
                    id,
                    page: page.unwrap_or(false),
                    all: all.unwrap_or(false),
                    ctx,
                    cache,
                },
            ),
        }
    }

    /// Reads the arguments of `cache_evict`.
    pub fn parse(input: TokenStream) -> (parsed: Result<CacheEvictArgs, ArgsError>)
        ensures
            match parsed {
                Ok(args) => CacheEvictArgsView::parse(tokens::trees(input)) == Ok::<_, Fault>(
                    args@,
                ),
                Err(error) => {
                    &&& CacheEvictArgsView::parse(tokens::trees(input)) == Err::<
                        CacheEvictArgsView,
                        _,
                    >(error@)
                    &&& error.key_place() == place_of(
                        input,
                        refused_key(Attr::Evict, true, tokens::trees(input)),
                    )
                },
            },
    {
        match read_settings(Attr::Evict, input) {
            Err(error) => Err(error),
            Ok((settings, stray)) => match (CacheEvictArgs::from_settings(settings), stray) {
                (Ok(_), Some(error)) => Err(ArgsError::Syntax(error)),
                (made, _) => made,
            },
        }
    }
}

/// The arguments of `cacheable`.
///
/// - `#[cacheable(UserBo, id = param.payload.id)]`
/// - `#[cacheable(target = UserBo, id = param.payload.id, ctx = &param.context,
///   cache = self.cache)]`
pub struct CacheableArgs {
    /// The type of the record.
    pub target: TokenStream,
    /// The expression for the id of the record.
    pub id: TokenStream,
    /// The request context, where it is given.
    pub ctx: Option<TokenStream>,
    /// The cache manager, where it is given.
    pub cache: Option<TokenStream>,
}

/// What the arguments of `cacheable` hold.
pub struct CacheableArgsView {
    pub target: Seq<Tok>,
    pub id: Seq<Tok>,
    pub ctx: Option<Seq<Tok>>,
    pub cache: Option<Seq<Tok>>,
}

impl View for CacheableArgs {
    type V = CacheableArgsView;

    open spec fn view(&self) -> CacheableArgsView {
        CacheableArgsView {
            target: tokens::trees(self.target),
            id: tokens::trees(self.id),
            ctx: tokens::opt_trees(self.ctx),
            cache: tokens::opt_trees(self.cache),
        }
    }
}

impl CacheableArgsView {
    /// The arguments that settings make: a target and an id are needed.
    pub open spec fn from_settings(settings: SettingsView) -> Result<CacheableArgsView, Fault> {
        match (settings.target, settings.id) {
            (None, _) => Err(Fault::NoTarget(Attr::Cacheable)),
            (Some(_), None) => Err(Fault::NoId),
            (Some(target), Some(id)) => Ok(
                CacheableArgsView { target, id, ctx: settings.ctx, cache: settings.cache },
            ),
        }
    }

    /// The arguments that a sequence holds, or why it is refused. A group that was not read to
    /// its end is told of last.
    pub open spec fn parse(s: Seq<Tok>) -> Result<CacheableArgsView, Fault> {
        match entries_of(Attr::Cacheable, true, s) {
            Err(fault) => Err(fault),
            Ok((entries, stray)) => match (Self::from_settings(SettingsView::of(entries)), stray) {
                (Ok(_), Some(messages)) => Err(Fault::Syntax(messages)),
                (made, _) => made,
            },
        }
    }
}

impl CacheableArgs {
    /// Makes the arguments that settings give.
    pub fn from_settings(settings: Settings) -> (made: Result<CacheableArgs, ArgsError>)
        ensures
            match made {
                Ok(args) => CacheableArgsView::from_settings(settings@) == Ok::<_, Fault>(args@),
                Err(error) => {
                    &&& CacheableArgsView::from_settings(settings@) == Err::<
                        CacheableArgsView,
                        _,
                    >(error@)
                    &&& error.key_place() is None
                },
            },
    {
        let Settings { target, id, page: _, all: _, ctx, cache } = settings;
        match (target, id) {
            (None, _) => Err(ArgsError::NoTarget(Attr::Cacheable)),
            (Some(_), None) => Err(ArgsError::NoId),
            (Some(target), Some(id)) => Ok(CacheableArgs { target, id, ctx, cache }),
        }
    }

    /// Reads the arguments of `cacheable`.
    pub fn parse(input: TokenStream) -> (parsed: Result<CacheableArgs, ArgsError>)
        ensures
            match parsed {
                Ok(args) => CacheableArgsView::parse(tokens::trees(input)) == Ok::<_, Fault>(
                    args@,
                ),
                Err(error) => {
                    &&& CacheableArgsView::parse(tokens::trees(input)) == Err::<
                        CacheableArgsView,
                        _,
                    >(error@)
                    &&& error.key_place() == place_of(
                        input,
                        refused_key(Attr::Cacheable, true, tokens::trees(input)),
                    )
                },
            },
    {
        match read_settings(Attr::Cacheable, input) {
            Err(error) => Err(error),
            Ok((settings, stray)) => match (CacheableArgs::from_settings(settings), stray) {
                (Ok(_), Some(error)) => Err(ArgsError::Syntax(error)),
                (made, _) => made,
            },
        }
    }
}

} // verus!
