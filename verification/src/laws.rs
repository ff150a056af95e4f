//! What holds of the two attributes as a whole.

use crate::args;
use crate::args::{Attr, CacheEvictArgsView, CacheableArgsView, EntryView, Fault, Key, SettingsView};
use crate::code;
use crate::code::Name;
use crate::expand;
use crate::meaning;
use crate::meaning::{Event, Failure, Flow, Place, Records, State, Value, World};
use crate::syntax;
use crate::syntax::FunctionView;
use crate::tokens;
use crate::tokens::Tok;
use vstd::prelude::*;

verus! {

/// The part of the cache that a function with `cache_evict` reaches.
pub open spec fn write_part(args: CacheEvictArgsView, f: FunctionView, world: World) -> int {
    (world.part)(expand::manager(args.cache), args.target, expand::context(f.params, args.ctx))
}

/// The cache key that the id of `cache_evict` gives, if there is one.
pub open spec fn write_key(args: CacheEvictArgsView, world: World) -> Option<Seq<char>> {
    match args.id {
        Some(id) => (world.key)(id),
        None => None,
    }
}

/// What a successful call of a function with `cache_evict` asks the cache to drop.
pub open spec fn dropped(args: CacheEvictArgsView, part: int, key: Option<Seq<char>>) -> Seq<
    Event,
> {
    match args.id {
        Some(_) if args.all => seq![Event::DropAll(part, key)],
        None if args.all => seq![Event::DropPages(part)],
        _ if args.page => seq![Event::DropPages(part)],
        Some(_) => match key {
            Some(key) => seq![Event::DropOne((part, key))],
            None => Seq::empty(),
        },
        None => Seq::empty(),
    }
}

/// The place of the record that such a call drops, if it drops one.
pub open spec fn dropped_place(args: CacheEvictArgsView, f: FunctionView, world: World) -> Option<
    Place,
> {
    match write_key(args, world) {
        Some(key) if args.all || !args.page => Some((write_part(args, f, world), key)),
        _ => None,
    }
}

/// A function with `cache_evict` runs its own statements once and first, and gives what they
/// gave, whether the cache can be reached or not. Where that is an error the cache is not asked to
/// drop anything; else it is asked to drop what the arguments say. Every other record stays.
pub proof fn law_evict(
    args: CacheEvictArgsView,
    f: FunctionView,
    records: Records,
    world: World,
)
    ensures
        ({
            let call = meaning::call(expand::evict_body(args, f), records, world);
            let body = (world.body)(f.stmts);
            &&& call.answer == Some(body)
            &&& body is Err ==> {
                &&& call.events == seq![Event::Body(f.stmts)]
                &&& call.records == records
            }
            &&& body is Ok ==> {
                &&& call.events == seq![Event::Body(f.stmts)] + dropped(
                    args,
                    write_part(args, f, world),
                    write_key(args, world),
                )
                &&& call.records == match dropped_place(args, f, world) {
                    Some(place) if world.down is None => records.remove(place),
                    _ => records,
                }
            }
        }),
{
    reveal_with_fuel(meaning::run, 3);
    reveal_with_fuel(meaning::step, 3);
    reveal_with_fuel(meaning::eval, 3);
    let body = expand::evict_body(args, f);
    let answer = (world.body)(f.stmts);
    let start = State { vars: Map::empty(), records, events: Seq::empty() };
    let ran = meaning::step(body[0], start, world).0;
    assert(ran == start.log(Event::Body(f.stmts)).bind(Name::Res, Value::Answer(answer)));
    lemma_evictions(args, f, ran, world);
    let after = meaning::step(body[1], ran, world).0;
    assert(after.var(Name::Res) == Value::Answer(answer));
    assert(body.skip(1)[0] == body[1]);
    assert(body.skip(1).skip(1)[0] == body[2]);
    let end = (after, Flow::Value(Value::Answer(answer)));
    assert(meaning::run(body.skip(1).skip(1), after, world) == end);
    assert(meaning::run(body.skip(1), ran, world) == end);
}

/// What the statements that drop from the cache do.
proof fn lemma_evictions(args: CacheEvictArgsView, f: FunctionView, state: State, world: World)
    ensures
        ({
            let (after, flow) = meaning::run(
                expand::evictions(
                    args,
                    expand::manager(args.cache),
                    expand::context(f.params, args.ctx),
                ),
                state,
                world,
            );
            &&& flow is Next
            &&& after.events == state.events + dropped(
                args,
                write_part(args, f, world),
                write_key(args, world),
            )
            &&& after.records == match dropped_place(args, f, world) {
                Some(place) if world.down is None => state.records.remove(place),
                _ => state.records,
            }
        }),
{
    reveal_with_fuel(meaning::run, 3);
    reveal_with_fuel(meaning::step, 3);
    reveal_with_fuel(meaning::eval, 3);
    let part = write_part(args, f, world);
    let id_key = write_key(args, world);
    let drops = expand::evictions(
        args,
        expand::manager(args.cache),
        expand::context(f.params, args.ctx),
    );
    if drops.len() == 0 {
        assert(state.events + Seq::<Event>::empty() =~= state.events);
    } else if drops.len() == 1 {
        assert(drops.skip(1).len() == 0);
        assert(state.events.push(Event::DropPages(part)) =~= state.events + seq![
            Event::DropPages(part),
        ]);
    } else {
        let known = meaning::step(drops[0], state, world).0;
        assert(known == state.bind(Name::IdOpt, Value::OptKey(id_key)));
        assert(drops.skip(1)[0] == drops[1]);
        assert(drops.skip(1).skip(1).len() == 0);
        if drops[1] is IfSome {
            let inner = drops[1]->IfSome_2;
            assert(inner.skip(1).len() == 0);
            if let Some(key) = id_key {
                let bound = known.bind(Name::IdStr, Value::Key(key));
                let dropped_one = meaning::step(inner[0], bound, world).0;
                assert(dropped_one.events =~= state.events + seq![Event::DropOne((part, key))]);
                assert(meaning::run(inner, bound, world) == (dropped_one, Flow::Next));
                let after = State { vars: known.vars, ..dropped_one };
                assert(meaning::step(drops[1], known, world) == (after, Flow::Next));
                assert(meaning::run(drops.skip(1), known, world) == (after, Flow::Next));
            } else {
                assert(state.events + Seq::<Event>::empty() =~= state.events);
                assert(meaning::step(drops[1], known, world) == (known, Flow::Next));
                assert(meaning::run(drops.skip(1), known, world) == (known, Flow::Next));
            }
        } else {
            assert(state.events.push(Event::DropAll(part, id_key)) =~= state.events + seq![
                Event::DropAll(part, id_key),
            ]);
            let after = meaning::step(drops[1], known, world).0;
            assert(meaning::step(drops[1], known, world).1 is Next);
            assert(meaning::run(drops.skip(1), known, world) == (after, Flow::Next));
        }
    }
}

/// The place of the record that a function with `cacheable` gives, if its id gives a key.
pub open spec fn read_place(args: CacheableArgsView, f: FunctionView, world: World) -> Option<
    Place,
> {
    match (world.key)(args.id) {
        Some(key) => Some(
            (
                (world.part)(
                    expand::manager(args.cache),
                    args.target,
                    expand::context(f.params, args.ctx),
                ),
                key,
            ),
        ),
        None => None,
    }
}

/// A function with `cacheable` whose id gives no key runs its own statements once, gives what
/// they gave, and leaves the cache alone.
pub proof fn law_cacheable_without_key(
    args: CacheableArgsView,
    f: FunctionView,
    records: Records,
    world: World,
)
    requires
        read_place(args, f, world) is None,
    ensures
        ({
            let call = meaning::call(expand::cacheable_body(args, f), records, world);
            &&& call.answer == Some((world.body)(f.stmts))
            &&& call.events == seq![Event::Body(f.stmts)]
            &&& call.records == records
        }),
{
    reveal_with_fuel(meaning::run, 3);
    reveal_with_fuel(meaning::step, 3);
    reveal_with_fuel(meaning::eval, 3);
    let body = expand::cacheable_body(args, f);
    let start = State { vars: Map::empty(), records, events: Seq::empty() };
    let known = start.bind(Name::IdOpt, Value::OptKey(None));
    assert(meaning::step(body[0], start, world) == (known, Flow::Next));
    assert(meaning::step(body[1], known, world) == (known, Flow::Next));
    assert(body.skip(1)[0] == body[1]);
    assert(body.skip(1).skip(1)[0] == body[2]);
    let end = (
        known.log(Event::Body(f.stmts)),
        Flow::Value(Value::Answer((world.body)(f.stmts))),
    );
    assert(meaning::run(body.skip(1).skip(1), known, world) == end);
    assert(meaning::run(body.skip(1), known, world) == end);
    assert(end.0.events =~= seq![Event::Body(f.stmts)]);
}

/// The state in which a function with `cacheable` asks the cache for a key.
spec fn asking(records: Records, key: Seq<char>) -> State {
    State { vars: Map::empty(), records, events: Seq::empty() }.bind(
        Name::IdOpt,
        Value::OptKey(Some(key)),
    ).bind(Name::Id, Value::Key(key))
}

/// What the cache gives to a function with `cacheable` that asks it for a key.
spec fn lookup(
    args: CacheableArgsView,
    f: FunctionView,
    records: Records,
    world: World,
    key: Seq<char>,
) -> (State, Flow) {
    meaning::eval(
        expand::cacheable_body(args, f)[1]->IfSome_2[0]->Let_1,
        asking(records, key),
        world,
    )
}

/// What a record that may be absent is as an answer.
pub open spec fn answer_of(found: Option<int>) -> Result<int, Failure> {
    match found {
        Some(record) => Ok(record),
        None => Err(Failure::NotFound(code::missing_text())),
    }
}

/// A function with `cacheable` gives what the cache gives to it.
proof fn lemma_lookup(
    args: CacheableArgsView,
    f: FunctionView,
    records: Records,
    world: World,
    key: Seq<char>,
)
    requires
        (world.key)(args.id) == Some(key),
    ensures
        ({
            let call = meaning::call(expand::cacheable_body(args, f), records, world);
            let (after, flow) = lookup(args, f, records, world, key);
            &&& flow matches Flow::Value(Value::Found(found)) ==> call.answer == Some(
                answer_of(found),
            )
            &&& flow matches Flow::Return(answer) ==> call.answer == Some(answer)
            &&& (flow is Return || flow matches Flow::Value(Value::Found(_))) ==> {
                &&& call.events == after.events
                &&& call.records == after.records
            }
        }),
{
    reveal_with_fuel(meaning::run, 3);
    reveal_with_fuel(meaning::step, 3);
    reveal_with_fuel(meaning::eval, 3);
    let body = expand::cacheable_body(args, f);
    let block = body[1]->IfSome_2;
    let start = State { vars: Map::empty(), records, events: Seq::empty() };
    let id_known = start.bind(Name::IdOpt, Value::OptKey(Some(key)));
    let known = asking(records, key);
    let (after, flow) = lookup(args, f, records, world, key);
    assert(meaning::step(body[0], start, world) == (id_known, Flow::Next));
    assert(body.skip(1)[0] == body[1]);
    if let Flow::Value(Value::Found(found)) = flow {
        let loaded = after.bind(Name::CacheRes, Value::Found(found));
        let answer = answer_of(found);
        assert(meaning::step(block[0], known, world) == (loaded, Flow::Next));
        assert(block.skip(1)[0] == block[1]);
        assert(meaning::step(block[1], loaded, world) == (loaded, Flow::Return(answer)));
        assert(meaning::run(block.skip(1), loaded, world) == (loaded, Flow::Return(answer)));
        assert(meaning::run(block, known, world) == (loaded, Flow::Return(answer)));
        let end = (State { vars: id_known.vars, ..loaded }, Flow::Return(answer));
        assert(meaning::step(body[1], id_known, world) == end);
        assert(meaning::run(body.skip(1), id_known, world) == end);
    }
    if let Flow::Return(answer) = flow {
        assert(meaning::step(block[0], known, world) == (after, flow));
        assert(meaning::run(block, known, world) == (after, flow));
        let end = (State { vars: id_known.vars, ..after }, flow);
        assert(meaning::step(body[1], id_known, world) == end);
        assert(meaning::run(body.skip(1), id_known, world) == end);
    }
}

/// A function with `cacheable` whose record is in the cache gives it from there: its own
/// statements do not run. That a record is known to be absent gives the error for a missing one.
pub proof fn law_cacheable_hit(
    args: CacheableArgsView,
    f: FunctionView,
    records: Records,
    world: World,
    place: Place,
)
    requires
        read_place(args, f, world) == Some(place),
        world.down is None,
        records.dom().contains(place),
    ensures
        ({
            let call = meaning::call(expand::cacheable_body(args, f), records, world);
            &&& call.answer == Some(answer_of(records[place]))
            &&& call.events == seq![Event::Lookup(place)]
            &&& call.records == records
        }),
{
    lemma_lookup(args, f, records, world, place.1);
    let (after, _) = lookup(args, f, records, world, place.1);
    assert(after.events =~= seq![Event::Lookup(place)]);
}

/// A function with `cacheable` whose cache cannot be reached gives the error of the cache, and its
/// own statements do not run.
pub proof fn law_cacheable_down(
    args: CacheableArgsView,
    f: FunctionView,
    records: Records,
    world: World,
    place: Place,
    failure: Failure,
)
    requires
        read_place(args, f, world) == Some(place),
        world.down == Some(failure),
    ensures
        ({
            let call = meaning::call(expand::cacheable_body(args, f), records, world);
            &&& call.answer == Some(Err::<int, Failure>(failure))
            &&& call.events == seq![Event::Lookup(place)]
            &&& call.records == records
        }),
{
    lemma_lookup(args, f, records, world, place.1);
    let (after, _) = lookup(args, f, records, world, place.1);
    assert(after.events =~= seq![Event::Lookup(place)]);
}

/// A function with `cacheable` whose record is not in the cache runs its own statements once,
/// after the cache was asked. A record that they give is given and kept. The error for a missing
/// record is given with the library's message, and kept where the cache keeps such. Any other
/// error is given as it is, and nothing is kept.
pub proof fn law_cacheable_miss(
    args: CacheableArgsView,
    f: FunctionView,
    records: Records,
    world: World,
    place: Place,
)
    requires
        read_place(args, f, world) == Some(place),
        world.down is None,
        !records.dom().contains(place),
    ensures
        ({
            let call = meaning::call(expand::cacheable_body(args, f), records, world);
            &&& call.events == seq![Event::Lookup(place), Event::Body(f.stmts)]
            &&& match (world.body)(f.stmts) {
                Ok(record) => {
                    &&& call.answer == Some(Ok::<int, Failure>(record))
                    &&& call.records == records.insert(place, Some(record))
                },
                Err(Failure::NotFound(_)) => {
                    &&& call.answer == Some(Err::<int, _>(Failure::NotFound(code::missing_text())))
                    &&& call.records == if world.keeps_absent {
                        records.insert(place, None)
                    } else {
                        records
                    }
                },
                Err(failure) => {
                    &&& call.answer == Some(Err::<int, Failure>(failure))
                    &&& call.records == records
                },
            }
        }),
{
    reveal_with_fuel(meaning::run, 4);
    reveal_with_fuel(meaning::step, 4);
    reveal_with_fuel(meaning::eval, 4);
    let key = place.1;
    lemma_lookup(args, f, records, world, key);
    let (after, _) = lookup(args, f, records, world, key);
    let known = asking(records, key);
    let loader = expand::cacheable_body(args, f)[1]->IfSome_2[0]->Let_1->loader;
    let asked = known.log(Event::Lookup(place));
    let ran = asked.log(Event::Body(f.stmts)).bind(
        Name::InnerRes,
        Value::Answer((world.body)(f.stmts)),
    );
    assert(meaning::step(loader[0], asked, world) == (ran, Flow::Next));
    assert(loader.skip(1)[0] == loader[1]);
    let loaded = meaning::eval(loader[1]->Value_0, ran, world);
    assert(meaning::step(loader[1], ran, world) == loaded);
    assert(meaning::run(loader.skip(1), ran, world) == loaded);
    assert(meaning::run(loader, asked, world) == loaded);
    assert(after.events =~= seq![Event::Lookup(place), Event::Body(f.stmts)]);
}

/// The keys are not reserved words.
proof fn lemma_keys_are_free()
    ensures
        !syntax::is_reserved("target"@),
        !syntax::is_reserved("page"@),
        !syntax::is_reserved("all"@),
        "page"@ != "target"@ && "page"@ != "id"@ && "page"@ != "ctx"@ && "page"@ != "cache"@,
        "all"@ != "target"@ && "all"@ != "id"@ && "all"@ != "ctx"@ && "all"@ != "cache"@,
        "all"@ != "page"@,
        "param"@ != "ctx"@,
        "false"@ != "true"@,
{
    reveal_strlit("target");
    reveal_strlit("id");
    reveal_strlit("page");
    reveal_strlit("all");
    reveal_strlit("ctx");
    reveal_strlit("cache");
    reveal_strlit("param");
    reveal_strlit("_");
    reveal_strlit("abstract");
    reveal_strlit("as");
    reveal_strlit("async");
    reveal_strlit("await");
    reveal_strlit("become");
    reveal_strlit("box");
    reveal_strlit("break");
    reveal_strlit("const");
    reveal_strlit("continue");
    reveal_strlit("crate");
    reveal_strlit("do");
    reveal_strlit("dyn");
    reveal_strlit("else");
    reveal_strlit("enum");
    reveal_strlit("extern");
    reveal_strlit("false");
    reveal_strlit("final");
    reveal_strlit("fn");
    reveal_strlit("for");
    reveal_strlit("if");
    reveal_strlit("impl");
    reveal_strlit("in");
    reveal_strlit("let");
    reveal_strlit("loop");
    reveal_strlit("macro");
    reveal_strlit("match");
    reveal_strlit("mod");
    reveal_strlit("move");
    reveal_strlit("mut");
    reveal_strlit("override");
    reveal_strlit("priv");
    reveal_strlit("pub");
    reveal_strlit("ref");
    reveal_strlit("return");
    reveal_strlit("Self");
    reveal_strlit("self");
    reveal_strlit("static");
    reveal_strlit("struct");
    reveal_strlit("super");
    reveal_strlit("trait");
    reveal_strlit("true");
    reveal_strlit("try");
    reveal_strlit("type");
    reveal_strlit("typeof");
    reveal_strlit("unsafe");
    reveal_strlit("unsized");
    reveal_strlit("use");
    reveal_strlit("virtual");
    reveal_strlit("where");
    reveal_strlit("while");
    reveal_strlit("yield");
    assert("param"@.len() == 5 && "ctx"@.len() == 3);
    assert("false"@.len() == 5 && "true"@.len() == 4);
    assert("page"@[0] == 'p' && "page"@[1] == 'a');
    assert("all"@[0] == 'a' && "all"@[1] == 'l');
    assert("target"@[0] == 't' && "target"@[1] == 'a');
}

/// A record that a function with `cacheable` gave once is given again from the cache: the
/// function's own statements do not run a second time.
pub proof fn law_read_twice(
    args: CacheableArgsView,
    f: FunctionView,
    records: Records,
    first: World,
    second: World,
    place: Place,
    record: int,
)
    requires
        read_place(args, f, first) == Some(place),
        read_place(args, f, second) == Some(place),
        second.down is None,
        meaning::call(expand::cacheable_body(args, f), records, first).answer == Some(
            Ok::<int, Failure>(record),
        ),
    ensures
        ({
            let after = meaning::call(expand::cacheable_body(args, f), records, first).records;
            let call = meaning::call(expand::cacheable_body(args, f), after, second);
            &&& call.answer == Some(Ok::<int, Failure>(record))
            &&& call.events == seq![Event::Lookup(place)]
        }),
{
    match first.down {
        Some(failure) => law_cacheable_down(args, f, records, first, place, failure),
        None => if records.dom().contains(place) {
            law_cacheable_hit(args, f, records, first, place);
        } else {
            law_cacheable_miss(args, f, records, first, place);
        },
    }
    let after = meaning::call(expand::cacheable_body(args, f), records, first).records;
    law_cacheable_hit(args, f, after, second, place);
}

/// After a write that failed, a read finds the cache as it was.
pub proof fn law_failed_write_keeps_cache(
    write: CacheEvictArgsView,
    writer: FunctionView,
    read: CacheableArgsView,
    reader: FunctionView,
    records: Records,
    writing: World,
    reading: World,
)
    requires
        (writing.body)(writer.stmts) is Err,
    ensures
        ({
            let after = meaning::call(expand::evict_body(write, writer), records, writing).records;
            meaning::call(expand::cacheable_body(read, reader), after, reading) == meaning::call(
                expand::cacheable_body(read, reader),
                records,
                reading,
            )
        }),
{
    law_evict(write, writer, records, writing);
}

/// After a write that succeeded and dropped a record, a read of that record runs the reader's own
/// statements again.
pub proof fn law_write_then_read_loads(
    write: CacheEvictArgsView,
    writer: FunctionView,
    read: CacheableArgsView,
    reader: FunctionView,
    records: Records,
    writing: World,
    reading: World,
    place: Place,
)
    requires
        (writing.body)(writer.stmts) is Ok,
        writing.down is None,
        dropped_place(write, writer, writing) == Some(place),
        read_place(read, reader, reading) == Some(place),
        reading.down is None,
    ensures
        ({
            let after = meaning::call(expand::evict_body(write, writer), records, writing).records;
            meaning::call(expand::cacheable_body(read, reader), after, reading).events == seq![
                Event::Lookup(place),
                Event::Body(reader.stmts),
            ]
        }),
{
    law_evict(write, writer, records, writing);
    law_cacheable_miss(read, reader, records.remove(place), reading, place);
}

/// After a write, whether it succeeded or not, a read of a record that it does not name is
/// answered from the cache where it was in there.
pub proof fn law_write_keeps_others(
    write: CacheEvictArgsView,
    writer: FunctionView,
    read: CacheableArgsView,
    reader: FunctionView,
    records: Records,
    writing: World,
    reading: World,
    place: Place,
)
    requires
        dropped_place(write, writer, writing) != Some(place),
        read_place(read, reader, reading) == Some(place),
        reading.down is None,
        records.dom().contains(place),
    ensures
        ({
            let after = meaning::call(expand::evict_body(write, writer), records, writing).records;
            let call = meaning::call(expand::cacheable_body(read, reader), after, reading);
            &&& call.answer == Some(answer_of(records[place]))
            &&& call.events == seq![Event::Lookup(place)]
        }),
{
    law_evict(write, writer, records, writing);
    let after = meaning::call(expand::evict_body(write, writer), records, writing).records;
    law_cacheable_hit(read, reader, after, reading, place);
}

/// `all` without an id drops the page lists, as `page` does.
pub proof fn law_all_without_id(args: CacheEvictArgsView, f: FunctionView)
    requires
        args.all,
        args.id is None,
    ensures
        expand::evict_body(args, f) == expand::evict_body(
            CacheEvictArgsView { all: false, page: true, ..args },
            f,
        ),
{
}

/// With `page` and without `all` the record stays: the id does not count.
pub proof fn law_page_alone(args: CacheEvictArgsView, f: FunctionView)
    requires
        args.page,
        !args.all,
    ensures
        expand::evict_body(args, f) == expand::evict_body(
            CacheEvictArgsView { id: None, ..args },
            f,
        ),
{
}

/// `all` does the work of `page` too.
pub proof fn law_all_covers_page(args: CacheEvictArgsView, f: FunctionView)
    requires
        args.all,
    ensures
        expand::evict_body(args, f) == expand::evict_body(
            CacheEvictArgsView { page: false, ..args },
            f,
        ),
{
}

/// A context that is given counts before any parameter.
pub proof fn law_explicit_context(params: Seq<Option<Seq<char>>>, ctx: Seq<Tok>)
    ensures
        expand::context(params, Some(ctx)) == ctx,
{
}

/// Whether a parameter can give the request context.
pub open spec fn gives_context(param: Option<Seq<char>>) -> bool {
    param == Some("param"@) || param == Some("ctx"@)
}

/// Without a context that is given, the first parameter called `param` or `ctx` decides: the
/// context is `&param.context` or `&ctx`.
pub proof fn law_context_of_first(params: Seq<Option<Seq<char>>>, i: int)
    requires
        0 <= i < params.len(),
        gives_context(params[i]),
        forall|j: int| 0 <= j < i ==> !gives_context(#[trigger] params[j]),
    ensures
        expand::context(params, None) == if params[i] == Some("ctx"@) {
            code::context_itself()
        } else {
            code::context_of_param()
        },
    decreases i,
{
    lemma_keys_are_free();
    if i > 0 {
        assert(!gives_context(params[0]));
        let rest = params.skip(1);
        assert forall|j: int| 0 <= j < i - 1 implies !gives_context(#[trigger] rest[j]) by {
            assert(rest[j] == params[j + 1]);
        }
        law_context_of_first(rest, i - 1);
    }
}

/// Without a context that is given and without such a parameter, it is `&param.context`.
pub proof fn law_context_by_default(params: Seq<Option<Seq<char>>>)
    requires
        forall|j: int| 0 <= j < params.len() ==> !gives_context(#[trigger] params[j]),
    ensures
        expand::context(params, None) == code::context_of_param(),
    decreases params.len(),
{
    if params.len() > 0 {
        assert(!gives_context(params[0]));
        let rest = params.skip(1);
        assert forall|j: int| 0 <= j < rest.len() implies !gives_context(#[trigger] rest[j]) by {
            assert(rest[j] == params[j + 1]);
        }
        law_context_by_default(rest);
    }
}

/// Arguments that are refused give the same errors whatever the item is.
pub proof fn law_refused_arguments(args: Seq<Tok>, item: Seq<Tok>, other: Seq<Tok>)
    ensures
        CacheEvictArgsView::parse(args) is Err ==> expand::evict_expansion(args, item)
            == expand::evict_expansion(args, other),
        CacheableArgsView::parse(args) is Err ==> expand::cacheable_expansion(args, item)
            == expand::cacheable_expansion(args, other),
{
}

/// A method and a free function with the same parts get the same expansion.
pub proof fn law_methods_and_functions(args: Seq<Tok>, item: Seq<Tok>, other: Seq<Tok>)
    requires
        expand::definition(item) == expand::definition(other),
    ensures
        expand::evict_expansion(args, item) == expand::evict_expansion(args, other),
        expand::cacheable_expansion(args, item) == expand::cacheable_expansion(args, other),
{
}

/// What comes out for a function is that function with more in its body: all that stands before
/// the body is unchanged, and the attributes inside the body still come first in it.
pub proof fn law_signature_stays(args: Seq<Tok>, item: Seq<Tok>, f: FunctionView, out: Seq<Tok>)
    requires
        f.wf(),
        expand::definition(item) == Some(f),
        (CacheEvictArgsView::parse(args) is Ok && expand::evict_expansion(args, item) == Ok::<
            _,
            Seq<Seq<char>>,
        >(out)) || (CacheableArgsView::parse(args) is Ok && expand::cacheable_expansion(args, item)
            == Ok::<_, Seq<Seq<char>>>(out)),
    ensures
        out.len() == f.shell.len(),
        out.drop_last() == f.shell.drop_last(),
        (f.shell.last(), out.last()) matches (Tok::Group(before, inner), Tok::Group(after, body))
            && before == after && inner.is_prefix_of(body),
{
    assert(out.drop_last() =~= f.shell.drop_last());
}

/// Of two arguments with the same key only the later one counts: the earlier one may be left out.
pub proof fn law_last_argument_counts(
    before: Seq<EntryView>,
    earlier: EntryView,
    between: Seq<EntryView>,
    later: EntryView,
    after: Seq<EntryView>,
)
    requires
        earlier.key() == later.key(),
    ensures
        SettingsView::of(before + seq![earlier] + between + seq![later] + after)
            == SettingsView::of(before + between + seq![later] + after),
{
    let (one, two) = (seq![earlier], seq![later]);
    args::lemma_settings_one(earlier);
    args::lemma_settings_one(later);
    args::lemma_settings_add(before, one);
    args::lemma_settings_add(before + one, between);
    args::lemma_settings_add(before + one + between, two);
    args::lemma_settings_add(before + one + between + two, after);
    args::lemma_settings_add(before, between);
    args::lemma_settings_add(before + between, two);
    args::lemma_settings_add(before + between + two, after);
}

/// For each key the value counts that stands last: what follows with other keys does not change it.
pub proof fn law_last_value_is_held(entries: Seq<EntryView>, i: int)
    requires
        0 <= i < entries.len(),
        forall|j: int| i < j < entries.len() ==> (#[trigger] entries[j]).key() != entries[i].key(),
    ensures
        SettingsView::of(entries).holds(entries[i]),
    decreases entries.len(),
{
    let before = entries.drop_last();
    args::lemma_settings_push(before, entries.last());
    assert(before.push(entries.last()) =~= entries);
    if i < before.len() {
        assert forall|j: int| i < j < before.len() implies (#[trigger] before[j]).key()
            != before[i].key() by {
            assert(before[j] == entries[j]);
        }
        law_last_value_is_held(before, i);
        assert(entries[entries.len() - 1].key() != entries[i].key());
    }
}

/// Whether no two arguments have the same key.
pub open spec fn distinct_keys(entries: Seq<EntryView>) -> bool {
    forall|i: int, j: int|
        0 <= i < j < entries.len() ==> (#[trigger] entries[i]).key() != (
        #[trigger] entries[j]).key()
}

/// Whether two lists have the same arguments, in whatever order.
pub open spec fn same_arguments(a: Seq<EntryView>, b: Seq<EntryView>) -> bool {
    forall|entry: EntryView| #[trigger] a.contains(entry) <==> b.contains(entry)
}

/// For one key, lists with the same arguments and distinct keys set the same.
proof fn lemma_same_for_key(a: Seq<EntryView>, b: Seq<EntryView>, key: Key)
    requires
        distinct_keys(a),
        distinct_keys(b),
        same_arguments(a, b),
    ensures
        ({
            let (x, y) = (SettingsView::of(a), SettingsView::of(b));
            (x.lacks(key) && y.lacks(key)) || exists|entry: EntryView|
                entry.key() == key && #[trigger] x.holds(entry) && y.holds(entry)
        }),
{
    if args::mentions(a, key) {
        let i = choose|i: int| 0 <= i < a.len() && (#[trigger] a[i]).key() == key;
        assert(a.contains(a[i]));
        let j = choose|j: int| 0 <= j < b.len() && b[j] == a[i];
        law_last_value_is_held(a, i);
        law_last_value_is_held(b, j);
        assert(SettingsView::of(a).holds(a[i]));
    } else {
        if args::mentions(b, key) {
            let j = choose|j: int| 0 <= j < b.len() && (#[trigger] b[j]).key() == key;
            assert(b.contains(b[j]));
            assert(a.contains(b[j]));
            let i = choose|i: int| 0 <= i < a.len() && a[i] == b[j];
            assert(a[i].key() == key);
        }
        args::lemma_unmentioned(a, key);
        args::lemma_unmentioned(b, key);
    }
}

/// The order of arguments with distinct keys does not count.
pub proof fn law_order_of_arguments(a: Seq<EntryView>, b: Seq<EntryView>)
    requires
        distinct_keys(a),
        distinct_keys(b),
        same_arguments(a, b),
    ensures
        SettingsView::of(a) == SettingsView::of(b),
{
    lemma_same_for_key(a, b, Key::Target);
    lemma_same_for_key(a, b, Key::Id);
    lemma_same_for_key(a, b, Key::Page);
    lemma_same_for_key(a, b, Key::All);
    lemma_same_for_key(a, b, Key::Ctx);
    lemma_same_for_key(a, b, Key::Cache);
}

/// Two lists that read as the same arguments with distinct keys, in whatever order, and with every
/// group read to its end, give the same.
pub proof fn law_order_in_lists(
    attr: Attr,
    s: Seq<Tok>,
    t: Seq<Tok>,
    a: Seq<EntryView>,
    b: Seq<EntryView>,
)
    requires
        args::entries_of(attr, true, s) == Ok::<_, Fault>((a, None::<Seq<Seq<char>>>)),
        args::entries_of(attr, true, t) == Ok::<_, Fault>((b, None::<Seq<Seq<char>>>)),
        distinct_keys(a),
        distinct_keys(b),
        same_arguments(a, b),
    ensures
        attr is Evict ==> CacheEvictArgsView::parse(s) == CacheEvictArgsView::parse(t),
        attr is Cacheable ==> CacheableArgsView::parse(s) == CacheableArgsView::parse(t),
{
    law_order_of_arguments(a, b);
}

/// A target alone as the first argument reads as the same target under its key, and so do all the
/// arguments: a path takes at least one token.
pub proof fn law_bare_target(attr: Attr, s: Seq<Tok>, joint: bool)
    requires
        !tokens::second_is(s, '='),
    ensures
        ({
            let named = seq![Tok::Ident("target"@), Tok::Punct('=', joint)] + s;
            let shrinks = syntax::path_prefix(s) matches Ok(piece) ==> tokens::weight(piece.rest)
                < tokens::weight(s);
            &&& args::entry_of(attr, true, s) == args::entry_of(attr, true, named)
            &&& s.len() > 0 && shrinks ==> {
                &&& CacheEvictArgsView::parse(s) == CacheEvictArgsView::parse(named)
                &&& CacheableArgsView::parse(s) == CacheableArgsView::parse(named)
            }
        }),
{
    lemma_keys_are_free();
    let key = seq![Tok::Ident("target"@), Tok::Punct('=', joint)];
    let named = key + s;
    assert(named[0] == Tok::Ident("target"@));
    assert(named.skip(1)[0] == Tok::Punct('=', joint));
    assert(named.skip(1).skip(1) =~= s);
    tokens::lemma_weight_add(key, s);
    if let Ok(piece) = syntax::path_prefix(s) {
        tokens::lemma_next_shrinks(piece.rest);
    }
    assert(forall|a: Attr| args::entry_of(a, true, s) == args::entry_of(a, true, named));
}

/// A switch alone reads as the same switch set to `true`, after the first argument, and what
/// follows reads the same.
pub proof fn law_switch_alone(all: bool, rest: Seq<Tok>, joint: bool)
    requires
        !tokens::begins(rest, '='),
    ensures
        ({
            let key = Tok::Ident(if all { "all"@ } else { "page"@ });
            let short = seq![key] + rest;
            let long = seq![key, Tok::Punct('=', joint), Tok::Ident("true"@)] + rest;
            &&& args::entry_of(Attr::Evict, false, short) == args::entry_of(
                Attr::Evict,
                false,
                long,
            )
            &&& args::entries_of(Attr::Evict, false, short) == args::entries_of(
                Attr::Evict,
                false,
                long,
            )
        }),
{
    lemma_keys_are_free();
    let key = Tok::Ident(if all { "all"@ } else { "page"@ });
    let short = seq![key] + rest;
    let long = seq![key, Tok::Punct('=', joint), Tok::Ident("true"@)] + rest;
    assert(short[0] == key);
    assert(short.skip(1) =~= rest);
    assert(long[0] == key);
    assert(long.skip(1)[0] == Tok::Punct('=', joint));
    assert(long.skip(1).skip(1)[0] == Tok::Ident("true"@));
    assert(long.skip(1).skip(1).skip(1) =~= rest);
    tokens::lemma_next_shrinks(short);
    tokens::lemma_next_shrinks(long);
    tokens::lemma_next_shrinks(long.skip(1));
    tokens::lemma_next_shrinks(long.skip(1).skip(1));
    tokens::lemma_next_shrinks(rest);
}

/// The key of a switch.
pub open spec fn switch_key(all: bool) -> Key {
    if all {
        Key::All
    } else {
        Key::Page
    }
}

/// A switch as an argument.
pub open spec fn switch(all: bool, on: bool) -> EntryView {
    if all {
        EntryView::All(on)
    } else {
        EntryView::Page(on)
    }
}

/// What is read, with a switch turned on; or why it is refused.
pub open spec fn switched_on(all: bool, made: Result<CacheEvictArgsView, Fault>) -> Result<
    CacheEvictArgsView,
    Fault,
> {
    match made {
        Ok(args) => if all {
            Ok(CacheEvictArgsView { all: true, ..args })
        } else {
            Ok(CacheEvictArgsView { page: true, ..args })
        },
        Err(fault) => Err(fault),
    }
}

/// Among arguments of which none has the key of a switch, the switch set to `true` turns it on and
/// changes nothing else, and the switch set to `false` does not count.
pub proof fn law_switch_among_arguments(all: bool, before: Seq<EntryView>, after: Seq<EntryView>)
    requires
        !args::mentions(before, switch_key(all)),
        !args::mentions(after, switch_key(all)),
    ensures
        ({
            let without = CacheEvictArgsView::from_settings(SettingsView::of(before + after));
            let with = |on: bool|
                CacheEvictArgsView::from_settings(
                    SettingsView::of(before + seq![switch(all, on)] + after),
                );
            &&& with(true) == switched_on(all, without)
            &&& with(false) == without
        }),
{
    args::lemma_unmentioned(before, switch_key(all));
    args::lemma_unmentioned(after, switch_key(all));
    args::lemma_settings_add(before, after);
    assert forall|on: bool|
        #![trigger switch(all, on)]
        SettingsView::of(before + seq![switch(all, on)] + after) == SettingsView::of(after).over(
            SettingsView::of(before).with(switch(all, on)),
        ) by {
        let one = seq![switch(all, on)];
        args::lemma_settings_one(switch(all, on));
        args::lemma_settings_add(before, one);
        args::lemma_settings_add(before + one, after);
    }
    assert(switch(all, true).key() == switch_key(all));
    assert(switch(all, false).key() == switch_key(all));
}

/// How a switch is read that stands after the first argument: alone, or with a value.
proof fn lemma_switch_reads(all: bool, on: bool, bare: bool, joint: bool, tail: Seq<Tok>)
    requires
        bare ==> on && !tokens::begins(tail, '='),
    ensures
        args::entries_of(Attr::Evict, false, switch_tokens(all, on, bare, joint) + tail)
            == args::joined(
            seq![switch(all, on)],
            None,
            args::entries_of(Attr::Evict, false, args::past_comma(tail)),
        ),
{
    lemma_keys_are_free();
    let key = Tok::Ident(if all { "all"@ } else { "page"@ });
    let s = switch_tokens(all, on, bare, joint) + tail;
    assert(s[0] == key);
    if bare {
        assert(s.skip(1) =~= tail);
    } else {
        assert(s.skip(1)[0] == Tok::Punct('=', joint));
        assert(s.skip(1).skip(1)[0] == Tok::Ident(if on { "true"@ } else { "false"@ }));
        assert(s.skip(1).skip(1).skip(1) =~= tail);
        tokens::lemma_next_shrinks(s.skip(1));
        tokens::lemma_next_shrinks(s.skip(1).skip(1));
    }
    tokens::lemma_next_shrinks(s);
    tokens::lemma_next_shrinks(tail);
}

/// The tokens of a switch: its key alone, or with `=` and a value.
pub open spec fn switch_tokens(all: bool, on: bool, bare: bool, joint: bool) -> Seq<Tok> {
    let key = Tok::Ident(if all { "all"@ } else { "page"@ });
    if bare {
        seq![key]
    } else {
        seq![key, Tok::Punct('=', joint), Tok::Ident(if on { "true"@ } else { "false"@ })]
    }
}

/// Whether `longer` is `list` with `added` put in after its first `n` arguments, with a comma
/// behind it or without: both read the same up to that place and from there on.
pub open spec fn is_added(list: Seq<Tok>, n: nat, added: Seq<Tok>, longer: Seq<Tok>) -> bool {
    match (
        args::split_entries(Attr::Evict, true, list, n),
        args::split_entries(Attr::Evict, true, longer, n),
    ) {
        (Some((done, stray, rest)), Some((same, same_stray, from))) => {
            &&& same == done
            &&& same_stray == stray
            &&& exists|tail: Seq<Tok>|
                {
                    &&& #[trigger] (added + tail) == from
                    &&& !tokens::begins(tail, '=')
                    &&& args::past_comma(tail) == rest
                }
        },
        _ => false,
    }
}

/// A switch that is put into a list of arguments anywhere but in the first place: alone it acts as
/// set to `true`. Where the list does not have its key, it is then on and all else is as without
/// it; and set to `false` it acts as left out. A list that is refused stays so for the same reason.
pub proof fn law_switch_in_list(
    all: bool,
    joint: bool,
    n: nat,
    list: Seq<Tok>,
    alone: Seq<Tok>,
    on: Seq<Tok>,
    off: Seq<Tok>,
)
    requires
        n > 0,
        is_added(list, n, switch_tokens(all, true, true, joint), alone),
        is_added(list, n, switch_tokens(all, true, false, joint), on),
        is_added(list, n, switch_tokens(all, false, false, joint), off),
    ensures
        CacheEvictArgsView::parse(alone) == CacheEvictArgsView::parse(on),
        match args::entries_of(Attr::Evict, true, list) {
            Ok((entries, _)) => !args::mentions(entries, switch_key(all)) ==> {
                &&& CacheEvictArgsView::parse(alone) == switched_on(
                    all,
                    CacheEvictArgsView::parse(list),
                )
                &&& CacheEvictArgsView::parse(off) == CacheEvictArgsView::parse(list)
            },
            Err(fault) => {
                &&& CacheEvictArgsView::parse(list) == Err::<CacheEvictArgsView, _>(fault)
                &&& CacheEvictArgsView::parse(alone) == Err::<CacheEvictArgsView, _>(fault)
                &&& CacheEvictArgsView::parse(off) == Err::<CacheEvictArgsView, _>(fault)
            },
        },
{
    let (done, stray, rest) = args::split_entries(Attr::Evict, true, list, n)->0;
    args::lemma_split_entries(Attr::Evict, true, list, n);
    lemma_added(all, true, true, joint, n, list, alone);
    lemma_added(all, true, false, joint, n, list, on);
    lemma_added(all, false, false, joint, n, list, off);
    if let Ok((after, _)) = args::entries_of(Attr::Evict, false, rest) {
        let entries = done + after;
        if !args::mentions(entries, switch_key(all)) {
            assert forall|i: int| 0 <= i < done.len() implies (#[trigger] done[i]).key()
                != switch_key(all) by {
                assert(entries[i] == done[i]);
            }
            assert forall|i: int| 0 <= i < after.len() implies (#[trigger] after[i]).key()
                != switch_key(all) by {
                assert(entries[done.len() + i] == after[i]);
            }
            law_switch_among_arguments(all, done, after);
        }
    }
}

/// What is read of a list with a switch put in.
proof fn lemma_added(
    all: bool,
    on: bool,
    bare: bool,
    joint: bool,
    n: nat,
    list: Seq<Tok>,
    longer: Seq<Tok>,
)
    requires
        n > 0,
        bare ==> on,
        is_added(list, n, switch_tokens(all, on, bare, joint), longer),
    ensures
        args::split_entries(Attr::Evict, true, list, n) matches Some((done, stray, rest))
            && args::entries_of(Attr::Evict, true, longer) == args::joined(
            done + seq![switch(all, on)],
            stray,
            args::entries_of(Attr::Evict, false, rest),
        ),
{
    let (done, stray, rest) = args::split_entries(Attr::Evict, true, list, n)->0;
    let (_, _, from) = args::split_entries(Attr::Evict, true, longer, n)->0;
    let added = switch_tokens(all, on, bare, joint);
    let tail = choose|tail: Seq<Tok>|
        {
            &&& #[trigger] (added + tail) == from
            &&& !tokens::begins(tail, '=')
            &&& args::past_comma(tail) == rest
        };
    args::lemma_split_entries(Attr::Evict, true, longer, n);
    lemma_switch_reads(all, on, bare, joint, tail);
    if let Ok((after, _)) = args::entries_of(Attr::Evict, false, rest) {
        assert(done + (seq![switch(all, on)] + after) =~= done + seq![switch(all, on)] + after);
    }
}

} // verus!
