//! What the generated code does when it runs.
//!
//! A call is told by what it gives, by what it asks of the cache and of the function's own
//! statements, and by what the cache keeps afterwards.

use crate::code;
use crate::code::{Expr, Name, Scope, Stmt};
use crate::tokens::Tok;
use vstd::prelude::*;

verus! {

/// An error of the application.
pub enum Failure {
    /// The record does not exist.
    NotFound(Seq<char>),
    Other(int),
}

/// What the generated code meets when it runs: what the code that the user wrote stands for, and
/// how the cache behaves.
pub struct World {
    /// The cache key that an expression for an id gives, if it gives one.
    pub key: spec_fn(Seq<Tok>) -> Option<Seq<char>>,
    /// The part of the cache that a cache manager reaches for a type in a request context.
    pub part: spec_fn(Seq<Tok>, Seq<Tok>, Seq<Tok>) -> int,
    /// What the statements of a function give. They leave the cache alone.
    pub body: spec_fn(Seq<Tok>) -> Result<int, Failure>,
    /// The error of a cache that cannot be reached.
    pub down: Option<Failure>,
    /// Whether the cache keeps that a record is absent.
    pub keeps_absent: bool,
}

/// Where a record is kept: the part of the cache, and the key in it.
pub type Place = (int, Seq<char>);

/// What the cache keeps of single records.
pub type Records = Map<Place, Option<int>>;

/// A step that shows outside of the generated code.
pub enum Event {
    /// Statements of the function run.
    Body(Seq<Tok>),
    /// The cache is asked for a record.
    Lookup(Place),
    /// The cache is asked to drop a record.
    DropOne(Place),
    /// A part of the cache is asked to drop the record under a key, if there is one, and its page
    /// lists.
    DropAll(int, Option<Seq<char>>),
    /// A part of the cache is asked to drop its page lists.
    DropPages(int),
}

/// A value of the generated code.
pub enum Value {
    Unit,
    OptKey(Option<Seq<char>>),
    Key(Seq<char>),
    Answer(Result<int, Failure>),
    Loaded(Result<Option<int>, Failure>),
    Found(Option<int>),
}

/// Where the generated code has come to.
pub struct State {
    pub vars: Map<Name, Value>,
    pub records: Records,
    pub events: Seq<Event>,
}

/// How a piece of code ends.
pub enum Flow {
    /// The next statement follows.
    Next,
    /// The piece has a value.
    Value(Value),
    /// The function is left.
    Return(Result<int, Failure>),
    /// The piece makes no sense: a variable is not there or has the wrong type.
    Stuck,
}

impl State {
    /// What a variable holds.
    pub open spec fn var(self, name: Name) -> Value {
        if self.vars.dom().contains(name) {
            self.vars[name]
        } else {
            Value::Unit
        }
    }

    /// A variable gets a value.
    pub open spec fn bind(self, name: Name, value: Value) -> State {
        State { vars: self.vars.insert(name, value), ..self }
    }

    /// A step is taken.
    pub open spec fn log(self, event: Event) -> State {
        State { events: self.events.push(event), ..self }
    }

    /// A record is dropped, where the cache can be reached.
    pub open spec fn forget(self, place: Place, world: World) -> State {
        if world.down is None {
            State { records: self.records.remove(place), ..self }
        } else {
            self
        }
    }
}

/// Asks a part of the cache to drop what a scope says.
pub open spec fn drop_scope(part: int, scope: Scope, state: State, world: World) -> (State, Flow) {
    match scope {
        Scope::Page => (state.log(Event::DropPages(part)), Flow::Value(Value::Unit)),
        Scope::One(name) => match state.var(name) {
            Value::Key(key) => (
                state.log(Event::DropOne((part, key))).forget((part, key), world),
                Flow::Value(Value::Unit),
            ),
            _ => (state, Flow::Stuck),
        },
        Scope::All(name) => match state.var(name) {
            Value::OptKey(Some(key)) => (
                state.log(Event::DropAll(part, Some(key))).forget((part, key), world),
                Flow::Value(Value::Unit),
            ),
            Value::OptKey(None) => (
                state.log(Event::DropAll(part, None)),
                Flow::Value(Value::Unit),
            ),
            _ => (state, Flow::Stuck),
        },
    }
}

/// What the cache does once the loader has run for a place: a record that was loaded is kept, and
/// that there is none is kept by some caches.
pub open spec fn fill(
    place: Place,
    loaded: Result<Option<int>, Failure>,
    state: State,
    world: World,
) -> (State, Flow) {
    match loaded {
        Ok(Some(record)) => (
            State { records: state.records.insert(place, Some(record)), ..state },
            Flow::Value(Value::Found(Some(record))),
        ),
        Ok(None) => (
            if world.keeps_absent {
                State { records: state.records.insert(place, None), ..state }
            } else {
                state
            },
            Flow::Value(Value::Found(None)),
        ),
        Err(failure) => (state, Flow::Return(Err(failure))),
    }
}

/// Runs an expression.
pub open spec fn eval(expr: Expr, state: State, world: World) -> (State, Flow)
    decreases expr,
{
    match expr {
        Expr::Var(name) => (state, Flow::Value(state.var(name))),
        Expr::Run(stmts) => (
            state.log(Event::Body(stmts)),
            Flow::Value(Value::Answer((world.body)(stmts))),
        ),
        Expr::CacheId(id) => (state, Flow::Value(Value::OptKey((world.key)(id)))),
        Expr::Evict { cache, target, ctx, scope } => drop_scope(
            (world.part)(cache, target, ctx),
            scope,
            state,
            world,
        ),
        Expr::Load { cache, target, ctx, key: name, loader } => match state.var(name) {
            Value::Key(key) => {
                let place = ((world.part)(cache, target, ctx), key);
                let asked = state.log(Event::Lookup(place));
                if world.down is Some {
                    (asked, Flow::Return(Err(world.down->0)))
                } else if state.records.dom().contains(place) {
                    (asked, Flow::Value(Value::Found(state.records[place])))
                } else {
                    match run(loader, asked, world) {
                        (after, Flow::Value(Value::Loaded(loaded))) => fill(
                            place,
                            loaded,
                            State { vars: state.vars, ..after },
                            world,
                        ),
                        (after, _) => (after, Flow::Stuck),
                    }
                }
            },
            _ => (state, Flow::Stuck),
        },
        Expr::Absent(name) => match state.var(name) {
            Value::Answer(answer) => (
                state,
                Flow::Value(
                    Value::Loaded(
                        match answer {
                            Ok(record) => Ok(Some(record)),
                            Err(Failure::NotFound(_)) => Ok(None),
                            Err(failure) => Err(failure),
                        },
                    ),
                ),
            ),
            _ => (state, Flow::Stuck),
        },
        Expr::Missing(name) => match state.var(name) {
            Value::Found(found) => (
                state,
                Flow::Value(
                    Value::Answer(
                        match found {
                            Some(record) => Ok(record),
                            None => Err(Failure::NotFound(code::missing_text())),
                        },
                    ),
                ),
            ),
            _ => (state, Flow::Stuck),
        },
    }
}

/// Runs a statement.
pub open spec fn step(stmt: Stmt, state: State, world: World) -> (State, Flow)
    decreases stmt,
{
    match stmt {
        Stmt::Let(name, expr) => match eval(expr, state, world) {
            (after, Flow::Value(value)) => (after.bind(name, value), Flow::Next),
            other => other,
        },
        Stmt::Discard(expr) => match eval(expr, state, world) {
            (after, Flow::Value(_)) => (after, Flow::Next),
            other => other,
        },
        Stmt::IfSome(bound, name, block) => match state.var(name) {
            Value::OptKey(Some(key)) => leave(
                state,
                run(block, state.bind(bound, Value::Key(key)), world),
            ),
            Value::OptKey(None) => (state, Flow::Next),
            _ => (state, Flow::Stuck),
        },
        Stmt::IfOk(name, block) => match state.var(name) {
            Value::Answer(Ok(_)) => leave(state, run(block, state, world)),
            Value::Answer(Err(_)) => (state, Flow::Next),
            _ => (state, Flow::Stuck),
        },
        Stmt::Return(expr) => match eval(expr, state, world) {
            (after, Flow::Value(Value::Answer(answer))) => (after, Flow::Return(answer)),
            (after, Flow::Value(_)) => (after, Flow::Stuck),
            other => other,
        },
        Stmt::Value(expr) => eval(expr, state, world),
    }
}

/// The end of a block: its variables are gone.
pub open spec fn leave(before: State, end: (State, Flow)) -> (State, Flow) {
    (State { vars: before.vars, ..end.0 }, end.1)
}

/// Runs statements in a row.
pub open spec fn run(block: Seq<Stmt>, state: State, world: World) -> (State, Flow)
    decreases block,
{
    if block.len() == 0 {
        (state, Flow::Next)
    } else {
        match step(block[0], state, world) {
            (after, Flow::Next) => run(block.skip(1), after, world),
            (after, Flow::Value(value)) => if block.len() == 1 {
                (after, Flow::Value(value))
            } else {
                (after, Flow::Stuck)
            },
            other => other,
        }
    }
}

/// A call of a function with the given body.
pub struct Call {
    /// What it gives. It is there where the body makes sense.
    pub answer: Option<Result<int, Failure>>,
    /// What it did, in order.
    pub events: Seq<Event>,
    /// What the cache keeps afterwards.
    pub records: Records,
}

/// Calls a function with the given body.
pub open spec fn call(body: Seq<Stmt>, records: Records, world: World) -> Call {
    let (state, flow) = run(
        body,
        State { vars: Map::empty(), records, events: Seq::empty() },
        world,
    );
    Call {
        answer: match flow {
            Flow::Value(Value::Answer(answer)) => Some(answer),
            Flow::Return(answer) => Some(answer),
            _ => None,
        },
        events: state.events,
        records: state.records,
    }
}

} // verus!
