//! The command registry: names bound to bodies, and how a name is
//! dispatched.
//!
//! A command is either a compiled-in body or an alias naming an action
//! symbol. An action symbol is looked up in the built-in action table
//! first and then in the registry itself, so an alias can reach another
//! registered command. Resolution runs on a small budget of hops, which
//! turns an alias cycle into a typed error instead of a hang.

use vstd::prelude::*;
use crate::natives::{NativeCommand, Side, native_outcome, run_native};
use crate::outcome::{Outcome, Snapshot};
use crate::text::{owned, push_str, str_eq, string_views};
use crate::order::{
    sort_strings, texts, sorted_texts, seq_le, seq_lt, str_le, strictly_sorted, lemma_insert_keeps_sorted,
    lemma_seq_lt_at, lemma_seq_lt_prefix, lemma_strictly_sorted_distinct,
};

verus! {

/// Why the registry could not dispatch a name.
#[derive(Debug, Clone, PartialEq, Eq)]
pub enum CommandError {
    /// No command has this name.
    NotFound(String),
    /// A registered command whose action symbol nothing implements.
    Unhandled(String),
    Failed(String),
    /// An alias chain that never reaches a body.
    AliasCycle(String),
}

/// A dispatch failure, as text.
pub enum Failure {
    NotFound(Seq<char>),
    Unhandled(Seq<char>),
    Failed(Seq<char>),
    AliasCycle(Seq<char>),
}

/// The failure an error reports.
pub open spec fn failure_of(e: CommandError) -> Failure {
    match e {
        CommandError::NotFound(s) => Failure::NotFound(s@),
        CommandError::Unhandled(s) => Failure::Unhandled(s@),
        CommandError::Failed(s) => Failure::Failed(s@),
        CommandError::AliasCycle(s) => Failure::AliasCycle(s@),
    }
}

/// The operator-facing message for a failure.
pub open spec fn failure_message(f: Failure) -> Seq<char> {
    match f {
        Failure::NotFound(s) => "command not found: "@ + s,
        Failure::Unhandled(s) => "action `"@ + s + "` is declared but not implemented yet"@,
        Failure::Failed(s) => "command failed: "@ + s,
        Failure::AliasCycle(s) => "alias cycle resolving `"@ + s + "`"@,
    }
}

impl CommandError {
    /// The message shown to the operator.
    pub fn message(&self) -> (m: String)
        ensures
            m@ == failure_message(failure_of(*self)),
    {
        let mut m = String::new();
        match self {
            CommandError::NotFound(s) => {
                push_str(&mut m, "command not found: ");
                push_str(&mut m, s.as_str());
            },
            CommandError::Unhandled(s) => {
                push_str(&mut m, "action `");
                push_str(&mut m, s.as_str());
                push_str(&mut m, "` is declared but not implemented yet");
            },
            CommandError::Failed(s) => {
                push_str(&mut m, "command failed: ");
                push_str(&mut m, s.as_str());
            },
            CommandError::AliasCycle(s) => {
                push_str(&mut m, "alias cycle resolving `");
                push_str(&mut m, s.as_str());
                push_str(&mut m, "`");
            },
        }
        assert(m@ =~= failure_message(failure_of(*self)));
        m
    }
}

/// How a command executes when invoked.
#[derive(Debug, Clone, PartialEq, Eq)]
pub enum Handler {
    /// A compiled-in body.
    Native(NativeCommand),
    /// A dotted action symbol resolved at run time (a Lisp `defcmd`).
    Action(String),
}

/// A handler, with its symbol as text.
pub enum Target {
    Native(NativeCommand),
    Action(Seq<char>),
}

pub open spec fn target_of(h: Handler) -> Target {
    match h {
        Handler::Native(n) => Target::Native(n),
        Handler::Action(s) => Target::Action(s@),
    }
}

#[derive(Debug, Clone, PartialEq, Eq)]
pub struct Command {
    pub name: String,
    pub description: String,
    pub handler: Handler,
}

impl Command {
    /// A built-in command backed by a compiled-in body.
    pub fn native(name: &str, description: &str, handler: NativeCommand) -> (c: Self)
        ensures
            c.name@ == name@,
            c.description@ == description@,
            c.handler == Handler::Native(handler),
    {
        Self { name: owned(name), description: owned(description), handler: Handler::Native(handler) }
    }

    /// A command whose body is the action symbol `action`, resolved at run
    /// time.
    pub fn action(name: &str, description: &str, action: &str) -> (c: Self)
        ensures
            c.name@ == name@,
            c.description@ == description@,
            c.handler matches Handler::Action(a) && a@ == action@,
    {
        Self { name: owned(name), description: owned(description), handler: Handler::Action(owned(action)) }
    }
}

/// What a command advertises about itself.
#[derive(Debug, Clone, PartialEq, Eq)]
pub struct CommandSpec {
    pub name: String,
    pub description: String,
    pub args: Vec<CommandArgSpec>,
}

/// One declared argument of a command.
#[derive(Debug, Clone, PartialEq, Eq)]
pub struct CommandArgSpec {
    pub name: String,
    pub description: String,
    pub required: bool,
    pub variants: Vec<String>,
}

/// The name and description of each spec.
pub open spec fn spec_pairs(v: Seq<CommandSpec>) -> Seq<(Seq<char>, Seq<char>)> {
    v.map_values(|c: CommandSpec| (c.name@, c.description@))
}

/// The names of each spec.
pub open spec fn spec_names(v: Seq<CommandSpec>) -> Seq<Seq<char>> {
    v.map_values(|c: CommandSpec| c.name@)
}

/// `specs` in order of name, each carrying its command's description and
/// no declared arguments.
fn sort_specs(v: Vec<CommandSpec>) -> (r: Vec<CommandSpec>)
    requires
        forall|i: int| 0 <= i < v@.len() ==> (#[trigger] v@[i]).args@.len() == 0,
    ensures
        spec_pairs(r@).to_multiset() == spec_pairs(v@).to_multiset(),
        sorted_texts(spec_names(r@)),
        forall|i: int| 0 <= i < r@.len() ==> (#[trigger] r@[i]).args@.len() == 0,
{
    broadcast use vstd::seq_lib::group_to_multiset_ensures;
    let ghost orig = v@;
    let mut rest = v;
    let total = rest.len();
    let mut out: Vec<CommandSpec> = Vec::new();
    let mut i: usize = 0;
    assert(spec_pairs(out@) =~= Seq::<(Seq<char>, Seq<char>)>::empty());
    while rest.len() > 0
        invariant
            i + rest@.len() == orig.len(),
            total == orig.len(),
            rest@ == orig.subrange(i as int, orig.len() as int),
            forall|k: int| 0 <= k < orig.len() ==> (#[trigger] orig[k]).args@.len() == 0,
            spec_pairs(out@).to_multiset() == spec_pairs(orig.subrange(0, i as int)).to_multiset(),
            sorted_texts(spec_names(out@)),
            forall|k: int| 0 <= k < out@.len() ==> (#[trigger] out@[k]).args@.len() == 0,
        decreases rest@.len(),
    {
        let s = rest.remove(0);
        assert(s == orig[i as int]);
        let mut p: usize = 0;
        while p < out.len() && str_le(out[p].name.as_str(), s.name.as_str())
            invariant
                p <= out@.len(),
                forall|j: int| 0 <= j < p ==> seq_le((#[trigger] out@[j]).name@, s.name@),
            decreases out@.len() - p,
        {
            p += 1;
        }
        let ghost before = spec_names(out@);
        let ghost before_pairs = spec_pairs(out@);
        let ghost old_out = out@;
        proof {
            assert forall|j: int| 0 <= j < p implies seq_le(#[trigger] before[j], s.name@) by {
                assert(before[j] == out@[j].name@);
            }
            if p < out@.len() {
                assert(before[p as int] == out@[p as int].name@);
            }
            lemma_insert_keeps_sorted(before, p as int, s.name@);
        }
        out.insert(p, s);
        proof {
            assert(out@ == old_out.insert(p as int, orig[i as int]));
            assert(spec_names(out@) =~= before.insert(p as int, orig[i as int].name@));
            assert(spec_pairs(out@) =~= before_pairs.insert(p as int, (orig[i as int].name@, orig[i as int].description@)));
            vstd::seq_lib::to_multiset_insert(before_pairs, p as int, (orig[i as int].name@, orig[i as int].description@));
            assert(spec_pairs(orig.subrange(0, i + 1)) =~= spec_pairs(orig.subrange(0, i as int)).push(
                (orig[i as int].name@, orig[i as int].description@),
            ));
            vstd::seq_lib::to_multiset_build(spec_pairs(orig.subrange(0, i as int)), (orig[i as int].name@, orig[i as int].description@));
            assert forall|k: int| 0 <= k < out@.len() implies (#[trigger] out@[k]).args@.len() == 0 by {
                if k < p {
                    assert(out@[k] == old_out[k]);
                } else if k > p {
                    assert(out@[k] == old_out[k - 1]);
                }
            }
        }
        i += 1;
        assert(rest@ =~= orig.subrange(i as int, orig.len() as int));
    }
    assert(orig.subrange(0, i as int) =~= orig);
    out
}

/// The handler of the last command in `es` named `name`.
pub open spec fn lookup(es: Seq<Command>, name: Seq<char>) -> Option<Target>
    decreases es.len(),
{
    if es.len() == 0 {
        None
    } else if es.last().name@ == name {
        Some(target_of(es.last().handler))
    } else {
        lookup(es.drop_last(), name)
    }
}

/// `es` without the commands named `name`, in order.
pub open spec fn without(es: Seq<Command>, name: Seq<char>) -> Seq<Command>
    decreases es.len(),
{
    if es.len() == 0 {
        es
    } else {
        let r = without(es.drop_last(), name);
        if es.last().name@ == name {
            r
        } else {
            r.push(es.last())
        }
    }
}

/// No two commands share a name.
pub open spec fn names_unique(es: Seq<Command>) -> bool {
    forall|i: int, j: int| 0 <= i < j < es.len() ==> (#[trigger] es[i]).name@ != (#[trigger] es[j]).name@
}

/// Some command of `es` is named `name`.
pub open spec fn has_name(es: Seq<Command>, name: Seq<char>) -> bool {
    exists|i: int| 0 <= i < es.len() && (#[trigger] es[i]).name@ == name
}

/// The action symbols escriba implements natively.
pub open spec fn builtin(sym: Seq<char>) -> Option<NativeCommand> {
    if sym == "buffer.save"@ || sym == "buffer.write"@ {
        Some(NativeCommand::Save)
    } else if sym == "buffer.write-all"@ {
        Some(NativeCommand::WriteAll)
    } else if sym == "buffer.undo"@ {
        Some(NativeCommand::Undo)
    } else if sym == "buffer.redo"@ {
        Some(NativeCommand::Redo)
    } else if sym == "buffer.info"@ {
        Some(NativeCommand::Info)
    } else if sym == "editor.quit"@ {
        Some(NativeCommand::Quit)
    } else if sym == "search.clear-highlight"@ {
        Some(NativeCommand::Noh)
    } else {
        None
    }
}

/// How many alias hops a chain may take before it is called a cycle.
pub const ALIAS_FUEL: u8 = 8;

/// What dispatching `name` reaches, with `fuel` hops left: a body, or why
/// there is none. An action symbol is tried against the built-in table
/// first, then, unless it names the command itself, against the registry.
pub open spec fn resolve(es: Seq<Command>, name: Seq<char>, fuel: nat) -> Result<NativeCommand, Failure>
    decreases fuel,
{
    if fuel == 0 {
        Err(Failure::AliasCycle(name))
    } else {
        match lookup(es, name) {
            None => Err(Failure::NotFound(name)),
            Some(Target::Native(n)) => Ok(n),
            Some(Target::Action(sym)) => match builtin(sym) {
                Some(n) => Ok(n),
                None => if sym != name && lookup(es, sym) is Some {
                    resolve(es, sym, (fuel - 1) as nat)
                } else {
                    Err(Failure::Unhandled(sym))
                },
            },
        }
    }
}

/// The built-in body an action symbol names.
fn builtin_action(sym: &str) -> (r: Option<NativeCommand>)
    ensures
        r == builtin(sym@),
{
    if str_eq(sym, "buffer.save") || str_eq(sym, "buffer.write") {
        Some(NativeCommand::Save)
    } else if str_eq(sym, "buffer.write-all") {
        Some(NativeCommand::WriteAll)
    } else if str_eq(sym, "buffer.undo") {
        Some(NativeCommand::Undo)
    } else if str_eq(sym, "buffer.redo") {
        Some(NativeCommand::Redo)
    } else if str_eq(sym, "buffer.info") {
        Some(NativeCommand::Info)
    } else if str_eq(sym, "editor.quit") {
        Some(NativeCommand::Quit)
    } else if str_eq(sym, "search.clear-highlight") {
        Some(NativeCommand::Noh)
    } else {
        None
    }
}

/// Names bound to command bodies; a later registration of a name replaces
/// the earlier one.
#[derive(Debug, Clone, PartialEq, Eq, Default)]
pub struct CommandRegistry {
    commands: Vec<Command>,
}

/// Looking a name up after removing the commands named `m` finds nothing
/// for `m` and what it found before for every other name.
proof fn lemma_lookup_without(es: Seq<Command>, m: Seq<char>, n: Seq<char>)
    ensures
        lookup(without(es, m), n) == if n == m {
            None
        } else {
            lookup(es, n)
        },
    decreases es.len(),
{
    if es.len() > 0 {
        lemma_lookup_without(es.drop_last(), m, n);
        let r = without(es.drop_last(), m);
        if es.last().name@ != m {
            assert(r.push(es.last()).drop_last() =~= r);
        }
    }
}

/// A name has a handler exactly when some command carries it.
pub proof fn lemma_lookup_has_name(es: Seq<Command>, n: Seq<char>)
    ensures
        lookup(es, n) is Some <==> has_name(es, n),
    decreases es.len(),
{
    if es.len() > 0 {
        let d = es.drop_last();
        lemma_lookup_has_name(d, n);
        if has_name(d, n) {
            let k = choose|k: int| 0 <= k < d.len() && (#[trigger] d[k]).name@ == n;
            assert(es[k] == d[k]);
        }
        if has_name(es, n) && es.last().name@ != n {
            let k = choose|k: int| 0 <= k < es.len() && (#[trigger] es[k]).name@ == n;
            assert(d[k] == es[k]);
        }
    }
}

/// Removing a name keeps the others, each once, and drops every entry of
/// that name.
proof fn lemma_without_names(es: Seq<Command>, m: Seq<char>)
    ensures
        forall|i: int| 0 <= i < without(es, m).len() ==> (#[trigger] without(es, m)[i]).name@ != m,
        forall|i: int|
            0 <= i < without(es, m).len() ==> has_name(es, (#[trigger] without(es, m)[i]).name@),
        names_unique(es) ==> names_unique(without(es, m)),
        !has_name(es, m) ==> without(es, m) == es,
        names_unique(es) && has_name(es, m) ==> without(es, m).len() + 1 == es.len(),
    decreases es.len(),
{
    if es.len() > 0 {
        let d = es.drop_last();
        lemma_without_names(d, m);
        let r = without(d, m);
        assert forall|i: int| 0 <= i < r.len() implies has_name(es, (#[trigger] r[i]).name@) by {
            assert(has_name(d, r[i].name@));
            let k = choose|k: int| 0 <= k < d.len() && (#[trigger] d[k]).name@ == r[i].name@;
            assert(es[k] == d[k]);
        }
        if names_unique(es) {
            assert(names_unique(d)) by {
                assert forall|i: int, j: int| 0 <= i < j < d.len() implies (#[trigger] d[i]).name@
                    != (#[trigger] d[j]).name@ by {
                    assert(d[i] == es[i] && d[j] == es[j]);
                }
            }
        }
        if es.last().name@ != m {
            let w = r.push(es.last());
            assert forall|i: int| 0 <= i < w.len() implies has_name(es, (#[trigger] w[i]).name@) by {
                if i == r.len() {
                    assert(es[es.len() - 1].name@ == w[i].name@);
                } else {
                    assert(w[i] == r[i]);
                }
            }
            if names_unique(es) {
                assert forall|i: int, j: int| 0 <= i < j < w.len() implies (#[trigger] w[i]).name@
                    != (#[trigger] w[j]).name@ by {
                    if j == r.len() {
                        assert(w[i] == r[i]);
                        assert(has_name(d, r[i].name@));
                        let k = choose|k: int| 0 <= k < d.len() && (#[trigger] d[k]).name@ == r[i].name@;
                        assert(es[k] == d[k]);
                    } else {
                        assert(w[i] == r[i] && w[j] == r[j]);
                    }
                }
            }
            if !has_name(es, m) {
                assert(!has_name(d, m)) by {
                    if has_name(d, m) {
                        let k = choose|k: int| 0 <= k < d.len() && (#[trigger] d[k]).name@ == m;
                        assert(es[k] == d[k]);
                    }
                }
                assert(es.drop_last().push(es.last()) =~= es);
            }
            if names_unique(es) && has_name(es, m) {
                assert(has_name(d, m)) by {
                    let k = choose|k: int| 0 <= k < es.len() && (#[trigger] es[k]).name@ == m;
                    assert(k != es.len() - 1);
                    assert(d[k] == es[k]);
                }
            }
        } else {
            if names_unique(es) && has_name(es, m) {
                assert(!has_name(d, m)) by {
                    if has_name(d, m) {
                        let k = choose|k: int| 0 <= k < d.len() && (#[trigger] d[k]).name@ == m;
                        assert(es[k] == d[k]);
                        assert(es[k].name@ == es[es.len() - 1].name@);
                    }
                }
            }
        }
    }
}

impl CommandRegistry {
    /// The registered commands, oldest first.
    pub closed spec fn spec_commands(&self) -> Seq<Command> {
        self.commands@
    }

    /// No two registered commands share a name.
    pub open spec fn wf(&self) -> bool {
        names_unique(self.spec_commands())
    }

    /// The handler registered under `name`.
    pub open spec fn spec_lookup(&self, name: Seq<char>) -> Option<Target> {
        lookup(self.spec_commands(), name)
    }

    pub fn new() -> (r: Self)
        ensures
            r.spec_commands() == Seq::<Command>::empty(),
            r.wf(),
    {
        Self { commands: Vec::new() }
    }

    /// Register `command`, replacing any command of the same name.
    pub fn register(&mut self, command: Command)
        ensures
            final(self).spec_commands() == without(old(self).spec_commands(), command.name@).push(command),
            final(self).spec_lookup(command.name@) == Some(target_of(command.handler)),
            forall|n: Seq<char>|
                n != command.name@ ==> #[trigger] final(self).spec_lookup(n) == old(self).spec_lookup(n),
            old(self).wf() ==> final(self).wf(),
            !has_name(old(self).spec_commands(), command.name@) ==> final(self).spec_commands().len()
                == old(self).spec_commands().len() + 1,
            old(self).wf() && has_name(old(self).spec_commands(), command.name@)
                ==> final(self).spec_commands().len() == old(self).spec_commands().len(),
    {
        let mut rest: Vec<Command> = Vec::new();
        std::mem::swap(&mut rest, &mut self.commands);
        let ghost es = rest@;
        let total = rest.len();
        let mut out: Vec<Command> = Vec::new();
        let mut i: usize = 0;
        while rest.len() > 0
            invariant
                i + rest@.len() == es.len(),
                total == es.len(),
                rest@ == es.subrange(i as int, es.len() as int),
                out@ == without(es.subrange(0, i as int), command.name@),
            decreases rest@.len(),
        {
            let e = rest.remove(0);
            assert(es.subrange(0, i + 1).drop_last() =~= es.subrange(0, i as int));
            if !str_eq(e.name.as_str(), command.name.as_str()) {
                out.push(e);
            }
            i += 1;
            assert(rest@ =~= es.subrange(i as int, es.len() as int));
        }
        assert(es.subrange(0, i as int) =~= es);
        let ghost w = out@;
        out.push(command);
        self.commands = out;
        proof {
            let ghost cname = command.name@;
            assert forall|n: Seq<char>| n != cname implies #[trigger] lookup(self.commands@, n) == lookup(es, n) by {
                assert(self.commands@.drop_last() =~= w);
                lemma_lookup_without(es, cname, n);
            }
            assert(self.commands@.drop_last() =~= w);
            lemma_without_names(es, cname);
            if names_unique(es) {
                assert forall|a: int, b: int| 0 <= a < b < self.commands@.len() implies (
                #[trigger] self.commands@[a]).name@ != (#[trigger] self.commands@[b]).name@ by {
                    if b == w.len() {
                        assert(self.commands@[a] == w[a]);
                    } else {
                        assert(self.commands@[a] == w[a] && self.commands@[b] == w[b]);
                    }
                }
            }
        }
    }

    /// Is `name` registered?
    pub fn contains(&self, name: &str) -> (b: bool)
        ensures
            b == self.spec_lookup(name@) is Some,
    {
        self.find(name).is_some()
    }

    /// The last command registered under `name`.
    fn find(&self, name: &str) -> (r: Option<&Command>)
        ensures
            match r {
                Some(c) => c.name@ == name@ && self.spec_lookup(name@) == Some(target_of(c.handler)),
                None => self.spec_lookup(name@) is None,
            },
    {
        let mut i = self.commands.len();
        assert(self.commands@.subrange(0, i as int) =~= self.commands@);
        while i > 0
            invariant
                i <= self.commands@.len(),
                lookup(self.commands@.subrange(0, i as int), name@) == lookup(self.commands@, name@),
            decreases i,
        {
            let c = &self.commands[i - 1];
            let ghost pre = self.commands@.subrange(0, i as int);
            assert(pre.last() == *c);
            if str_eq(c.name.as_str(), name) {
                return Some(c);
            }
            assert(pre.drop_last() =~= self.commands@.subrange(0, i - 1));
            i -= 1;
        }
        None
    }

    /// The number of registered commands.
    pub fn len(&self) -> (n: usize)
        ensures
            n == self.spec_commands().len(),
    {
        self.commands.len()
    }

    /// True when no commands are registered.
    pub fn is_empty(&self) -> (b: bool)
        ensures
            b == (self.spec_commands().len() == 0),
    {
        self.commands.len() == 0
    }

    /// Follow `name` to the body it reaches, with `fuel` hops left.
    fn resolve_bounded(&self, name: &str, fuel: u8) -> (r: Result<NativeCommand, CommandError>)
        ensures
            match resolve(self.spec_commands(), name@, fuel as nat) {
                Ok(n) => r == Ok::<NativeCommand, CommandError>(n),
                Err(f) => r matches Err(e) && failure_of(e) == f,
            },
        decreases fuel,
    {
        if fuel == 0 {
            return Err(CommandError::AliasCycle(owned(name)));
        }
        let cmd = match self.find(name) {
            None => return Err(CommandError::NotFound(owned(name))),
            Some(c) => c,
        };
        match &cmd.handler {
            Handler::Native(n) => Ok(*n),
            Handler::Action(sym) => match builtin_action(sym.as_str()) {
                Some(n) => Ok(n),
                None => {
                    if !str_eq(sym.as_str(), name) && self.contains(sym.as_str()) {
                        self.resolve_bounded(sym.as_str(), fuel - 1)
                    } else {
                        Err(CommandError::Unhandled(owned(sym.as_str())))
                    }
                },
            },
        }
    }

    /// Dispatch `name`: run the body it resolves to on `snap` with `args`.
    /// `Err` when the registry cannot dispatch at all; `Ok` carries what
    /// the body reported.
    pub fn run(&self, name: &str, snap: &Snapshot, args: &[String]) -> (r: Result<Outcome, CommandError>)
        ensures
            match resolve(self.spec_commands(), name@, ALIAS_FUEL as nat) {
                Ok(n) => r matches Ok(o) && native_outcome(n, *snap, string_views(args@), o),
                Err(f) => r matches Err(e) && failure_of(e) == f,
            },
    {
        match self.resolve_bounded(name, ALIAS_FUEL) {
            Ok(n) => Ok(run_native(n, snap, args)),
            Err(e) => Err(e),
        }
    }

    /// What each registered command advertises, in order of name.
    pub fn specs(&self) -> (r: Vec<CommandSpec>)
        ensures
            spec_pairs(r@).to_multiset() == self.spec_commands().map_values(
                |c: Command| (c.name@, c.description@),
            ).to_multiset(),
            sorted_texts(spec_names(r@)),
            forall|i: int| 0 <= i < r@.len() ==> (#[trigger] r@[i]).args@.len() == 0,
    {
        let mut v: Vec<CommandSpec> = Vec::new();
        let mut i: usize = 0;
        while i < self.commands.len()
            invariant
                i <= self.commands@.len(),
                v@.len() == i,
                forall|k: int|
                    0 <= k < i ==> (#[trigger] v@[k]).name@ == self.commands@[k].name@ && v@[k].description@
                        == self.commands@[k].description@ && v@[k].args@.len() == 0,
            decreases self.commands@.len() - i,
        {
            let c = &self.commands[i];
            v.push(CommandSpec { name: c.name.clone(), description: c.description.clone(), args: Vec::new() });
            i += 1;
        }
        assert(spec_pairs(v@) =~= self.commands@.map_values(|c: Command| (c.name@, c.description@)));
        sort_specs(v)
    }

    /// The registered names, sorted.
    pub fn names(&self) -> (r: Vec<String>)
        ensures
            texts(r@).to_multiset() == self.spec_commands().map_values(|c: Command| c.name@).to_multiset(),
            sorted_texts(texts(r@)),
    {
        let mut v: Vec<String> = Vec::new();
        let mut i: usize = 0;
        while i < self.commands.len()
            invariant
                i <= self.commands@.len(),
                v@.len() == i,
                forall|k: int| 0 <= k < i ==> (#[trigger] v@[k])@ == self.commands@[k].name@,
            decreases self.commands@.len() - i,
        {
            let n = self.commands[i].name.clone();
            v.push(n);
            i += 1;
        }
        assert(texts(v@) =~= self.commands@.map_values(|c: Command| c.name@));
        sort_strings(v)
    }
}

/// An alias whose symbol is no built-in but names a registered body
/// dispatches to that body.
pub proof fn lemma_alias_reaches_body(es: Seq<Command>, alias: Seq<char>, sym: Seq<char>, n: NativeCommand)
    requires
        lookup(es, alias) == Some(Target::Action(sym)),
        builtin(sym) is None,
        sym != alias,
        lookup(es, sym) == Some(Target::Native(n)),
    ensures
        resolve(es, alias, ALIAS_FUEL as nat) == Ok::<NativeCommand, Failure>(n),
{
    assert(resolve(es, sym, (ALIAS_FUEL - 1) as nat) == Ok::<NativeCommand, Failure>(n));
}

/// A built-in action symbol is honoured before the registry is consulted:
/// no registered command can shadow it.
pub proof fn lemma_builtin_first(es: Seq<Command>, alias: Seq<char>, sym: Seq<char>, n: NativeCommand, fuel: nat)
    requires
        lookup(es, alias) == Some(Target::Action(sym)),
        builtin(sym) == Some(n),
        fuel > 0,
    ensures
        resolve(es, alias, fuel) == Ok::<NativeCommand, Failure>(n),
{
}

/// An alias naming itself, and no built-in, is reported as unhandled under
/// its own name.
pub proof fn lemma_self_alias(es: Seq<Command>, alias: Seq<char>, fuel: nat)
    requires
        lookup(es, alias) == Some(Target::Action(alias)),
        builtin(alias) is None,
        fuel > 0,
    ensures
        resolve(es, alias, fuel) == Err::<NativeCommand, Failure>(Failure::Unhandled(alias)),
{
}

/// Two aliases naming each other never reach a body: dispatch ends in an
/// alias-cycle report, whatever the budget.
pub proof fn lemma_alias_cycle(es: Seq<Command>, a: Seq<char>, b: Seq<char>, fuel: nat)
    requires
        lookup(es, a) == Some(Target::Action(b)),
        lookup(es, b) == Some(Target::Action(a)),
        a != b,
        builtin(a) is None,
        builtin(b) is None,
    ensures
        resolve(es, a, fuel) is Err,
        resolve(es, a, fuel)->Err_0 is AliasCycle,
        resolve(es, b, fuel) is Err,
        resolve(es, b, fuel)->Err_0 is AliasCycle,
    decreases fuel,
{
    if fuel > 0 {
        lemma_alias_cycle(es, a, b, (fuel - 1) as nat);
    }
}

/// A name nothing is registered under is reported as not found.
pub proof fn lemma_unregistered_not_found(es: Seq<Command>, name: Seq<char>, fuel: nat)
    requires
        lookup(es, name) is None,
        fuel > 0,
    ensures
        resolve(es, name, fuel) == Err::<NativeCommand, Failure>(Failure::NotFound(name)),
{
}

/// The built-in command set: each name, its description and its handler,
/// in the order of their names.
pub open spec fn spec_default_table() -> Seq<(Seq<char>, Seq<char>, Target)> {
    seq![
        ("buffer-info"@, "Print the active buffer summary"@, Target::Native(NativeCommand::Info)),
        ("buffer.delete"@, "Close the active buffer"@, Target::Native(NativeCommand::BufferDelete)),
        ("buffer.next"@, "Go to the next buffer"@, Target::Native(NativeCommand::BufferNext)),
        ("buffer.prev"@, "Go to the previous buffer"@, Target::Native(NativeCommand::BufferPrev)),
        ("buffer.write-all"@, "Write every modified buffer"@, Target::Native(NativeCommand::WriteAll)),
        ("comment.toggle-block"@, "Toggle the comment on the current line"@, Target::Native(NativeCommand::CommentToggle)),
        ("comment.toggle-line"@, "Toggle the comment on the current line"@, Target::Native(NativeCommand::CommentToggle)),
        ("conflict.choose-both"@, "Resolve the conflict keeping both"@, Target::Native(NativeCommand::ChooseSide { side: Side::Both })),
        ("conflict.choose-ours"@, "Resolve the conflict keeping ours"@, Target::Native(NativeCommand::ChooseSide { side: Side::Ours })),
        ("conflict.choose-theirs"@, "Resolve the conflict keeping theirs"@, Target::Native(NativeCommand::ChooseSide { side: Side::Theirs })),
        ("conflict.next"@, "Go to the next merge conflict"@, Target::Native(NativeCommand::ConflictWalk { forward: true })),
        ("conflict.prev"@, "Go to the previous merge conflict"@, Target::Native(NativeCommand::ConflictWalk { forward: false })),
        ("exit-write"@, "Write the active buffer if modified, then exit"@, Target::Native(NativeCommand::ExitWrite)),
        ("files.open"@, "Browse files under the working directory"@, Target::Native(NativeCommand::WalkPicker { project: false })),
        ("files.open-parent"@, "Browse files from the parent directory"@, Target::Native(NativeCommand::ParentPicker)),
        ("noh"@, "Stop highlighting matches, keep the pattern"@, Target::Action("search.clear-highlight"@)),
        ("nohl"@, "Stop highlighting matches, keep the pattern"@, Target::Action("search.clear-highlight"@)),
        ("nohlsearch"@, "Stop highlighting matches, keep the pattern"@, Target::Action("search.clear-highlight"@)),
        ("pane.down"@, "Focus the window below"@, Target::Native(NativeCommand::FocusDir { dx: 0, dy: 1 })),
        ("pane.left"@, "Focus the window to the left"@, Target::Native(NativeCommand::FocusDir { dx: -1i8, dy: 0i8 })),
        ("pane.right"@, "Focus the window to the right"@, Target::Native(NativeCommand::FocusDir { dx: 1, dy: 0 })),
        ("pane.up"@, "Focus the window above"@, Target::Native(NativeCommand::FocusDir { dx: 0i8, dy: -1i8 })),
        ("picker.buffers"@, "Pick an open buffer"@, Target::Native(NativeCommand::OpenPicker { commands: false })),
        ("picker.commands"@, "Pick a command"@, Target::Native(NativeCommand::OpenPicker { commands: true })),
        ("picker.files"@, "Pick a file under the working directory"@, Target::Native(NativeCommand::WalkPicker { project: false })),
        ("picker.grep"@, "Search the project for a pattern"@, Target::Native(NativeCommand::GrepPicker)),
        ("picker.help"@, "Search every keybinding"@, Target::Native(NativeCommand::HelpPicker)),
        ("picker.project"@, "Pick a project root"@, Target::Native(NativeCommand::WalkPicker { project: true })),
        ("quit"@, "Exit the editor, unless a buffer is modified"@, Target::Native(NativeCommand::QuitChecked { all: false })),
        ("quit!"@, "Exit the editor, discarding unsaved changes"@, Target::Native(NativeCommand::Quit)),
        ("quit-all"@, "Exit the editor, unless any buffer is modified"@, Target::Native(NativeCommand::QuitChecked { all: true })),
        ("quit-all!"@, "Exit the editor, discarding every unsaved change"@, Target::Native(NativeCommand::Quit)),
        ("redo"@, "Redo the last undone change"@, Target::Native(NativeCommand::Redo)),
        ("save"@, "Write the active buffer to disk"@, Target::Native(NativeCommand::Save)),
        ("todo.next"@, "Go to the next TODO/FIXME marker"@, Target::Native(NativeCommand::TodoWalk { forward: true })),
        ("todo.prev"@, "Go to the previous TODO/FIXME marker"@, Target::Native(NativeCommand::TodoWalk { forward: false })),
        ("trouble.document"@, "Show findings in this buffer"@, Target::Native(NativeCommand::FindingsPicker { workspace: false })),
        ("trouble.toggle"@, "Show located findings"@, Target::Native(NativeCommand::FindingsPicker { workspace: true })),
        ("trouble.workspace"@, "Show findings across the workspace"@, Target::Native(NativeCommand::FindingsPicker { workspace: true })),
        ("undo"@, "Undo the last change"@, Target::Native(NativeCommand::Undo)),
        ("window.close"@, "Close the active window (:close)"@, Target::Native(NativeCommand::CloseWindow)),
        ("window.split"@, "Split the window horizontally (:sp)"@, Target::Native(NativeCommand::SplitWindow { stacked: true })),
        ("window.vsplit"@, "Split the window vertically (:vsp)"@, Target::Native(NativeCommand::SplitWindow { stacked: false })),
        ("write-quit"@, "Write the active buffer, then exit"@, Target::Native(NativeCommand::WriteQuit)),
        ("write-quit-all"@, "Write every modified buffer, then exit"@, Target::Native(NativeCommand::WriteQuitAll)),
    ]
}

/// The names of the built-in commands, in table order.
pub open spec fn default_names() -> Seq<Seq<char>> {
    spec_default_table().map_values(|e: (Seq<char>, Seq<char>, Target)| e.0)
}

/// The built-in names are in strictly increasing order, so no two are
/// the same.
#[verifier::rlimit(100)]
pub proof fn lemma_default_names_strictly_sorted()
    ensures
        strictly_sorted(default_names()),
        default_names().len() == 45,
{
    let ns = default_names();
    assert(ns.len() == 45);
    assert forall|j: int| 0 <= j < ns.len() - 1 implies seq_lt(#[trigger] ns[j], ns[j + 1]) by {
        if j == 0 {
            reveal_strlit("buffer-info");
            reveal_strlit("buffer.delete");
            lemma_seq_lt_at("buffer-info"@, "buffer.delete"@, 6);
        } else if j == 1 {
            reveal_strlit("buffer.delete");
            reveal_strlit("buffer.next");
            lemma_seq_lt_at("buffer.delete"@, "buffer.next"@, 7);
        } else if j == 2 {
            reveal_strlit("buffer.next");
            reveal_strlit("buffer.prev");
            lemma_seq_lt_at("buffer.next"@, "buffer.prev"@, 7);
        } else if j == 3 {
            reveal_strlit("buffer.prev");
            reveal_strlit("buffer.write-all");
            lemma_seq_lt_at("buffer.prev"@, "buffer.write-all"@, 7);
        } else if j == 4 {
            reveal_strlit("buffer.write-all");
            reveal_strlit("comment.toggle-block");
            lemma_seq_lt_at("buffer.write-all"@, "comment.toggle-block"@, 0);
        } else if j == 5 {
            reveal_strlit("comment.toggle-block");
            reveal_strlit("comment.toggle-line");
            lemma_seq_lt_at("comment.toggle-block"@, "comment.toggle-line"@, 15);
        } else if j == 6 {
            reveal_strlit("comment.toggle-line");
            reveal_strlit("conflict.choose-both");
            lemma_seq_lt_at("comment.toggle-line"@, "conflict.choose-both"@, 2);
        } else if j == 7 {
            reveal_strlit("conflict.choose-both");
            reveal_strlit("conflict.choose-ours");
            lemma_seq_lt_at("conflict.choose-both"@, "conflict.choose-ours"@, 16);
        } else if j == 8 {
            reveal_strlit("conflict.choose-ours");
            reveal_strlit("conflict.choose-theirs");
            lemma_seq_lt_at("conflict.choose-ours"@, "conflict.choose-theirs"@, 16);
        } else if j == 9 {
            reveal_strlit("conflict.choose-theirs");
            reveal_strlit("conflict.next");
            lemma_seq_lt_at("conflict.choose-theirs"@, "conflict.next"@, 9);
        } else if j == 10 {
            reveal_strlit("conflict.next");
            reveal_strlit("conflict.prev");
            lemma_seq_lt_at("conflict.next"@, "conflict.prev"@, 9);
        } else if j == 11 {
            reveal_strlit("conflict.prev");
            reveal_strlit("exit-write");
            lemma_seq_lt_at("conflict.prev"@, "exit-write"@, 0);
        } else if j == 12 {
            reveal_strlit("exit-write");
            reveal_strlit("files.open");
            lemma_seq_lt_at("exit-write"@, "files.open"@, 0);
        } else if j == 13 {
            reveal_strlit("files.open");
            reveal_strlit("files.open-parent");
            lemma_seq_lt_prefix("files.open"@, "files.open-parent"@);
        } else if j == 14 {
            reveal_strlit("files.open-parent");
            reveal_strlit("noh");
            lemma_seq_lt_at("files.open-parent"@, "noh"@, 0);
        } else if j == 15 {
            reveal_strlit("noh");
            reveal_strlit("nohl");
            lemma_seq_lt_prefix("noh"@, "nohl"@);
        } else if j == 16 {
            reveal_strlit("nohl");
            reveal_strlit("nohlsearch");
            lemma_seq_lt_prefix("nohl"@, "nohlsearch"@);
        } else if j == 17 {
            reveal_strlit("nohlsearch");
            reveal_strlit("pane.down");
            lemma_seq_lt_at("nohlsearch"@, "pane.down"@, 0);
        } else if j == 18 {
            reveal_strlit("pane.down");
            reveal_strlit("pane.left");
            lemma_seq_lt_at("pane.down"@, "pane.left"@, 5);
        } else if j == 19 {
            reveal_strlit("pane.left");
            reveal_strlit("pane.right");
            lemma_seq_lt_at("pane.left"@, "pane.right"@, 5);
        } else if j == 20 {
            reveal_strlit("pane.right");
            reveal_strlit("pane.up");
            lemma_seq_lt_at("pane.right"@, "pane.up"@, 5);
        } else if j == 21 {
            reveal_strlit("pane.up");
            reveal_strlit("picker.buffers");
            lemma_seq_lt_at("pane.up"@, "picker.buffers"@, 1);
        } else if j == 22 {
            reveal_strlit("picker.buffers");
            reveal_strlit("picker.commands");
            lemma_seq_lt_at("picker.buffers"@, "picker.commands"@, 7);
        } else if j == 23 {
            reveal_strlit("picker.commands");
            reveal_strlit("picker.files");
            lemma_seq_lt_at("picker.commands"@, "picker.files"@, 7);
        } else if j == 24 {
            reveal_strlit("picker.files");
            reveal_strlit("picker.grep");
            lemma_seq_lt_at("picker.files"@, "picker.grep"@, 7);
        } else if j == 25 {
            reveal_strlit("picker.grep");
            reveal_strlit("picker.help");
            lemma_seq_lt_at("picker.grep"@, "picker.help"@, 7);
        } else if j == 26 {
            reveal_strlit("picker.help");
            reveal_strlit("picker.project");
            lemma_seq_lt_at("picker.help"@, "picker.project"@, 7);
        } else if j == 27 {
            reveal_strlit("picker.project");
            reveal_strlit("quit");
            lemma_seq_lt_at("picker.project"@, "quit"@, 0);
        } else if j == 28 {
            reveal_strlit("quit");
            reveal_strlit("quit!");
            lemma_seq_lt_prefix("quit"@, "quit!"@);
        } else if j == 29 {
            reveal_strlit("quit!");
            reveal_strlit("quit-all");
            lemma_seq_lt_at("quit!"@, "quit-all"@, 4);
        } else if j == 30 {
            reveal_strlit("quit-all");
            reveal_strlit("quit-all!");
            lemma_seq_lt_prefix("quit-all"@, "quit-all!"@);
        } else if j == 31 {
            reveal_strlit("quit-all!");
            reveal_strlit("redo");
            lemma_seq_lt_at("quit-all!"@, "redo"@, 0);
        } else if j == 32 {
            reveal_strlit("redo");
            reveal_strlit("save");
            lemma_seq_lt_at("redo"@, "save"@, 0);
        } else if j == 33 {
            reveal_strlit("save");
            reveal_strlit("todo.next");
            lemma_seq_lt_at("save"@, "todo.next"@, 0);
        } else if j == 34 {
            reveal_strlit("todo.next");
            reveal_strlit("todo.prev");
            lemma_seq_lt_at("todo.next"@, "todo.prev"@, 5);
        } else if j == 35 {
            reveal_strlit("todo.prev");
            reveal_strlit("trouble.document");
            lemma_seq_lt_at("todo.prev"@, "trouble.document"@, 1);
        } else if j == 36 {
            reveal_strlit("trouble.document");
            reveal_strlit("trouble.toggle");
            lemma_seq_lt_at("trouble.document"@, "trouble.toggle"@, 8);
        } else if j == 37 {
            reveal_strlit("trouble.toggle");
            reveal_strlit("trouble.workspace");
            lemma_seq_lt_at("trouble.toggle"@, "trouble.workspace"@, 8);
        } else if j == 38 {
            reveal_strlit("trouble.workspace");
            reveal_strlit("undo");
            lemma_seq_lt_at("trouble.workspace"@, "undo"@, 0);
        } else if j == 39 {
            reveal_strlit("undo");
            reveal_strlit("window.close");
            lemma_seq_lt_at("undo"@, "window.close"@, 0);
        } else if j == 40 {
            reveal_strlit("window.close");
            reveal_strlit("window.split");
            lemma_seq_lt_at("window.close"@, "window.split"@, 7);
        } else if j == 41 {
            reveal_strlit("window.split");
            reveal_strlit("window.vsplit");
            lemma_seq_lt_at("window.split"@, "window.vsplit"@, 7);
        } else if j == 42 {
            reveal_strlit("window.vsplit");
            reveal_strlit("write-quit");
            lemma_seq_lt_at("window.vsplit"@, "write-quit"@, 1);
        } else if j == 43 {
            reveal_strlit("write-quit");
            reveal_strlit("write-quit-all");
            lemma_seq_lt_prefix("write-quit"@, "write-quit-all"@);
        }
    }
}

/// A command as its name, description and handler.
pub open spec fn entry_of(c: Command) -> (Seq<char>, Seq<char>, Target) {
    (c.name@, c.description@, target_of(c.handler))
}

impl CommandRegistry {
    /// The built-in command set.
    #[verifier::rlimit(60)]
    pub fn default_set() -> (r: Self)
        ensures
            r.spec_commands().map_values(|c: Command| entry_of(c)) == spec_default_table(),
            r.wf(),
    {
        let mut r = Self::new();
        r.commands.push(Command::native("buffer-info", "Print the active buffer summary", NativeCommand::Info));
        r.commands.push(Command::native("buffer.delete", "Close the active buffer", NativeCommand::BufferDelete));
        r.commands.push(Command::native("buffer.next", "Go to the next buffer", NativeCommand::BufferNext));
        r.commands.push(Command::native("buffer.prev", "Go to the previous buffer", NativeCommand::BufferPrev));
        r.commands.push(Command::native("buffer.write-all", "Write every modified buffer", NativeCommand::WriteAll));
        r.commands.push(Command::native("comment.toggle-block", "Toggle the comment on the current line", NativeCommand::CommentToggle));
        r.commands.push(Command::native("comment.toggle-line", "Toggle the comment on the current line", NativeCommand::CommentToggle));
        r.commands.push(Command::native("conflict.choose-both", "Resolve the conflict keeping both", NativeCommand::ChooseSide { side: Side::Both }));
        r.commands.push(Command::native("conflict.choose-ours", "Resolve the conflict keeping ours", NativeCommand::ChooseSide { side: Side::Ours }));
        r.commands.push(Command::native("conflict.choose-theirs", "Resolve the conflict keeping theirs", NativeCommand::ChooseSide { side: Side::Theirs }));
        r.commands.push(Command::native("conflict.next", "Go to the next merge conflict", NativeCommand::ConflictWalk { forward: true }));
        r.commands.push(Command::native("conflict.prev", "Go to the previous merge conflict", NativeCommand::ConflictWalk { forward: false }));
        r.commands.push(Command::native("exit-write", "Write the active buffer if modified, then exit", NativeCommand::ExitWrite));
        r.commands.push(Command::native("files.open", "Browse files under the working directory", NativeCommand::WalkPicker { project: false }));
        r.commands.push(Command::native("files.open-parent", "Browse files from the parent directory", NativeCommand::ParentPicker));
        r.commands.push(Command::action("noh", "Stop highlighting matches, keep the pattern", "search.clear-highlight"));
        r.commands.push(Command::action("nohl", "Stop highlighting matches, keep the pattern", "search.clear-highlight"));
        r.commands.push(Command::action("nohlsearch", "Stop highlighting matches, keep the pattern", "search.clear-highlight"));
        r.commands.push(Command::native("pane.down", "Focus the window below", NativeCommand::FocusDir { dx: 0, dy: 1 }));
        r.commands.push(Command::native("pane.left", "Focus the window to the left", NativeCommand::FocusDir { dx: -1, dy: 0 }));
        r.commands.push(Command::native("pane.right", "Focus the window to the right", NativeCommand::FocusDir { dx: 1, dy: 0 }));
        r.commands.push(Command::native("pane.up", "Focus the window above", NativeCommand::FocusDir { dx: 0, dy: -1 }));
        r.commands.push(Command::native("picker.buffers", "Pick an open buffer", NativeCommand::OpenPicker { commands: false }));
        r.commands.push(Command::native("picker.commands", "Pick a command", NativeCommand::OpenPicker { commands: true }));
        r.commands.push(Command::native("picker.files", "Pick a file under the working directory", NativeCommand::WalkPicker { project: false }));
        r.commands.push(Command::native("picker.grep", "Search the project for a pattern", NativeCommand::GrepPicker));
        r.commands.push(Command::native("picker.help", "Search every keybinding", NativeCommand::HelpPicker));
        r.commands.push(Command::native("picker.project", "Pick a project root", NativeCommand::WalkPicker { project: true }));
        r.commands.push(Command::native("quit", "Exit the editor, unless a buffer is modified", NativeCommand::QuitChecked { all: false }));
        r.commands.push(Command::native("quit!", "Exit the editor, discarding unsaved changes", NativeCommand::Quit));
        r.commands.push(Command::native("quit-all", "Exit the editor, unless any buffer is modified", NativeCommand::QuitChecked { all: true }));
        r.commands.push(Command::native("quit-all!", "Exit the editor, discarding every unsaved change", NativeCommand::Quit));
        r.commands.push(Command::native("redo", "Redo the last undone change", NativeCommand::Redo));
        r.commands.push(Command::native("save", "Write the active buffer to disk", NativeCommand::Save));
        r.commands.push(Command::native("todo.next", "Go to the next TODO/FIXME marker", NativeCommand::TodoWalk { forward: true }));
        r.commands.push(Command::native("todo.prev", "Go to the previous TODO/FIXME marker", NativeCommand::TodoWalk { forward: false }));
        r.commands.push(Command::native("trouble.document", "Show findings in this buffer", NativeCommand::FindingsPicker { workspace: false }));
        r.commands.push(Command::native("trouble.toggle", "Show located findings", NativeCommand::FindingsPicker { workspace: true }));
        r.commands.push(Command::native("trouble.workspace", "Show findings across the workspace", NativeCommand::FindingsPicker { workspace: true }));
        r.commands.push(Command::native("undo", "Undo the last change", NativeCommand::Undo));
        r.commands.push(Command::native("window.close", "Close the active window (:close)", NativeCommand::CloseWindow));
        r.commands.push(Command::native("window.split", "Split the window horizontally (:sp)", NativeCommand::SplitWindow { stacked: true }));
        r.commands.push(Command::native("window.vsplit", "Split the window vertically (:vsp)", NativeCommand::SplitWindow { stacked: false }));
        r.commands.push(Command::native("write-quit", "Write the active buffer, then exit", NativeCommand::WriteQuit));
        r.commands.push(Command::native("write-quit-all", "Write every modified buffer, then exit", NativeCommand::WriteQuitAll));
        assert(r.commands@.map_values(|c: Command| entry_of(c)) =~= spec_default_table());
        proof {
            lemma_default_names_strictly_sorted();
            lemma_strictly_sorted_distinct(default_names());
            let cs = r.commands@;
            assert forall|i: int, j: int| 0 <= i < j < cs.len() implies (#[trigger] cs[i]).name@
                != (#[trigger] cs[j]).name@ by {
                assert(entry_of(cs[i]) == spec_default_table()[i]);
                assert(entry_of(cs[j]) == spec_default_table()[j]);
                assert(default_names()[i] != default_names()[j]);
            }
        }
        r
    }
}

} // verus!
