//! The actor's decisions: one command in, the registry updated, one action out.
//! Whoever runs the actor performs the action (answers the request, starts the
//! streaming of a found file); the decisions themselves are made here.

use vstd::prelude::*;
use crate::registry::{Entry, Model, Registry, registered, dispatched, lookup};

verus! {

/// A command sent to the actor. `R` carries what is needed to answer a
/// request (its reply and body channels); the actor only passes it on.
pub enum Command<F, R> {
    Register { path: String, file: F, name: String },
    Dispatch { path: String, reply: R },
}

/// What must be done once a command has been applied.
pub enum Action<F, R> {
    /// The registration is stored; nothing to answer.
    Stored,
    /// The requested path is not registered: answer "not found".
    NotFound { reply: R },
    /// The entry was taken out: answer with its name and stream its file.
    Found { reply: R, entry: Entry<F> },
}

/// A command as the registry sees it.
pub enum Op<F> {
    Put { path: Seq<char>, file: F, name: Seq<char> },
    Take { path: Seq<char> },
}

impl<F, R> Command<F, R> {
    pub open spec fn op(&self) -> Op<F> {
        match self {
            Command::Register { path, file, name } => Op::Put { path: path@, file: *file, name: name@ },
            Command::Dispatch { path, .. } => Op::Take { path: path@ },
        }
    }
}

/// The registry after one command.
pub open spec fn apply<F>(m: Model<F>, op: Op<F>) -> Model<F> {
    match op {
        Op::Put { path, file, name } => registered(m, path, file, name),
        Op::Take { path } => dispatched(m, path),
    }
}

/// The registry after a sequence of commands, applied in order.
pub open spec fn replay<F>(m: Model<F>, ops: Seq<Op<F>>) -> Model<F>
    decreases ops.len(),
{
    if ops.len() == 0 {
        m
    } else {
        apply(replay(m, ops.drop_last()), ops.last())
    }
}

/// Applies one command to the registry and says what is to be done.
pub fn handle<F, R>(registry: &mut Registry<F>, cmd: Command<F, R>) -> (a: Action<F, R>)
    requires
        old(registry).wf(),
    ensures
        final(registry).wf(),
        final(registry)@ == apply(old(registry)@, cmd.op()),
        match cmd {
            Command::Register { .. } => a is Stored,
            Command::Dispatch { path, reply } => match a {
                Action::NotFound { reply: r } => r == reply && lookup(old(registry)@, path@) is None,
                Action::Found { reply: r, entry } => r == reply && lookup(old(registry)@, path@)
                    == Some((entry.file, entry.name@)),
                Action::Stored => false,
            },
        },
{
    match cmd {
        Command::Register { path, file, name } => {
            registry.register(path, file, name);
            Action::Stored
        },
        Command::Dispatch { path, reply } => match registry.dispatch(&path) {
            Some(entry) => Action::Found { reply, entry },
            None => Action::NotFound { reply },
        },
    }
}

/// A request for a path that no command registered finds nothing.
pub proof fn lemma_never_registered_not_found<F>(ops: Seq<Op<F>>, path: Seq<char>)
    requires
        forall|i: int| 0 <= i < ops.len() ==> !(#[trigger] ops[i] matches Op::Put { path: p, .. } && p == path),
    ensures
        lookup(replay(Model::<F>::empty(), ops), path) is None,
    decreases ops.len(),
{
    if ops.len() > 0 {
        let prefix = ops.drop_last();
        assert forall|i: int| 0 <= i < prefix.len() implies !(#[trigger] prefix[i] matches Op::Put { path: p, .. } && p == path) by {
            assert(prefix[i] == ops[i]);
        }
        lemma_never_registered_not_found(prefix, path);
        assert(ops[ops.len() - 1] == ops.last());
    }
}

/// A registered path, requested once, yields the file and name it was registered with.
pub proof fn lemma_register_then_request<F>(m: Model<F>, path: Seq<char>, file: F, name: Seq<char>)
    ensures
        lookup(apply(m, Op::Put { path, file, name }), path) == Some((file, name)),
{
}

/// Once a request for a path found its entry, a second request finds nothing
/// until the path is registered again.
pub proof fn lemma_single_use<F>(m: Model<F>, path: Seq<char>)
    ensures
        lookup(apply(m, Op::Take { path }), path) is None,
{
}

/// Registering a path twice before any request: the second registration is served.
pub proof fn lemma_overwrite<F>(
    m: Model<F>,
    path: Seq<char>,
    file1: F,
    name1: Seq<char>,
    file2: F,
    name2: Seq<char>,
)
    ensures
        lookup(
            apply(apply(m, Op::Put { path, file: file1, name: name1 }), Op::Put { path, file: file2, name: name2 }),
            path,
        ) == Some((file2, name2)),
{
}

/// Two callers register two different paths, then both are requested: in
/// every order of the registrations and of the requests, each request gets
/// the entry of its own path, and both entries are consumed, nothing else.
pub proof fn lemma_independent_paths<F>(
    m: Model<F>,
    path1: Seq<char>,
    file1: F,
    name1: Seq<char>,
    path2: Seq<char>,
    file2: F,
    name2: Seq<char>,
)
    requires
        path1 != path2,
    ensures
        ({
            let put1 = Op::Put { path: path1, file: file1, name: name1 };
            let put2 = Op::Put { path: path2, file: file2, name: name2 };
            let both = apply(apply(m, put1), put2);
            &&& apply(apply(m, put2), put1) == both
            &&& lookup(both, path1) == Some((file1, name1))
            &&& lookup(both, path2) == Some((file2, name2))
            &&& lookup(apply(both, Op::Take { path: path1 }), path2) == Some((file2, name2))
            &&& lookup(apply(both, Op::Take { path: path2 }), path1) == Some((file1, name1))
            &&& apply(apply(both, Op::Take { path: path1 }), Op::Take { path: path2 }) == m.remove(path1).remove(path2)
            &&& apply(apply(both, Op::Take { path: path2 }), Op::Take { path: path1 }) == m.remove(path1).remove(path2)
        }),
{
    let put1 = Op::Put { path: path1, file: file1, name: name1 };
    let put2 = Op::Put { path: path2, file: file2, name: name2 };
    let both = apply(apply(m, put1), put2);
    assert(apply(apply(m, put2), put1) =~= both);
    assert(apply(apply(both, Op::Take { path: path1 }), Op::Take { path: path2 }) =~= m.remove(path1).remove(path2));
    assert(apply(apply(both, Op::Take { path: path2 }), Op::Take { path: path1 }) =~= m.remove(path1).remove(path2));
}

} // verus!
