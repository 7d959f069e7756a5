//! The command handlers: GET, SET, UPDATE, FLUSHDB and DBSIZE on a table.
//!
//! Each handler runs entirely on a table that the caller holds locked (read
//! for GET and DBSIZE, write for the others) and returns the items to send,
//! so that the lock is released before anything is written to a socket.

use vstd::prelude::*;
use crate::coredb::{Coretable, Data};
use vstd::utf8::encode_utf8;

verus! {

/// One item handed to the response sink.
pub enum Response {
    /// Announces that the next `n` items form one reply.
    GroupBegin(usize),
    /// The `OK` token.
    Okay,
    /// The `NIL` token.
    Nil,
    /// The `NIL` token inside a group.
    NilGroup,
    /// Wrong arity or malformed command.
    ActionErr,
    /// SET on a key that is present.
    OverwriteErr,
    /// A stored value.
    Value(Data),
    /// An entry count.
    Size(usize),
}

/// The commands that operate on the table.
#[derive(PartialEq, Eq, Structural, Clone, Copy, Debug)]
pub enum Action {
    Get,
    /// SET: create-only.
    Insert,
    Update,
    Flushdb,
    Dbsize,
}

/// The command that an action name stands for.
pub open spec fn action_named(n: Seq<char>) -> Option<Action> {
    if n == "GET"@ {
        Some(Action::Get)
    } else if n == "SET"@ {
        Some(Action::Insert)
    } else if n == "UPDATE"@ {
        Some(Action::Update)
    } else if n == "FLUSHDB"@ {
        Some(Action::Flushdb)
    } else if n == "DBSIZE"@ {
        Some(Action::Dbsize)
    } else {
        None
    }
}

/// The command named `name`, if there is one.
pub fn action_of(name: &String) -> (r: Option<Action>)
    ensures
        r == action_named(name@),
{
    if *name == "GET".to_owned() {
        Some(Action::Get)
    } else if *name == "SET".to_owned() {
        Some(Action::Insert)
    } else if *name == "UPDATE".to_owned() {
        Some(Action::Update)
    } else if *name == "FLUSHDB".to_owned() {
        Some(Action::Flushdb)
    } else if *name == "DBSIZE".to_owned() {
        Some(Action::Dbsize)
    } else {
        None
    }
}

impl Action {
    pub open spec fn needs_write_spec(&self) -> bool {
        *self == Action::Insert || *self == Action::Update || *self == Action::Flushdb
    }

    /// Whether the command changes the table, and so needs the write lock.
    pub fn needs_write(&self) -> (r: bool)
        ensures
            r == self.needs_write_spec(),
    {
        match self {
            Action::Get | Action::Dbsize => false,
            _ => true,
        }
    }
}

/// The arguments as sequences of characters.
pub open spec fn arg_views(args: Seq<String>) -> Seq<Seq<char>> {
    args.map_values(|s: String| s@)
}

/// The number of arguments each command takes.
pub open spec fn arity(a: Action) -> nat {
    match a {
        Action::Get => 1,
        Action::Insert => 2,
        Action::Update => 2,
        Action::Flushdb => 0,
        Action::Dbsize => 0,
    }
}

/// What a command does to the table's mapping.
pub open spec fn effect(
    m: Map<Seq<char>, Seq<u8>>,
    a: Action,
    args: Seq<Seq<char>>,
) -> Map<Seq<char>, Seq<u8>> {
    if args.len() != arity(a) {
        m
    } else {
        match a {
            Action::Insert => if m.contains_key(args[0]) {
                m
            } else {
                m.insert(args[0], encode_utf8(args[1]))
            },
            Action::Update => if m.contains_key(args[0]) {
                m.insert(args[0], encode_utf8(args[1]))
            } else {
                m
            },
            Action::Flushdb => Map::empty(),
            _ => m,
        }
    }
}

/// The reply holds the single token `ACTION_ERR`.
pub open spec fn is_action_err(r: Seq<Response>) -> bool {
    r.len() == 1 && r[0] is ActionErr
}

/// The reply holds the single token `OK`.
pub open spec fn is_okay(r: Seq<Response>) -> bool {
    r.len() == 1 && r[0] is Okay
}

/// A group of one item follows.
pub open spec fn is_group_of_one(r: Seq<Response>) -> bool {
    r.len() == 2 && r[0] is GroupBegin && r[0]->GroupBegin_0 == 1
}

fn action_err() -> (r: Vec<Response>)
    ensures
        is_action_err(r@),
{
    let mut r: Vec<Response> = Vec::new();
    r.push(Response::ActionErr);
    r
}

fn single(item: Response) -> (r: Vec<Response>)
    ensures
        r@ == seq![item],
{
    let mut r: Vec<Response> = Vec::new();
    r.push(item);
    assert(r@ =~= seq![item]);
    r
}

fn group_of_one(item: Response) -> (r: Vec<Response>)
    ensures
        is_group_of_one(r@),
        r@[1] == item,
{
    let mut r: Vec<Response> = Vec::new();
    r.push(Response::GroupBegin(1));
    r.push(item);
    r
}

/// GET key: the value in a group of one, or `NIL` in a group of one.
pub fn get(handle: &Coretable, act: Vec<String>) -> (r: Vec<Response>)
    ensures
        act@.len() != 1 ==> is_action_err(r@),
        act@.len() == 1 ==> {
            let k = act@[0]@;
            &&& is_group_of_one(r@)
            &&& handle@.contains_key(k) ==> r@[1] is Value && r@[1]->Value_0@ == handle@[k]
            &&& !handle@.contains_key(k) ==> r@[1] is NilGroup
        },
{
    if act.len() != 1 {
        return action_err();
    }
    match handle.get(&act[0]) {
        Some(d) => group_of_one(Response::Value(d.duplicate())),
        None => group_of_one(Response::NilGroup),
    }
}

/// SET key value: stores the value only if the key is absent.
pub fn set(handle: &mut Coretable, act: Vec<String>) -> (r: Vec<Response>)
    ensures
        final(handle).terminating() == old(handle).terminating(),
        final(handle)@ == effect(old(handle)@, Action::Insert, arg_views(act@)),
        act@.len() != 2 ==> is_action_err(r@),
        act@.len() == 2 && !old(handle)@.contains_key(act@[0]@) ==> is_okay(r@),
        act@.len() == 2 && old(handle)@.contains_key(act@[0]@) ==> r@.len() == 1
            && r@[0] is OverwriteErr,
{
    if act.len() != 2 {
        return action_err();
    }
    let mut act = act;
    let val = act.pop().unwrap();
    let key = act.pop().unwrap();
    if handle.insert_new(key, Data::from_string(val)) {
        single(Response::Okay)
    } else {
        single(Response::OverwriteErr)
    }
}

/// UPDATE key value: replaces the value only if the key is present.
pub fn update(handle: &mut Coretable, act: Vec<String>) -> (r: Vec<Response>)
    ensures
        final(handle).terminating() == old(handle).terminating(),
        final(handle)@ == effect(old(handle)@, Action::Update, arg_views(act@)),
        act@.len() != 2 ==> is_action_err(r@),
        act@.len() == 2 && old(handle)@.contains_key(act@[0]@) ==> is_okay(r@),
        act@.len() == 2 && !old(handle)@.contains_key(act@[0]@) ==> r@.len() == 1
            && r@[0] is Nil,
{
    if act.len() != 2 {
        return action_err();
    }
    let mut act = act;
    let val = act.pop().unwrap();
    let key = act.pop().unwrap();
    if handle.replace_existing(key, Data::from_string(val)) {
        single(Response::Okay)
    } else {
        single(Response::Nil)
    }
}

/// FLUSHDB: removes every entry.
pub fn flushdb(handle: &mut Coretable, act: Vec<String>) -> (r: Vec<Response>)
    ensures
        final(handle).terminating() == old(handle).terminating(),
        final(handle)@ == effect(old(handle)@, Action::Flushdb, arg_views(act@)),
        act@.len() != 0 ==> is_action_err(r@),
        act@.len() == 0 ==> is_okay(r@),
{
    if act.len() != 0 {
        return action_err();
    }
    handle.clear();
    single(Response::Okay)
}

/// DBSIZE: the number of entries in a group of one.
pub fn dbsize(handle: &Coretable, act: Vec<String>) -> (r: Vec<Response>)
    ensures
        act@.len() != 0 ==> is_action_err(r@),
        act@.len() == 0 ==> is_group_of_one(r@) && r@[1] is Size && r@[1]->Size_0
            == handle@.len(),
{
    if act.len() != 0 {
        return action_err();
    }
    group_of_one(Response::Size(handle.len()))
}

/// The reply to a command of the right arity on a table with mapping `m`.
pub open spec fn replies(
    m: Map<Seq<char>, Seq<u8>>,
    a: Action,
    args: Seq<Seq<char>>,
    r: Seq<Response>,
) -> bool {
    match a {
        Action::Get => is_group_of_one(r) && if m.contains_key(args[0]) {
            r[1] is Value && r[1]->Value_0@ == m[args[0]]
        } else {
            r[1] is NilGroup
        },
        Action::Insert => if m.contains_key(args[0]) {
            r.len() == 1 && r[0] is OverwriteErr
        } else {
            is_okay(r)
        },
        Action::Update => if m.contains_key(args[0]) {
            is_okay(r)
        } else {
            r.len() == 1 && r[0] is Nil
        },
        Action::Flushdb => is_okay(r),
        Action::Dbsize => is_group_of_one(r) && r[1] is Size && r[1]->Size_0 == m.len(),
    }
}

/// Runs a command that only reads the table, under a read lock.
pub fn execute_read(handle: &Coretable, action: Action, act: Vec<String>) -> (r: Vec<Response>)
    requires
        !action.needs_write_spec(),
    ensures
        act@.len() != arity(action) <==> is_action_err(r@),
        act@.len() == arity(action) ==> replies(handle@, action, arg_views(act@), r@),
{
    match action {
        Action::Get => get(handle, act),
        _ => dbsize(handle, act),
    }
}

/// Runs one command under the write lock.
pub fn execute(handle: &mut Coretable, action: Action, act: Vec<String>) -> (r: Vec<Response>)
    ensures
        final(handle).terminating() == old(handle).terminating(),
        final(handle)@ == effect(old(handle)@, action, arg_views(act@)),
        act@.len() != arity(action) <==> is_action_err(r@),
        act@.len() == arity(action) ==> replies(old(handle)@, action, arg_views(act@), r@),
{
    match action {
        Action::Get => get(handle, act),
        Action::Insert => set(handle, act),
        Action::Update => update(handle, act),
        Action::Flushdb => flushdb(handle, act),
        Action::Dbsize => dbsize(handle, act),
    }
}

/// The mapping after running the commands in order.
pub open spec fn run(
    m: Map<Seq<char>, Seq<u8>>,
    cmds: Seq<(Action, Seq<Seq<char>>)>,
) -> Map<Seq<char>, Seq<u8>>
    decreases cmds.len(),
{
    if cmds.len() == 0 {
        m
    } else {
        effect(run(m, cmds.drop_last()), cmds.last().0, cmds.last().1)
    }
}

/// The command is neither FLUSHDB nor an UPDATE of `k`.
pub open spec fn leaves_key(c: (Action, Seq<Seq<char>>), k: Seq<char>) -> bool {
    c.0 != Action::Flushdb && !(c.0 == Action::Update && c.1.len() == 2 && c.1[0] == k)
}

/// Once SET of `k` to `v` succeeds, GET of `k` finds `v` after any run of
/// commands that holds no FLUSHDB and no UPDATE of `k`.
pub proof fn lemma_set_then_get(
    m: Map<Seq<char>, Seq<u8>>,
    k: Seq<char>,
    v: Seq<char>,
    cmds: Seq<(Action, Seq<Seq<char>>)>,
)
    requires
        !m.contains_key(k),
        forall|i: int| 0 <= i < cmds.len() ==> leaves_key(#[trigger] cmds[i], k),
    ensures
        run(effect(m, Action::Insert, seq![k, v]), cmds).contains_key(k),
        run(effect(m, Action::Insert, seq![k, v]), cmds)[k] == encode_utf8(v),
    decreases cmds.len(),
{
    if cmds.len() > 0 {
        let t = cmds.drop_last();
        assert forall|i: int| 0 <= i < t.len() implies leaves_key(#[trigger] t[i], k) by {
            assert(t[i] == cmds[i]);
        }
        lemma_set_then_get(m, k, v, t);
        assert(leaves_key(cmds[cmds.len() - 1], k));
    }
}

/// SET of a key that an earlier SET stored is refused (the key is present,
/// which SET answers with `OVERWRITE_ERR`) and leaves the first value.
pub proof fn lemma_set_twice(m: Map<Seq<char>, Seq<u8>>, k: Seq<char>, v1: Seq<char>, v2: Seq<char>)
    requires
        !m.contains_key(k),
    ensures
        effect(m, Action::Insert, seq![k, v1]).contains_key(k),
        effect(effect(m, Action::Insert, seq![k, v1]), Action::Insert, seq![k, v2]) == effect(
            m,
            Action::Insert,
            seq![k, v1],
        ),
        effect(m, Action::Insert, seq![k, v1])[k] == encode_utf8(v1),
{
}

/// UPDATE of an absent key changes nothing; of a present key, it stores the
/// new value and keeps the other entries.
pub proof fn lemma_update(m: Map<Seq<char>, Seq<u8>>, k: Seq<char>, v: Seq<char>)
    ensures
        !m.contains_key(k) ==> effect(m, Action::Update, seq![k, v]) == m,
        m.contains_key(k) ==> effect(m, Action::Update, seq![k, v]) == m.insert(k, encode_utf8(v)),
{
}

/// After FLUSHDB the table holds no entry, so DBSIZE answers 0.
pub proof fn lemma_flush_then_size(m: Map<Seq<char>, Seq<u8>>)
    ensures
        effect(m, Action::Flushdb, Seq::empty()).len() == 0,
{
    assert(effect(m, Action::Flushdb, Seq::empty()) =~= Map::empty());
}

} // verus!
