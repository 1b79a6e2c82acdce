//! Typed commands of the wire protocol.
//!
//! A `Command` owns copies of the key and value bytes it was parsed from, so
//! it stays valid after the input buffer is released.

use vstd::prelude::*;

use crate::db::{
    spec_add_step, spec_combine_step, spec_get_result, spec_insert_step, spec_update_number_step,
    CombineOrder, Database, NumberOp, Step, StepView,
};
use crate::response::{Response, ResponseView};

verus! {

/// One parsed protocol command.
#[derive(Debug, PartialEq, Eq)]
pub enum Command {
    /// `get key1 [key2 ...]` — read one or more keys.
    Get { keys: Vec<Vec<u8>> },
    /// `gets key1 [key2 ...]` — like `Get`, and report the CAS stamp.
    Gets { keys: Vec<Vec<u8>> },
    /// `delete key` — remove a key.
    Delete { key: Vec<u8> },
    /// `set key flags ttl` + value — write unconditionally.
    SetCmd { key: Vec<u8>, flags: u32, ttl: u64, value: Vec<u8> },
    /// `add key flags ttl` + value — write only if the key is not live.
    Add { key: Vec<u8>, flags: u32, ttl: u64, value: Vec<u8> },
    /// `append key flags ttl` + value — concatenate after the stored payload.
    Append { key: Vec<u8>, flags: u32, ttl: u64, value: Vec<u8> },
    /// `prepend key flags ttl` + value — concatenate before the stored payload.
    Prepend { key: Vec<u8>, flags: u32, ttl: u64, value: Vec<u8> },
    /// `incr key amount` — add to a numeric payload.
    Increment { key: Vec<u8>, value: u64 },
    /// `decr key amount` — subtract from a numeric payload.
    Decrement { key: Vec<u8>, value: u64 },
    /// A recognized placeholder command that no operation is wired to.
    Stats,
}

/// The mathematical shape of a `Command`.
pub enum CommandView {
    Get { keys: Seq<Seq<u8>> },
    Gets { keys: Seq<Seq<u8>> },
    Delete { key: Seq<u8> },
    SetCmd { key: Seq<u8>, flags: u32, ttl: u64, value: Seq<u8> },
    Add { key: Seq<u8>, flags: u32, ttl: u64, value: Seq<u8> },
    Append { key: Seq<u8>, flags: u32, ttl: u64, value: Seq<u8> },
    Prepend { key: Seq<u8>, flags: u32, ttl: u64, value: Seq<u8> },
    Increment { key: Seq<u8>, value: u64 },
    Decrement { key: Seq<u8>, value: u64 },
    Stats,
}

impl View for Command {
    type V = CommandView;

    open spec fn view(&self) -> CommandView {
        match self {
            Command::Get { keys } => CommandView::Get { keys: keys.deep_view() },
            Command::Gets { keys } => CommandView::Gets { keys: keys.deep_view() },
            Command::Delete { key } => CommandView::Delete { key: key@ },
            Command::SetCmd { key, flags, ttl, value } => CommandView::SetCmd {
                key: key@,
                flags: *flags,
                ttl: *ttl,
                value: value@,
            },
            Command::Add { key, flags, ttl, value } => CommandView::Add {
                key: key@,
                flags: *flags,
                ttl: *ttl,
                value: value@,
            },
            Command::Append { key, flags, ttl, value } => CommandView::Append {
                key: key@,
                flags: *flags,
                ttl: *ttl,
                value: value@,
            },
            Command::Prepend { key, flags, ttl, value } => CommandView::Prepend {
                key: key@,
                flags: *flags,
                ttl: *ttl,
                value: value@,
            },
            Command::Increment { key, value } => CommandView::Increment {
                key: key@,
                value: *value,
            },
            Command::Decrement { key, value } => CommandView::Decrement {
                key: key@,
                value: *value,
            },
            Command::Stats => CommandView::Stats,
        }
    }
}

/// The keys whose records the engine must read before a command can be
/// decided: the requested keys of a read, the single key of a
/// read-modify-write, and none for `set`, `delete` and placeholders.
pub open spec fn spec_keys_to_read(c: CommandView) -> Seq<Seq<u8>> {
    match c {
        CommandView::Get { keys } => keys,
        CommandView::Gets { keys } => keys,
        CommandView::Delete { key } => Seq::empty(),
        CommandView::SetCmd { key, flags, ttl, value } => Seq::empty(),
        CommandView::Add { key, flags, ttl, value } => seq![key],
        CommandView::Append { key, flags, ttl, value } => seq![key],
        CommandView::Prepend { key, flags, ttl, value } => seq![key],
        CommandView::Increment { key, value } => seq![key],
        CommandView::Decrement { key, value } => seq![key],
        CommandView::Stats => Seq::empty(),
    }
}

/// What routing one command does to the CAS counter and which step it asks
/// of the engine, given the records read for [`spec_keys_to_read`] and the
/// second `now` the clocks were read at.  A command variant wired to no
/// operation replies not-implemented; it never fails the process.
pub open spec fn spec_route(
    pre_cas: u64,
    c: CommandView,
    reads: Seq<Option<Seq<u8>>>,
    now: u64,
    post_cas: u64,
    s: StepView,
) -> bool {
    match c {
        CommandView::Get { keys } => post_cas == pre_cas && s == (StepView::Reply {
            response: spec_get_result(keys, reads, false, now),
        }),
        CommandView::Gets { keys } => post_cas == pre_cas && s == (StepView::Reply {
            response: spec_get_result(keys, reads, true, now),
        }),
        CommandView::Delete { key } => post_cas == pre_cas && s == (StepView::Delete { key }),
        CommandView::SetCmd { key, flags, ttl, value } => spec_insert_step(
            pre_cas,
            key,
            flags,
            ttl,
            value,
            now,
            post_cas,
            s,
        ),
        CommandView::Add { key, flags, ttl, value } => spec_add_step(
            pre_cas,
            key,
            flags,
            ttl,
            value,
            reads[0],
            now,
            post_cas,
            s,
        ),
        CommandView::Append { key, flags, ttl, value } => spec_combine_step(
            pre_cas,
            key,
            flags,
            ttl,
            value,
            reads[0],
            CombineOrder::AfterExisting,
            now,
            post_cas,
            s,
        ),
        CommandView::Prepend { key, flags, ttl, value } => spec_combine_step(
            pre_cas,
            key,
            flags,
            ttl,
            value,
            reads[0],
            CombineOrder::BeforeExisting,
            now,
            post_cas,
            s,
        ),
        CommandView::Increment { key, value } => spec_update_number_step(
            pre_cas,
            key,
            value,
            NumberOp::Incr,
            reads[0],
            now,
            post_cas,
            s,
        ),
        CommandView::Decrement { key, value } => spec_update_number_step(
            pre_cas,
            key,
            value,
            NumberOp::Decr,
            reads[0],
            now,
            post_cas,
            s,
        ),
        CommandView::Stats => post_cas == pre_cas && s == (StepView::Reply {
            response: ResponseView::NotImplemented,
        }),
    }
}

impl Command {
    /// Lists the keys the engine must read before this command can be
    /// decided, in the order their records are to be handed back.
    pub fn keys_to_read(&self) -> (r: Vec<Vec<u8>>)
        ensures
            r.deep_view() == spec_keys_to_read(self@),
    {
        match self {
            Command::Get { keys } => {
                let r = crate::parser::copy_keys_from(keys, 0);
                proof {
                    assert(keys.deep_view().skip(0) =~= keys.deep_view());
                }
                r
            },
            Command::Gets { keys } => {
                let r = crate::parser::copy_keys_from(keys, 0);
                proof {
                    assert(keys.deep_view().skip(0) =~= keys.deep_view());
                }
                r
            },
            Command::Delete { key } => empty_keys(),
            Command::SetCmd { key, flags, ttl, value } => empty_keys(),
            Command::Add { key, flags, ttl, value } => single_key(key),
            Command::Append { key, flags, ttl, value } => single_key(key),
            Command::Prepend { key, flags, ttl, value } => single_key(key),
            Command::Increment { key, value } => single_key(key),
            Command::Decrement { key, value } => single_key(key),
            Command::Stats => empty_keys(),
        }
    }

    /// The command router: maps one parse outcome to the storage engine
    /// call it names and hands back the step the engine must perform.  A
    /// parse failure short-circuits to the protocol error reply without
    /// touching anything.
    pub fn handle(
        request: Result<Command, String>,
        db: &mut Database,
        reads: &Vec<Option<Vec<u8>>>,
    ) -> (s: Step)
        requires
            old(db).cas() < u64::MAX,
            (request matches Ok(c) ==> reads.deep_view().len() == spec_keys_to_read(c@).len()),
        ensures
            match request {
                Err(m) => final(db).cas() == old(db).cas() && s@ == (StepView::Reply {
                    response: ResponseView::Error { msg: m@ },
                }),
                Ok(c) => exists|now: u64|
                    #[trigger] spec_route(
                        old(db).cas(),
                        c@,
                        reads.deep_view(),
                        now,
                        final(db).cas(),
                        s@,
                    ),
            },
    {
        let cmd = match request {
            Ok(cmd) => cmd,
            Err(e) => {
                return Step::Reply { response: Response::Error { msg: Box::new(e) } };
            },
        };
        let now = crate::db::current_second();
        proof {
            crate::db::lemma_records_deep_view(reads);
        }
        let s = match &cmd {
            Command::Get { keys } => {
                let r = db.get_at(keys, reads, false, now);
                Step::Reply { response: r }
            },
            Command::Gets { keys } => {
                let r = db.get_at(keys, reads, true, now);
                Step::Reply { response: r }
            },
            Command::Delete { key } => db.delete(key.as_slice()),
            Command::SetCmd { key, flags, ttl, value } => db.insert_at(
                key.as_slice(),
                *flags,
                *ttl,
                value.as_slice(),
                now,
            ),
            Command::Add { key, flags, ttl, value } => db.insert_if_not_present_at(
                key.as_slice(),
                *flags,
                *ttl,
                value.as_slice(),
                &reads[0],
                now,
            ),
            Command::Append { key, flags, ttl, value } => db.update_combined(
                key.as_slice(),
                *flags,
                *ttl,
                value.as_slice(),
                &reads[0],
                CombineOrder::AfterExisting,
                now,
            ),
            Command::Prepend { key, flags, ttl, value } => db.update_combined(
                key.as_slice(),
                *flags,
                *ttl,
                value.as_slice(),
                &reads[0],
                CombineOrder::BeforeExisting,
                now,
            ),
            Command::Increment { key, value } => db.update_number(
                key.as_slice(),
                *value,
                NumberOp::Incr,
                &reads[0],
                now,
            ),
            Command::Decrement { key, value } => db.update_number(
                key.as_slice(),
                *value,
                NumberOp::Decr,
                &reads[0],
                now,
            ),
            Command::Stats => Step::Reply { response: Response::NotImplemented },
        };
        proof {
            assert(spec_route(old(db).cas(), cmd@, reads.deep_view(), now, db.cas(), s@));
        }
        s
    }
}

/// An empty read list.
fn empty_keys() -> (r: Vec<Vec<u8>>)
    ensures
        r.deep_view() == Seq::<Seq<u8>>::empty(),
{
    let r: Vec<Vec<u8>> = Vec::new();
    proof {
        assert(r.deep_view() =~= Seq::<Seq<u8>>::empty());
    }
    r
}

/// A read list of one key.
fn single_key(key: &Vec<u8>) -> (r: Vec<Vec<u8>>)
    ensures
        r.deep_view() == seq![key@],
{
    let mut r: Vec<Vec<u8>> = Vec::new();
    r.push(crate::parser::copy_bytes(key));
    proof {
        assert(r@[0].deep_view() =~= key@);
        assert(r.deep_view() =~= seq![key@]);
    }
    r
}

} // verus!
