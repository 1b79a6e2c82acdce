//! The storage engine's read-modify-write decisions.
//!
//! The durable key-value engine itself is an external collaborator that
//! exposes `get`, `put` and `delete`; it could not be linked here, so the
//! caller owns its handle and serializes all access behind one lock, as one
//! critical section per command: it reads the keys an operation concerns,
//! hands the raw records in, receives a [`Step`] saying which write to
//! perform, and maps the write's outcome to the final [`Response`] with
//! [`complete_put`] and [`complete_delete`].  Every decision between those
//! two engine calls is made and verified here, against the record codec and
//! the process-wide CAS counter that [`Database`] owns.

use vstd::prelude::*;

use crate::byte_utils::{dec_text, dec_val, is_valid_u64_text, u64_to_bytes};
use crate::record::{
    be_u64, rec_deadline, rec_payload, record_payload_vec, record_wf, spec_encode_record,
    spec_live, u32_to_be_bytes, u64_to_be_bytes,
};
use crate::response::{Response, ResponseView};

verus! {

/// What the engine must do to finish an operation.
#[derive(Debug, PartialEq, Eq)]
pub enum Step {
    /// Reply immediately; nothing is written.
    Reply { response: Response },
    /// Write `record` under `key`; reply `on_ok` if the write succeeds and
    /// the server-error line if it fails.
    Put { key: Vec<u8>, record: Vec<u8>, on_ok: Response },
    /// Delete `key` unconditionally; reply with the stored ack if the
    /// engine reports success and the not-found line otherwise.
    Delete { key: Vec<u8> },
}

/// The mathematical shape of a `Step`.
pub enum StepView {
    Reply { response: ResponseView },
    Put { key: Seq<u8>, record: Seq<u8>, on_ok: ResponseView },
    Delete { key: Seq<u8> },
}

impl View for Step {
    type V = StepView;

    open spec fn view(&self) -> StepView {
        match self {
            Step::Reply { response } => StepView::Reply { response: response@ },
            Step::Put { key, record, on_ok } => StepView::Put {
                key: key@,
                record: record@,
                on_ok: on_ok@,
            },
            Step::Delete { key } => StepView::Delete { key: key@ },
        }
    }
}

/// The process-wide shared state behind the caller's lock: the CAS counter.
/// (The engine handle stands beside it in the caller, outside this crate.)
struct DatabaseHolder {
    cas: u64,
}

impl DatabaseHolder {
    /// Draws the next stamp from the global CAS counter.
    fn increment_cas(&mut self) -> (r: u64)
        requires
            old(self).cas < u64::MAX,
        ensures
            final(self).cas == old(self).cas + 1,
            r == final(self).cas,
    {
        self.cas += 1;
        self.cas
    }
}

/// The storage engine's own state: the global, monotonically increasing CAS
/// counter.  Exactly one instance exists for the process lifetime, and all
/// mutation happens while the caller holds its single lock.
pub struct Database {
    holder: DatabaseHolder,
}

/// `u64` addition that stops at the largest representable value.
pub open spec fn sat_add(a: u64, b: u64) -> u64 {
    if a + b > u64::MAX {
        u64::MAX
    } else {
        (a + b) as u64
    }
}

/// `u64` subtraction that stops at zero.
pub open spec fn sat_sub(a: u64, b: u64) -> u64 {
    if a - b < 0 {
        0u64
    } else {
        (a - b) as u64
    }
}

/// A successful insert decision: the counter advances by one and the step
/// writes a fresh record carrying the new stamp, the given flags, the
/// deadline `now + ttl` (saturating), and the payload, replying `STORED`.
pub open spec fn spec_insert_step(
    pre_cas: u64,
    key: Seq<u8>,
    flags: u32,
    ttl: u64,
    value: Seq<u8>,
    now: u64,
    post_cas: u64,
    s: StepView,
) -> bool {
    &&& post_cas == pre_cas + 1
    &&& s == (StepView::Put {
        key,
        record: spec_encode_record(sat_add(now, ttl), post_cas, flags, value),
        on_ok: ResponseView::Stored,
    })
}

impl Database {
    /// The current value of the global CAS counter.
    pub closed spec fn cas(&self) -> u64 {
        self.holder.cas
    }

    /// Reads the counter, so a caller outside the proof can check the
    /// headroom the write operations require.
    pub fn cas_value(&self) -> (r: u64)
        ensures
            r == self.cas(),
    {
        self.holder.cas
    }

    /// Creates the process-wide storage engine state, with the CAS counter
    /// at zero.
    pub fn new() -> (db: Database)
        ensures
            db.cas() == 0,
    {
        Database { holder: DatabaseHolder { cas: 0 } }
    }

    /// Builds the record `deadline_bytes ++ cas ++ flag_bytes ++ value`
    /// under a freshly drawn CAS stamp and asks the engine to write it,
    /// replying `on_ok` on success.
    pub fn insert_raw(
        &mut self,
        key: &[u8],
        deadline_bytes: &[u8],
        flag_bytes: &[u8],
        value: &[u8],
        on_ok: Response,
    ) -> (s: Step)
        requires
            old(self).cas() < u64::MAX,
            deadline_bytes@.len() == 8,
            flag_bytes@.len() == 4,
        ensures
            final(self).cas() == old(self).cas() + 1,
            s@ == (StepView::Put {
                key: key@,
                record: deadline_bytes@ + be_u64((old(self).cas() + 1) as u64) + flag_bytes@
                    + value@,
                on_ok: on_ok@,
            }),
    {
        let cas = self.holder.increment_cas();
        let record = crate::record::encode_record_raw(deadline_bytes, cas, flag_bytes, value);
        let key_copy = vstd::slice::slice_to_vec(key);
        Step::Put { key: key_copy, record, on_ok }
    }

    /// Writes a full record with the given absolute deadline.
    pub fn insert_with_deadline(
        &mut self,
        key: &[u8],
        flags: u32,
        deadline: u64,
        value: &[u8],
    ) -> (s: Step)
        requires
            old(self).cas() < u64::MAX,
        ensures
            final(self).cas() == old(self).cas() + 1,
            s@ == (StepView::Put {
                key: key@,
                record: spec_encode_record(deadline, (old(self).cas() + 1) as u64, flags, value@),
                on_ok: ResponseView::Stored,
            }),
    {
        let deadline_bytes = u64_to_be_bytes(deadline);
        let flag_bytes = u32_to_be_bytes(flags);
        proof {
            crate::record::lemma_be_bytes_len(deadline as int, 8);
            crate::record::lemma_be_bytes_len(flags as int, 4);
        }
        let s = self.insert_raw(
            key,
            deadline_bytes.as_slice(),
            flag_bytes.as_slice(),
            value,
            Response::Stored,
        );
        proof {
            assert(be_u64(deadline) + be_u64(self.cas()) + crate::record::be_u32(flags) + value@
                =~= spec_encode_record(deadline, self.cas(), flags, value@));
        }
        s
    }

    /// The `set` decision at a known second: compute the deadline and write.
    pub fn insert_at(&mut self, key: &[u8], flags: u32, ttl: u64, value: &[u8], now: u64) -> (s:
        Step)
        requires
            old(self).cas() < u64::MAX,
        ensures
            spec_insert_step(
                old(self).cas(),
                key@,
                flags,
                ttl,
                value@,
                now,
                final(self).cas(),
                s@,
            ),
    {
        let deadline = now.saturating_add(ttl);
        self.insert_with_deadline(key, flags, deadline, value)
    }

    /// The `set` decision: computes `deadline = now + ttl` from the current
    /// clock second, draws a fresh CAS stamp and asks for the write.
    pub fn insert(&mut self, key: &[u8], flags: u32, ttl: u64, value: &[u8]) -> (s: Step)
        requires
            old(self).cas() < u64::MAX,
        ensures
            exists|now: u64|
                #[trigger] spec_insert_step(
                    old(self).cas(),
                    key@,
                    flags,
                    ttl,
                    value@,
                    now,
                    final(self).cas(),
                    s@,
                ),
    {
        let now = current_second();
        let s = self.insert_at(key, flags, ttl, value, now);
        proof {
            assert(spec_insert_step(
                old(self).cas(),
                key@,
                flags,
                ttl,
                value@,
                now,
                final(self).cas(),
                s@,
            ));
        }
        s
    }
}

/// The order a combine operation concatenates in.
#[derive(Clone, Copy, Debug, PartialEq, Eq)]
pub enum CombineOrder {
    /// New bytes go after the stored payload (`append`).
    AfterExisting,
    /// New bytes go before the stored payload (`prepend`).
    BeforeExisting,
}

/// The payload a combine operation stores.
pub open spec fn spec_combined(order: CombineOrder, existing: Seq<u8>, addition: Seq<u8>) -> Seq<
    u8,
> {
    match order {
        CombineOrder::AfterExisting => existing + addition,
        CombineOrder::BeforeExisting => addition + existing,
    }
}

/// The direction of a counter update.
#[derive(Clone, Copy, Debug, PartialEq, Eq)]
pub enum NumberOp {
    /// `incr`: saturating addition.
    Incr,
    /// `decr`: saturating subtraction, stopping at zero rather than
    /// wrapping.
    Decr,
}

/// The new counter value; both directions saturate rather than wrap.
pub open spec fn spec_apply_number(op: NumberOp, stored: u64, amount: u64) -> u64 {
    match op {
        NumberOp::Incr => sat_add(stored, amount),
        NumberOp::Decr => sat_sub(stored, amount),
    }
}

/// The `add` decision on the record the engine read: a live record refuses
/// the write with `NOT_STORED` and leaves everything unchanged; a corrupt
/// record (shorter than its header) is an engine error; an absent or
/// expired record admits the insert exactly as `set` would do it.
pub open spec fn spec_add_step(
    pre_cas: u64,
    key: Seq<u8>,
    flags: u32,
    ttl: u64,
    value: Seq<u8>,
    current: Option<Seq<u8>>,
    now: u64,
    post_cas: u64,
    s: StepView,
) -> bool {
    match current {
        Some(rec) => {
            if !record_wf(rec) {
                post_cas == pre_cas && s == (StepView::Reply {
                    response: ResponseView::ServerError,
                })
            } else if spec_live(rec, now) {
                post_cas == pre_cas && s == (StepView::Reply {
                    response: ResponseView::NotStored,
                })
            } else {
                spec_insert_step(pre_cas, key, flags, ttl, value, now, post_cas, s)
            }
        },
        None => spec_insert_step(pre_cas, key, flags, ttl, value, now, post_cas, s),
    }
}

/// The `append`/`prepend` decision on the record the engine read: an absent
/// key refuses the write with `NOT_STORED` — combining never creates a key
/// — a corrupt record is an engine error, and otherwise the combined
/// payload is stored like a fresh `set`: deadline and flags are refreshed
/// and a new CAS stamp is drawn.
pub open spec fn spec_combine_step(
    pre_cas: u64,
    key: Seq<u8>,
    flags: u32,
    ttl: u64,
    value: Seq<u8>,
    current: Option<Seq<u8>>,
    order: CombineOrder,
    now: u64,
    post_cas: u64,
    s: StepView,
) -> bool {
    match current {
        None => post_cas == pre_cas && s == (StepView::Reply {
            response: ResponseView::NotStored,
        }),
        Some(rec) => {
            if !record_wf(rec) {
                post_cas == pre_cas && s == (StepView::Reply {
                    response: ResponseView::ServerError,
                })
            } else {
                spec_insert_step(
                    pre_cas,
                    key,
                    flags,
                    ttl,
                    spec_combined(order, rec_payload(rec), value),
                    now,
                    post_cas,
                    s,
                )
            }
        },
    }
}

/// The protocol line an `incr`/`decr` on a non-numeric payload is refused
/// with: `CLIENT_ERROR cannot increment or decrement non-numeric value`.
pub open spec fn client_error_line() -> Seq<u8> {
    seq![67u8, 76u8, 73u8, 69u8, 78u8, 84u8, 95u8, 69u8, 82u8, 82u8, 79u8, 82u8, 32u8, 99u8, 97u8, 110u8, 110u8, 111u8, 116u8, 32u8, 105u8, 110u8, 99u8, 114u8, 101u8, 109u8, 101u8, 110u8, 116u8, 32u8, 111u8, 114u8, 32u8, 100u8, 101u8, 99u8, 114u8, 101u8, 109u8, 101u8, 110u8, 116u8, 32u8, 110u8, 111u8, 110u8, 45u8, 110u8, 117u8, 109u8, 101u8, 114u8, 105u8, 99u8, 32u8, 118u8, 97u8, 108u8, 117u8, 101u8, 13u8, 10u8]
}

/// The `incr`/`decr` decision on the record the engine read: an absent key
/// refuses with `NOT_STORED`; a corrupt record is an engine error; an
/// expired record answers not-found; a non-numeric payload is refused with
/// a client error and nothing is written; a numeric payload is updated and
/// rewritten as decimal text under a fresh CAS stamp, with the original
/// deadline and flag bytes preserved, and the reply carries the new value.
pub open spec fn spec_update_number_step(
    pre_cas: u64,
    key: Seq<u8>,
    amount: u64,
    op: NumberOp,
    current: Option<Seq<u8>>,
    now: u64,
    post_cas: u64,
    s: StepView,
) -> bool {
    match current {
        None => post_cas == pre_cas && s == (StepView::Reply {
            response: ResponseView::NotStored,
        }),
        Some(rec) => {
            if !record_wf(rec) {
                post_cas == pre_cas && s == (StepView::Reply {
                    response: ResponseView::ServerError,
                })
            } else if rec_deadline(rec) < now {
                post_cas == pre_cas && s == (StepView::Reply {
                    response: ResponseView::NotFoundError,
                })
            } else if !is_valid_u64_text(rec_payload(rec)) {
                post_cas == pre_cas && s == (StepView::Reply {
                    response: ResponseView::ClientError { msg: client_error_line() },
                })
            } else {
                let stored = dec_val(rec_payload(rec)) as u64;
                let newtext = dec_text(spec_apply_number(op, stored, amount) as nat);
                &&& post_cas == pre_cas + 1
                &&& s == (StepView::Put {
                    key,
                    record: rec.subrange(0, 8) + be_u64(post_cas) + rec.subrange(16, 20) + newtext,
                    on_ok: ResponseView::Value { value: newtext + seq![13u8, 10u8] },
                })
            }
        },
    }
}

impl Database {
    /// The `add` decision at a known second.
    pub fn insert_if_not_present_at(
        &mut self,
        key: &[u8],
        flags: u32,
        ttl: u64,
        value: &[u8],
        current: &Option<Vec<u8>>,
        now: u64,
    ) -> (s: Step)
        requires
            old(self).cas() < u64::MAX,
        ensures
            spec_add_step(
                old(self).cas(),
                key@,
                flags,
                ttl,
                value@,
                current.deep_view(),
                now,
                final(self).cas(),
                s@,
            ),
    {
        match current {
            Some(rec) => {
                proof {
                    assert(current.deep_view() == Some(rec@)) by {
                        assert(rec.deep_view() =~= rec@);
                    }
                }
                if rec.len() < 20 {
                    Step::Reply { response: Response::ServerError }
                } else {
                    let deadline = crate::record::be_field(rec.as_slice(), 0, 8);
                    if deadline >= now {
                        Step::Reply { response: Response::NotStored }
                    } else {
                        self.insert_at(key, flags, ttl, value, now)
                    }
                }
            },
            None => self.insert_at(key, flags, ttl, value, now),
        }
    }

    /// The `add` decision: insert only where no live record stands.
    pub fn insert_if_not_present(
        &mut self,
        key: &[u8],
        flags: u32,
        ttl: u64,
        value: &[u8],
        current: &Option<Vec<u8>>,
    ) -> (s: Step)
        requires
            old(self).cas() < u64::MAX,
        ensures
            exists|now: u64|
                #[trigger] spec_add_step(
                    old(self).cas(),
                    key@,
                    flags,
                    ttl,
                    value@,
                    current.deep_view(),
                    now,
                    final(self).cas(),
                    s@,
                ),
    {
        let now = current_second();
        let s = self.insert_if_not_present_at(key, flags, ttl, value, current, now);
        proof {
            assert(spec_add_step(
                old(self).cas(),
                key@,
                flags,
                ttl,
                value@,
                current.deep_view(),
                now,
                final(self).cas(),
                s@,
            ));
        }
        s
    }

    /// The shared `append`/`prepend` decision at a known second.
    pub fn update_combined(
        &mut self,
        key: &[u8],
        flags: u32,
        ttl: u64,
        value: &[u8],
        current: &Option<Vec<u8>>,
        order: CombineOrder,
        now: u64,
    ) -> (s: Step)
        requires
            old(self).cas() < u64::MAX,
        ensures
            spec_combine_step(
                old(self).cas(),
                key@,
                flags,
                ttl,
                value@,
                current.deep_view(),
                order,
                now,
                final(self).cas(),
                s@,
            ),
    {
        match current {
            None => Step::Reply { response: Response::NotStored },
            Some(rec) => {
                proof {
                    assert(current.deep_view() == Some(rec@)) by {
                        assert(rec.deep_view() =~= rec@);
                    }
                }
                if rec.len() < 20 {
                    Step::Reply { response: Response::ServerError }
                } else {
                    let existing = record_payload_vec(rec.as_slice());
                    let combined = match order {
                        CombineOrder::AfterExisting => concat_bytes(existing.as_slice(), value),
                        CombineOrder::BeforeExisting => concat_bytes(value, existing.as_slice()),
                    };
                    self.insert_at(key, flags, ttl, combined.as_slice(), now)
                }
            },
        }
    }

    /// The `append` decision: concatenate after the stored payload.
    pub fn append(
        &mut self,
        key: &[u8],
        flags: u32,
        ttl: u64,
        value: &[u8],
        current: &Option<Vec<u8>>,
    ) -> (s: Step)
        requires
            old(self).cas() < u64::MAX,
        ensures
            exists|now: u64|
                #[trigger] spec_combine_step(
                    old(self).cas(),
                    key@,
                    flags,
                    ttl,
                    value@,
                    current.deep_view(),
                    CombineOrder::AfterExisting,
                    now,
                    final(self).cas(),
                    s@,
                ),
    {
        let now = current_second();
        let s = self.update_combined(
            key,
            flags,
            ttl,
            value,
            current,
            CombineOrder::AfterExisting,
            now,
        );
        proof {
            assert(spec_combine_step(
                old(self).cas(),
                key@,
                flags,
                ttl,
                value@,
                current.deep_view(),
                CombineOrder::AfterExisting,
                now,
                final(self).cas(),
                s@,
            ));
        }
        s
    }

    /// The `prepend` decision: concatenate before the stored payload.
    pub fn prepend(
        &mut self,
        key: &[u8],
        flags: u32,
        ttl: u64,
        value: &[u8],
        current: &Option<Vec<u8>>,
    ) -> (s: Step)
        requires
            old(self).cas() < u64::MAX,
        ensures
            exists|now: u64|
                #[trigger] spec_combine_step(
                    old(self).cas(),
                    key@,
                    flags,
                    ttl,
                    value@,
                    current.deep_view(),
                    CombineOrder::BeforeExisting,
                    now,
                    final(self).cas(),
                    s@,
                ),
    {
        let now = current_second();
        let s = self.update_combined(
            key,
            flags,
            ttl,
            value,
            current,
            CombineOrder::BeforeExisting,
            now,
        );
        proof {
            assert(spec_combine_step(
                old(self).cas(),
                key@,
                flags,
                ttl,
                value@,
                current.deep_view(),
                CombineOrder::BeforeExisting,
                now,
                final(self).cas(),
                s@,
            ));
        }
        s
    }

    /// The shared `incr`/`decr` decision at a known second.
    pub fn update_number(
        &mut self,
        key: &[u8],
        amount: u64,
        op: NumberOp,
        current: &Option<Vec<u8>>,
        now: u64,
    ) -> (s: Step)
        requires
            old(self).cas() < u64::MAX,
        ensures
            spec_update_number_step(
                old(self).cas(),
                key@,
                amount,
                op,
                current.deep_view(),
                now,
                final(self).cas(),
                s@,
            ),
    {
        match current {
            None => Step::Reply { response: Response::NotStored },
            Some(rec) => {
                proof {
                    assert(current.deep_view() == Some(rec@)) by {
                        assert(rec.deep_view() =~= rec@);
                    }
                }
                if rec.len() < 20 {
                    return Step::Reply { response: Response::ServerError };
                }
                let deadline = crate::record::be_field(rec.as_slice(), 0, 8);
                if deadline < now {
                    return Step::Reply { response: Response::NotFoundError };
                }
                let payload = record_payload_vec(rec.as_slice());
                let stored = match crate::byte_utils::convert_bytes_to_u64(payload.as_slice()) {
                    Ok(v) => v,
                    Err(_) => {
                        let msg: Vec<u8> = vec![67u8, 76u8, 73u8, 69u8, 78u8, 84u8, 95u8, 69u8, 82u8, 82u8, 79u8, 82u8, 32u8, 99u8, 97u8, 110u8, 110u8, 111u8, 116u8, 32u8, 105u8, 110u8, 99u8, 114u8, 101u8, 109u8, 101u8, 110u8, 116u8, 32u8, 111u8, 114u8, 32u8, 100u8, 101u8, 99u8, 114u8, 101u8, 109u8, 101u8, 110u8, 116u8, 32u8, 110u8, 111u8, 110u8, 45u8, 110u8, 117u8, 109u8, 101u8, 114u8, 105u8, 99u8, 32u8, 118u8, 97u8, 108u8, 117u8, 101u8, 13u8, 10u8];
                        proof {
                            assert(msg@ =~= client_error_line());
                        }
                        return Step::Reply { response: Response::ClientError { msg } };
                    },
                };
                proof {
                    crate::byte_utils::lemma_dec_val_nonneg(rec_payload(rec@));
                }
                let updated = match op {
                    NumberOp::Incr => stored.saturating_add(amount),
                    NumberOp::Decr => stored.saturating_sub(amount),
                };
                let newtext = u64_to_bytes(updated);
                let mut reply_bytes = vstd::slice::slice_to_vec(newtext.as_slice());
                reply_bytes.push(13);
                reply_bytes.push(10);
                proof {
                    assert(reply_bytes@ =~= dec_text(updated as nat) + seq![13u8, 10u8]);
                }
                let deadline_bytes = vstd::slice::slice_subrange(rec.as_slice(), 0, 8);
                let flag_bytes = vstd::slice::slice_subrange(rec.as_slice(), 16, 20);
                let s = self.insert_raw(
                    key,
                    deadline_bytes,
                    flag_bytes,
                    newtext.as_slice(),
                    Response::Value { value: reply_bytes },
                );
                s
            },
        }
    }

    /// The `incr` decision.
    pub fn increment(&mut self, key: &[u8], amount: u64, current: &Option<Vec<u8>>) -> (s: Step)
        requires
            old(self).cas() < u64::MAX,
        ensures
            exists|now: u64|
                #[trigger] spec_update_number_step(
                    old(self).cas(),
                    key@,
                    amount,
                    NumberOp::Incr,
                    current.deep_view(),
                    now,
                    final(self).cas(),
                    s@,
                ),
    {
        let now = current_second();
        let s = self.update_number(key, amount, NumberOp::Incr, current, now);
        proof {
            assert(spec_update_number_step(
                old(self).cas(),
                key@,
                amount,
                NumberOp::Incr,
                current.deep_view(),
                now,
                final(self).cas(),
                s@,
            ));
        }
        s
    }

    /// The `decr` decision.
    pub fn decrement(&mut self, key: &[u8], amount: u64, current: &Option<Vec<u8>>) -> (s: Step)
        requires
            old(self).cas() < u64::MAX,
        ensures
            exists|now: u64|
                #[trigger] spec_update_number_step(
                    old(self).cas(),
                    key@,
                    amount,
                    NumberOp::Decr,
                    current.deep_view(),
                    now,
                    final(self).cas(),
                    s@,
                ),
    {
        let now = current_second();
        let s = self.update_number(key, amount, NumberOp::Decr, current, now);
        proof {
            assert(spec_update_number_step(
                old(self).cas(),
                key@,
                amount,
                NumberOp::Decr,
                current.deep_view(),
                now,
                final(self).cas(),
                s@,
            ));
        }
        s
    }

    /// The `delete` decision: ask the engine to delete unconditionally.
    pub fn delete(&self, key: &[u8]) -> (s: Step)
        ensures
            s@ == (StepView::Delete { key: key@ }),
    {
        Step::Delete { key: vstd::slice::slice_to_vec(key) }
    }
}

/// Concatenates two byte strings.
pub fn concat_bytes(a: &[u8], b: &[u8]) -> (r: Vec<u8>)
    ensures
        r@ == a@ + b@,
{
    let mut r = vstd::slice::slice_to_vec(a);
    let mut tail = vstd::slice::slice_to_vec(b);
    r.append(&mut tail);
    r
}

/// `VALUE ` — the head of one value block.
pub open spec fn value_head() -> Seq<u8> {
    seq![86u8, 65u8, 76u8, 85u8, 69u8, 32u8]
}

/// A single space.
pub open spec fn sp() -> Seq<u8> {
    seq![32u8]
}

/// The CRLF line terminator.
pub open spec fn crlf() -> Seq<u8> {
    seq![13u8, 10u8]
}

/// `END\r\n` — the marker that closes every read response.
pub open spec fn end_bytes() -> Seq<u8> {
    seq![69u8, 78u8, 68u8, 13u8, 10u8]
}

/// One rendered value block: `VALUE <key> <flags> <length>[ <cas>]`, CRLF,
/// the payload bytes, CRLF.
pub open spec fn spec_raw_block(
    key: Seq<u8>,
    cas: Option<u64>,
    flags: nat,
    payload: Seq<u8>,
) -> Seq<u8> {
    value_head() + key + sp() + dec_text(flags) + sp() + dec_text(payload.len()) + (match cas {
        Some(c) => sp() + dec_text(c as nat),
        None => Seq::empty(),
    }) + crlf() + payload + crlf()
}

/// The value block of a stored record; the CAS field appears only when the
/// read asked for it.
pub open spec fn spec_value_block(key: Seq<u8>, rec: Seq<u8>, include_cas: bool) -> Seq<u8> {
    spec_raw_block(
        key,
        if include_cas {
            Some(crate::record::rec_cas(rec) as u64)
        } else {
            None
        },
        crate::record::rec_flags(rec) as nat,
        rec_payload(rec),
    )
}

/// True iff every record that was read is long enough to be well formed.
pub open spec fn records_wf(records: Seq<Option<Seq<u8>>>) -> bool {
    forall|i: int|
        0 <= i < records.len() ==> (#[trigger] records[i] matches Some(rec) ==> record_wf(rec))
}

/// The body of a read response: one value block per requested key that was
/// found and is live at `now`, in request order, closed by the end marker —
/// absent and expired keys are silently skipped, and the marker stands even
/// when no key matched.
pub open spec fn spec_get_response(
    keys: Seq<Seq<u8>>,
    records: Seq<Option<Seq<u8>>>,
    include_cas: bool,
    now: u64,
) -> Seq<u8>
    decreases keys.len(),
{
    if keys.len() == 0 {
        end_bytes()
    } else {
        (match records[0] {
            Some(rec) => if record_wf(rec) && spec_live(rec, now) {
                spec_value_block(keys[0], rec, include_cas)
            } else {
                Seq::empty()
            },
            None => Seq::empty(),
        }) + spec_get_response(keys.skip(1), records.skip(1), include_cas, now)
    }
}

/// The whole outcome of a read: the rendered blocks, or the server-error
/// line when any record read back is corrupt.
pub open spec fn spec_get_result(
    keys: Seq<Seq<u8>>,
    records: Seq<Option<Seq<u8>>>,
    include_cas: bool,
    now: u64,
) -> ResponseView {
    if records_wf(records) {
        ResponseView::Value { value: spec_get_response(keys, records, include_cas, now) }
    } else {
        ResponseView::ServerError
    }
}

/// Renders one value block onto the accumulating response.
pub fn append_raw_get_response(
    key: &[u8],
    cas: Option<u64>,
    flags: u32,
    data_bytes: &[u8],
    out: &mut Vec<u8>,
)
    ensures
        final(out)@ == old(out)@ + spec_raw_block(key@, cas, flags as nat, data_bytes@),
{
    let mut head: Vec<u8> = vec![86u8, 65u8, 76u8, 85u8, 69u8, 32u8];
    proof {
        assert(head@ =~= value_head());
    }
    out.append(&mut head);
    let mut key_copy = vstd::slice::slice_to_vec(key);
    out.append(&mut key_copy);
    out.push(32);
    let mut flag_text = u64_to_bytes(flags as u64);
    out.append(&mut flag_text);
    out.push(32);
    let mut len_text = u64_to_bytes(data_bytes.len() as u64);
    out.append(&mut len_text);
    match cas {
        Some(c) => {
            out.push(32);
            let mut cas_text = u64_to_bytes(c);
            out.append(&mut cas_text);
        },
        None => (),
    }
    out.push(13);
    out.push(10);
    let mut data_copy = vstd::slice::slice_to_vec(data_bytes);
    out.append(&mut data_copy);
    out.push(13);
    out.push(10);
    proof {
        assert(final(out)@ =~= old(out)@ + spec_raw_block(key@, cas, flags as nat, data_bytes@));
    }
}

/// Renders the value block of one well-formed record if it is live at
/// `now`, and nothing otherwise.
pub fn append_get_response(key: &[u8], rec: &[u8], out: &mut Vec<u8>, include_cas: bool, now: u64)
    requires
        record_wf(rec@),
    ensures
        final(out)@ == old(out)@ + (if spec_live(rec@, now) {
            spec_value_block(key@, rec@, include_cas)
        } else {
            Seq::<u8>::empty()
        }),
{
    let deadline = crate::record::be_field(rec, 0, 8);
    if deadline >= now {
        let cas = if include_cas {
            Some(crate::record::be_field(rec, 8, 8))
        } else {
            None
        };
        let flags64 = crate::record::be_field(rec, 16, 4);
        proof {
            crate::record::lemma_be_val_bound(rec@.subrange(16, 20));
            crate::record::lemma_pow256_values();
            crate::record::lemma_be_val_bound(rec@.subrange(8, 16));
        }
        let flags = flags64 as u32;
        let payload = record_payload_vec(rec);
        append_raw_get_response(key, cas, flags, payload.as_slice(), out);
    } else {
        proof {
            assert(final(out)@ =~= old(out)@ + Seq::<u8>::empty());
        }
    }
}

/// Closes the accumulated blocks with the end marker and wraps them up.
pub fn finish_get_response(body: Vec<u8>) -> (r: Response)
    ensures
        r@ == (ResponseView::Value { value: body@ + end_bytes() }),
{
    let mut value = body;
    let mut marker: Vec<u8> = vec![69u8, 78u8, 68u8, 13u8, 10u8];
    proof {
        assert(marker@ =~= end_bytes());
    }
    value.append(&mut marker);
    Response::Value { value }
}

impl Database {
    /// The `get`/`gets` decision at a known second, over the records the
    /// engine read for the requested keys (in order; a read error counts as
    /// an absent key, as the engine reports them the same way here).
    pub fn get_at(
        &self,
        keys: &Vec<Vec<u8>>,
        records: &Vec<Option<Vec<u8>>>,
        include_cas: bool,
        now: u64,
    ) -> (r: Response)
        requires
            keys@.len() == records@.len(),
        ensures
            r@ == spec_get_result(keys.deep_view(), records.deep_view(), include_cas, now),
    {
        let ghost keys_dv = keys.deep_view();
        let ghost recs_dv = records.deep_view();
        proof {
            lemma_records_deep_view(records);
            crate::parser::lemma_deep_view_elems(keys);
        }
        let len = keys.len();
        let mut body: Vec<u8> = Vec::new();
        let mut i: usize = 0;
        proof {
            assert(keys_dv.skip(0) =~= keys_dv);
            assert(recs_dv.skip(0) =~= recs_dv);
            assert(body@ + spec_get_response(keys_dv, recs_dv, include_cas, now)
                =~= spec_get_response(keys_dv, recs_dv, include_cas, now));
        }
        while i < len
            invariant
                i <= len == keys@.len() == records@.len(),
                keys_dv == keys.deep_view(),
                recs_dv == records.deep_view(),
                keys_dv.len() == len,
                recs_dv.len() == len,
                forall|k: int| 0 <= k < len ==> keys_dv[k] == #[trigger] keys@[k]@,
                forall|k: int|
                    0 <= k < len ==> #[trigger] recs_dv[k] == (match records@[k] {
                        Some(rec) => Some(rec@),
                        None => None,
                    }),
                forall|k: int|
                    0 <= k < i ==> (#[trigger] recs_dv[k] matches Some(rec) ==> record_wf(rec)),
                spec_get_response(keys_dv, recs_dv, include_cas, now) == body@
                    + spec_get_response(
                    keys_dv.skip(i as int),
                    recs_dv.skip(i as int),
                    include_cas,
                    now,
                ),
            decreases len - i,
        {
            proof {
                assert(keys_dv.skip(i as int)[0] == keys_dv[i as int]);
                assert(recs_dv.skip(i as int)[0] == recs_dv[i as int]);
                assert(keys_dv.skip(i as int).skip(1) =~= keys_dv.skip(i + 1));
                assert(recs_dv.skip(i as int).skip(1) =~= recs_dv.skip(i + 1));
            }
            match &records[i] {
                Some(rec) => {
                    if rec.len() < 20 {
                        proof {
                            assert(recs_dv[i as int] matches Some(r) && !record_wf(r));
                            assert(!records_wf(recs_dv));
                        }
                        return Response::ServerError;
                    }
                    append_get_response(
                        keys[i].as_slice(),
                        rec.as_slice(),
                        &mut body,
                        include_cas,
                        now,
                    );
                },
                None => (),
            }
            i = i + 1;
        }
        proof {
            assert(records_wf(recs_dv));
            assert(keys_dv.skip(len as int).len() == 0);
            assert(spec_get_response(
                keys_dv.skip(len as int),
                recs_dv.skip(len as int),
                include_cas,
                now,
            ) == end_bytes());
        }
        finish_get_response(body)
    }

    /// The `get`/`gets` decision: renders the live records among the reads
    /// at the current clock second.
    pub fn get(
        &self,
        keys: &Vec<Vec<u8>>,
        records: &Vec<Option<Vec<u8>>>,
        include_cas: bool,
    ) -> (r: Response)
        requires
            keys@.len() == records@.len(),
        ensures
            exists|now: u64|
                r@ == #[trigger] spec_get_result(
                    keys.deep_view(),
                    records.deep_view(),
                    include_cas,
                    now,
                ),
    {
        let now = current_second();
        let r = self.get_at(keys, records, include_cas, now);
        proof {
            assert(r@ == spec_get_result(keys.deep_view(), records.deep_view(), include_cas, now));
        }
        r
    }
}

/// Relates the deep view of a vector of optional records to its elements.
pub proof fn lemma_records_deep_view(v: &Vec<Option<Vec<u8>>>)
    ensures
        v.deep_view().len() == v@.len(),
        forall|i: int|
            0 <= i < v@.len() ==> #[trigger] v.deep_view()[i] == (match v@[i] {
                Some(rec) => Some(rec@),
                None => None,
            }),
{
    assert forall|i: int|
        0 <= i < v@.len() implies #[trigger] v.deep_view()[i] == (match v@[i] {
        Some(rec) => Some(rec@),
        None => None,
    }) by {
        match v@[i] {
            Some(rec) => {
                assert(rec.deep_view() =~= rec@);
            },
            None => (),
        }
    }
}

/// Maps the engine's answer to a requested write onto the final response.
pub fn complete_put(put_ok: bool, on_ok: Response) -> (r: Response)
    ensures
        put_ok ==> r@ == on_ok@,
        !put_ok ==> r@ == ResponseView::ServerError,
{
    if put_ok {
        on_ok
    } else {
        Response::ServerError
    }
}

/// Maps the engine's answer to a requested delete onto the final response:
/// the stored ack on success, the specific not-found line otherwise.
pub fn complete_delete(delete_ok: bool) -> (r: Response)
    ensures
        delete_ok ==> r@ == ResponseView::Stored,
        !delete_ok ==> r@ == ResponseView::NotFoundError,
{
    if delete_ok {
        Response::Stored
    } else {
        Response::NotFoundError
    }
}

/// Relies on `std::time::SystemTime::now` and `duration_since`: whole
/// seconds since the UNIX epoch, or zero for a clock before it.  Nothing is
/// stated of the value: every caller's contract holds whatever second the
/// clock reports.
#[verifier::external_body]
pub fn current_second() -> u64 {
    match std::time::SystemTime::now().duration_since(std::time::SystemTime::UNIX_EPOCH) {
        Ok(d) => d.as_secs(),
        Err(_) => 0,
    }
}

} // verus!
