//! The properties the cache keeps, proved over the same specifications its
//! operations are verified against.
//!
//! The durable engine is modelled as a map from keys to raw record bytes:
//! `reads_of` says what exact reads of it return, and `apply_step_ok` what
//! a step does to it when the engine reports success.  The proof functions
//! here state the guarantees a caller that performs the reads and writes
//! faithfully obtains.

use vstd::prelude::*;

use crate::byte_utils::{
    dec_text, dec_val, is_valid_u64_text, lemma_dec_text_digits, lemma_dec_text_roundtrip,
};
use crate::command::spec_route;
use crate::db::{
    client_error_line, end_bytes, records_wf, sat_add, spec_add_step, spec_apply_number,
    spec_combine_step, spec_combined, spec_get_response, spec_get_result, spec_insert_step,
    spec_raw_block, spec_update_number_step, spec_value_block, CombineOrder, NumberOp, StepView,
};
use crate::record::{
    be_u64, lemma_be_bytes_len, lemma_be_val_be_bytes, lemma_pow256_values, lemma_record_fields,
    rec_cas, rec_deadline, rec_flags, rec_payload, record_wf, spec_encode_record, spec_live,
};
use crate::response::ResponseView;

verus! {

/// What an exact engine read of `key` returns.
pub open spec fn read_of(m: Map<Seq<u8>, Seq<u8>>, key: Seq<u8>) -> Option<Seq<u8>> {
    if m.contains_key(key) {
        Some(m[key])
    } else {
        None
    }
}

/// What exact engine reads of `keys` return, in order.
pub open spec fn reads_of(m: Map<Seq<u8>, Seq<u8>>, keys: Seq<Seq<u8>>) -> Seq<Option<Seq<u8>>> {
    Seq::new(keys.len(), |i: int| read_of(m, keys[i]))
}

/// What a step does to the engine's contents when the engine reports
/// success: a reply changes nothing, a put stores the record, a delete
/// removes the key.
pub open spec fn apply_step_ok(m: Map<Seq<u8>, Seq<u8>>, s: StepView) -> Map<Seq<u8>, Seq<u8>> {
    match s {
        StepView::Reply { response } => m,
        StepView::Put { key, record, on_ok } => m.insert(key, record),
        StepView::Delete { key } => m.remove(key),
    }
}

/// Inserting under `k` and then reading `[k]` returns one value block that
/// carries exactly the flags and payload that were inserted (and the fresh
/// CAS stamp when the read asks for it), as long as the read happens at a
/// second no later than the deadline `now_w + ttl`.
pub proof fn lemma_insert_then_get(
    m: Map<Seq<u8>, Seq<u8>>,
    pre_cas: u64,
    key: Seq<u8>,
    flags: u32,
    ttl: u64,
    value: Seq<u8>,
    now_w: u64,
    post_cas: u64,
    s: StepView,
    now_r: u64,
    include_cas: bool,
)
    requires
        spec_insert_step(pre_cas, key, flags, ttl, value, now_w, post_cas, s),
        now_r <= sat_add(now_w, ttl),
    ensures
        spec_get_result(
            seq![key],
            reads_of(apply_step_ok(m, s), seq![key]),
            include_cas,
            now_r,
        ) == (ResponseView::Value {
            value: spec_raw_block(
                key,
                if include_cas {
                    Some(post_cas)
                } else {
                    None
                },
                flags as nat,
                value,
            ) + end_bytes(),
        }),
{
    let record = spec_encode_record(sat_add(now_w, ttl), post_cas, flags, value);
    lemma_record_fields(sat_add(now_w, ttl), post_cas, flags, value);
    let m2 = apply_step_ok(m, s);
    let keys = seq![key];
    let reads = reads_of(m2, keys);
    assert(m2 == m.insert(key, record));
    assert(m2.contains_key(key) && m2[key] == record);
    assert(reads =~= seq![Some(record)]);
    assert(record_wf(record));
    assert(records_wf(reads));
    assert(spec_live(record, now_r));
    assert(keys.skip(1).len() == 0);
    assert(spec_get_response(keys.skip(1), reads.skip(1), include_cas, now_r) == end_bytes());
    assert(spec_value_block(key, record, include_cas) == spec_raw_block(
        key,
        if include_cas {
            Some(post_cas)
        } else {
            None
        },
        flags as nat,
        value,
    ));
    assert(spec_get_response(keys, reads, include_cas, now_r) == spec_value_block(
        key,
        record,
        include_cas,
    ) + end_bytes());
}

/// A record written with `ttl = 0` carries the write second itself as its
/// deadline: it is live during that same epoch second and expired in any
/// later one — the boundary is non-strict at write time, strict thereafter.
pub proof fn lemma_ttl_zero_liveness(
    pre_cas: u64,
    key: Seq<u8>,
    flags: u32,
    value: Seq<u8>,
    now_w: u64,
    post_cas: u64,
    s: StepView,
    now_r: u64,
)
    requires
        spec_insert_step(pre_cas, key, flags, 0, value, now_w, post_cas, s),
    ensures
        s matches StepView::Put { record, .. } ==> (spec_live(record, now_r) <==> now_r <= now_w),
{
    lemma_record_fields(sat_add(now_w, 0), post_cas, flags, value);
    assert(sat_add(now_w, 0) == now_w);
}

/// The body of a read over exact engine reads, written against the engine
/// map itself: one block per requested key whose record is present, well
/// formed and live, in request order, closed by the end marker.
pub open spec fn spec_live_blocks(
    m: Map<Seq<u8>, Seq<u8>>,
    keys: Seq<Seq<u8>>,
    include_cas: bool,
    now: u64,
) -> Seq<u8>
    decreases keys.len(),
{
    if keys.len() == 0 {
        end_bytes()
    } else {
        (if m.contains_key(keys[0]) && record_wf(m[keys[0]]) && spec_live(m[keys[0]], now) {
            spec_value_block(keys[0], m[keys[0]], include_cas)
        } else {
            Seq::<u8>::empty()
        }) + spec_live_blocks(m, keys.skip(1), include_cas, now)
    }
}

/// A read over exact engine reads returns value blocks for the live,
/// present keys only, in the order requested, and is terminated by the end
/// marker even when no block is produced.
pub proof fn lemma_get_live_blocks(
    m: Map<Seq<u8>, Seq<u8>>,
    keys: Seq<Seq<u8>>,
    include_cas: bool,
    now: u64,
)
    ensures
        spec_get_response(keys, reads_of(m, keys), include_cas, now) == spec_live_blocks(
            m,
            keys,
            include_cas,
            now,
        ),
    decreases keys.len(),
{
    let reads = reads_of(m, keys);
    if keys.len() == 0 {
    } else {
        lemma_get_live_blocks(m, keys.skip(1), include_cas, now);
        assert(reads.skip(1) =~= reads_of(m, keys.skip(1)));
        assert(reads[0] == read_of(m, keys[0]));
    }
}

/// A read whose keys are all absent or expired produces no block at all:
/// its whole response is the bare end marker.
pub proof fn lemma_get_nothing_live(
    m: Map<Seq<u8>, Seq<u8>>,
    keys: Seq<Seq<u8>>,
    include_cas: bool,
    now: u64,
)
    requires
        forall|i: int|
            0 <= i < keys.len() ==> (m.contains_key(#[trigger] keys[i]) ==> !spec_live(
                m[keys[i]],
                now,
            )),
    ensures
        spec_get_response(keys, reads_of(m, keys), include_cas, now) == end_bytes(),
    decreases keys.len(),
{
    lemma_get_live_blocks(m, keys, include_cas, now);
    if keys.len() > 0 {
        assert(forall|i: int|
            0 <= i < keys.skip(1).len() ==> #[trigger] keys.skip(1)[i] == keys[i + 1]);
        lemma_get_nothing_live(m, keys.skip(1), include_cas, now);
        lemma_get_live_blocks(m, keys.skip(1), include_cas, now);
    }
}

/// `add` on a key whose record is live never mutates anything: the counter
/// stands, the engine is not written, and the reply is the not-stored line.
pub proof fn lemma_add_on_live_key(
    m: Map<Seq<u8>, Seq<u8>>,
    pre_cas: u64,
    key: Seq<u8>,
    flags: u32,
    ttl: u64,
    value: Seq<u8>,
    now: u64,
    post_cas: u64,
    s: StepView,
)
    requires
        spec_add_step(pre_cas, key, flags, ttl, value, read_of(m, key), now, post_cas, s),
        m.contains_key(key),
        record_wf(m[key]),
        spec_live(m[key], now),
    ensures
        post_cas == pre_cas,
        s == (StepView::Reply { response: ResponseView::NotStored }),
        apply_step_ok(m, s) == m,
{
}

/// `add` on an absent or expired key decides exactly as `set` does.
pub proof fn lemma_add_like_set(
    m: Map<Seq<u8>, Seq<u8>>,
    pre_cas: u64,
    key: Seq<u8>,
    flags: u32,
    ttl: u64,
    value: Seq<u8>,
    now: u64,
    post_cas: u64,
    s: StepView,
)
    requires
        m.contains_key(key) ==> record_wf(m[key]) && !spec_live(m[key], now),
    ensures
        spec_add_step(pre_cas, key, flags, ttl, value, read_of(m, key), now, post_cas, s)
            <==> spec_insert_step(pre_cas, key, flags, ttl, value, now, post_cas, s),
{
}

/// Combining into an absent key writes nothing and replies not-stored.
pub proof fn lemma_combine_absent(
    m: Map<Seq<u8>, Seq<u8>>,
    pre_cas: u64,
    key: Seq<u8>,
    flags: u32,
    ttl: u64,
    value: Seq<u8>,
    order: CombineOrder,
    now: u64,
    post_cas: u64,
    s: StepView,
)
    requires
        !m.contains_key(key),
        spec_combine_step(
            pre_cas,
            key,
            flags,
            ttl,
            value,
            read_of(m, key),
            order,
            now,
            post_cas,
            s,
        ),
    ensures
        post_cas == pre_cas,
        s == (StepView::Reply { response: ResponseView::NotStored }),
        apply_step_ok(m, s) == m,
{
}

/// Combining into a present, well-formed record stores exactly `old ‖ new`
/// (append) or `new ‖ old` (prepend), refreshes the flags to the ones the
/// call passed, and stamps a strictly newer CAS value.
pub proof fn lemma_combine_present(
    pre_cas: u64,
    key: Seq<u8>,
    flags: u32,
    ttl: u64,
    value: Seq<u8>,
    rec: Seq<u8>,
    order: CombineOrder,
    now: u64,
    post_cas: u64,
    s: StepView,
)
    requires
        record_wf(rec),
        rec_cas(rec) <= pre_cas,
        spec_combine_step(pre_cas, key, flags, ttl, value, Some(rec), order, now, post_cas, s),
    ensures
        s matches StepView::Put { key: k, record: newrec, .. } ==> {
            &&& k == key
            &&& rec_payload(newrec) == spec_combined(order, rec_payload(rec), value)
            &&& rec_flags(newrec) == flags
            &&& rec_cas(newrec) == post_cas
            &&& post_cas == pre_cas + 1
            &&& rec_cas(newrec) > rec_cas(rec)
        },
{
    lemma_record_fields(
        sat_add(now, ttl),
        post_cas,
        flags,
        spec_combined(order, rec_payload(rec), value),
    );
}

/// `incr`/`decr` on a live record whose payload is not a decimal numeral
/// changes nothing and replies with the client-error text.
pub proof fn lemma_number_non_numeric(
    m: Map<Seq<u8>, Seq<u8>>,
    pre_cas: u64,
    key: Seq<u8>,
    amount: u64,
    op: NumberOp,
    now: u64,
    post_cas: u64,
    s: StepView,
)
    requires
        m.contains_key(key),
        record_wf(m[key]),
        rec_deadline(m[key]) >= now,
        !is_valid_u64_text(rec_payload(m[key])),
        spec_update_number_step(pre_cas, key, amount, op, read_of(m, key), now, post_cas, s),
    ensures
        post_cas == pre_cas,
        s == (StepView::Reply { response: ResponseView::ClientError { msg: client_error_line() } }),
        apply_step_ok(m, s) == m,
{
}

/// `incr`/`decr` on a live numeric record writes back the updated value as
/// decimal text, preserving the record's deadline and flags exactly while
/// stamping a fresh CAS value; reading the payload back yields the updated
/// number.
pub proof fn lemma_number_numeric(
    pre_cas: u64,
    key: Seq<u8>,
    amount: u64,
    op: NumberOp,
    rec: Seq<u8>,
    now: u64,
    post_cas: u64,
    s: StepView,
)
    requires
        record_wf(rec),
        rec_deadline(rec) >= now,
        is_valid_u64_text(rec_payload(rec)),
        spec_update_number_step(pre_cas, key, amount, op, Some(rec), now, post_cas, s),
    ensures
        s matches StepView::Put { key: k, record: newrec, on_ok } ==> {
            &&& k == key
            &&& record_wf(newrec)
            &&& rec_payload(newrec) == dec_text(
                spec_apply_number(op, dec_val(rec_payload(rec)) as u64, amount) as nat,
            )
            &&& dec_val(rec_payload(newrec)) == spec_apply_number(
                op,
                dec_val(rec_payload(rec)) as u64,
                amount,
            )
            &&& rec_deadline(newrec) == rec_deadline(rec)
            &&& rec_flags(newrec) == rec_flags(rec)
            &&& rec_cas(newrec) == post_cas
            &&& post_cas == pre_cas + 1
            &&& on_ok == (ResponseView::Value {
                value: rec_payload(newrec) + seq![13u8, 10u8],
            })
        },
{
    let stored = dec_val(rec_payload(rec)) as u64;
    let updated = spec_apply_number(op, stored, amount);
    let newtext = dec_text(updated as nat);
    let newrec = rec.subrange(0, 8) + be_u64(post_cas) + rec.subrange(16, 20) + newtext;
    lemma_be_bytes_len(post_cas as int, 8);
    lemma_dec_text_digits(updated as nat);
    lemma_dec_text_roundtrip(updated as nat);
    assert(newrec.subrange(0, 8) =~= rec.subrange(0, 8));
    assert(newrec.subrange(8, 16) =~= be_u64(post_cas));
    assert(newrec.subrange(16, 20) =~= rec.subrange(16, 20));
    assert(newrec.skip(20) =~= newtext);
    lemma_pow256_values();
    lemma_be_val_be_bytes(post_cas as int, 8);
}

/// `incr`/`decr` and then a read of the same key: the value block carries
/// the updated number as decimal text, under the record's original flags,
/// for as long as the preserved deadline keeps the record live.
pub proof fn lemma_number_then_get(
    m: Map<Seq<u8>, Seq<u8>>,
    pre_cas: u64,
    key: Seq<u8>,
    amount: u64,
    op: NumberOp,
    rec: Seq<u8>,
    now: u64,
    post_cas: u64,
    s: StepView,
    now_r: u64,
    include_cas: bool,
)
    requires
        record_wf(rec),
        rec_deadline(rec) >= now,
        is_valid_u64_text(rec_payload(rec)),
        spec_update_number_step(pre_cas, key, amount, op, Some(rec), now, post_cas, s),
        now_r <= rec_deadline(rec),
    ensures
        spec_get_result(
            seq![key],
            reads_of(apply_step_ok(m, s), seq![key]),
            include_cas,
            now_r,
        ) == (ResponseView::Value {
            value: spec_raw_block(
                key,
                if include_cas {
                    Some(post_cas)
                } else {
                    None
                },
                rec_flags(rec) as nat,
                dec_text(spec_apply_number(op, dec_val(rec_payload(rec)) as u64, amount) as nat),
            ) + end_bytes(),
        }),
{
    lemma_number_numeric(pre_cas, key, amount, op, rec, now, post_cas, s);
    let newtext = dec_text(spec_apply_number(op, dec_val(rec_payload(rec)) as u64, amount) as nat);
    let newrec = rec.subrange(0, 8) + be_u64(post_cas) + rec.subrange(16, 20) + newtext;
    assert(s == (StepView::Put {
        key,
        record: newrec,
        on_ok: ResponseView::Value { value: newtext + seq![13u8, 10u8] },
    }));
    let m2 = apply_step_ok(m, s);
    let keys = seq![key];
    let reads = reads_of(m2, keys);
    assert(m2 == m.insert(key, newrec));
    assert(reads =~= seq![Some(newrec)]);
    assert(records_wf(reads));
    assert(spec_live(newrec, now_r));
    assert(keys.skip(1).len() == 0);
    assert(spec_get_response(keys.skip(1), reads.skip(1), include_cas, now_r) == end_bytes());
    assert(rec_cas(newrec) == post_cas);
    assert(spec_value_block(key, newrec, include_cas) == spec_raw_block(
        key,
        if include_cas {
            Some(post_cas)
        } else {
            None
        },
        rec_flags(rec) as nat,
        newtext,
    ));
    assert(spec_get_response(keys, reads, include_cas, now_r) == spec_value_block(
        key,
        newrec,
        include_cas,
    ) + end_bytes());
}

/// What any routed command may do to the CAS counter: it never decreases,
/// and every step that writes a record advances it by exactly one and
/// stamps the written record with the new value.
pub open spec fn route_cas_ok(pre_cas: u64, post_cas: u64, s: StepView) -> bool {
    &&& pre_cas <= post_cas
    &&& (s matches StepView::Put { record, .. } ==> post_cas == pre_cas + 1 && rec_cas(record)
        == post_cas)
}

/// Every command the router decides observes the CAS discipline: the
/// counter never decreases, and each written record carries the value the
/// counter advanced to.
pub proof fn lemma_route_cas(
    pre_cas: u64,
    c: crate::command::CommandView,
    reads: Seq<Option<Seq<u8>>>,
    now: u64,
    post_cas: u64,
    s: StepView,
)
    requires
        spec_route(pre_cas, c, reads, now, post_cas, s),
    ensures
        route_cas_ok(pre_cas, post_cas, s),
{
    match c {
        crate::command::CommandView::SetCmd { key, flags, ttl, value } => {
            lemma_record_fields(sat_add(now, ttl), post_cas, flags, value);
        },
        crate::command::CommandView::Add { key, flags, ttl, value } => {
            if s is Put {
                lemma_record_fields(sat_add(now, ttl), post_cas, flags, value);
            }
        },
        crate::command::CommandView::Append { key, flags, ttl, value } => {
            if s is Put {
                match reads[0] {
                    Some(rec) => {
                        lemma_record_fields(
                            sat_add(now, ttl),
                            post_cas,
                            flags,
                            spec_combined(CombineOrder::AfterExisting, rec_payload(rec), value),
                        );
                    },
                    None => (),
                }
            }
        },
        crate::command::CommandView::Prepend { key, flags, ttl, value } => {
            if s is Put {
                match reads[0] {
                    Some(rec) => {
                        lemma_record_fields(
                            sat_add(now, ttl),
                            post_cas,
                            flags,
                            spec_combined(CombineOrder::BeforeExisting, rec_payload(rec), value),
                        );
                    },
                    None => (),
                }
            }
        },
        crate::command::CommandView::Increment { key, value } => {
            lemma_number_route_cas(pre_cas, key, value, NumberOp::Incr, reads, now, post_cas, s);
        },
        crate::command::CommandView::Decrement { key, value } => {
            lemma_number_route_cas(pre_cas, key, value, NumberOp::Decr, reads, now, post_cas, s);
        },
        _ => (),
    }
}

/// The CAS discipline of a counter update.
proof fn lemma_number_route_cas(
    pre_cas: u64,
    key: Seq<u8>,
    amount: u64,
    op: NumberOp,
    reads: Seq<Option<Seq<u8>>>,
    now: u64,
    post_cas: u64,
    s: StepView,
)
    requires
        spec_update_number_step(pre_cas, key, amount, op, reads[0], now, post_cas, s),
    ensures
        route_cas_ok(pre_cas, post_cas, s),
{
    if s is Put {
        match reads[0] {
            Some(rec) => {
                if record_wf(rec) && rec_deadline(rec) >= now && is_valid_u64_text(
                    rec_payload(rec),
                ) {
                    lemma_number_numeric(pre_cas, key, amount, op, rec, now, post_cas, s);
                }
            },
            None => (),
        }
    }
}

/// Across all keys and operation types, a successful write that completes
/// before another observes a strictly smaller CAS stamp: the first write
/// leaves the counter at its stamp, no operation ever lowers it, and the
/// second write stamps the counter's next value.
pub proof fn lemma_cas_strictly_increases(
    c0: u64,
    c1: u64,
    s1: StepView,
    c2: u64,
    c3: u64,
    s2: StepView,
)
    requires
        route_cas_ok(c0, c1, s1),
        c1 <= c2,
        route_cas_ok(c2, c3, s2),
    ensures
        s1 matches StepView::Put { record: r1, .. } ==> (s2 matches StepView::Put {
            record: r2,
            ..
        } ==> rec_cas(r2) > rec_cas(r1)),
{
}

} // verus!
