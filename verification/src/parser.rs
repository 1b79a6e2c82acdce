//! The protocol decoder.
//!
//! A command is one CRLF-terminated line of tokens separated by runs of
//! spaces or tabs; the set-family commands carry a value block, also
//! CRLF-terminated, whose bytes are located by scanning for the terminator
//! (a declared length token, when present, is accepted and ignored).
//! Decoding is total and deterministic — `spec_parse` is the grammar, and
//! `parse` returns exactly what it denotes — and performs no side effects.
//! Input past the final CRLF of a decoded command is ignored.

use vstd::prelude::*;

use crate::byte_utils::{
    all_digits, convert_bytes_to_u64, dec_val, is_valid_u32_text, is_valid_u64_text,
};
use crate::command::{Command, CommandView};

verus! {

/// True iff `b` separates tokens (space or horizontal tab).
pub open spec fn is_sep(b: u8) -> bool {
    b == 32 || b == 9
}

/// True iff `b` may stand inside a token: anything but a separator, CR or LF.
pub open spec fn is_tok_byte(b: u8) -> bool {
    !is_sep(b) && b != 13 && b != 10
}

/// Position of the first CRLF at or after `i`, if any.
pub open spec fn find_crlf_from(s: Seq<u8>, i: nat) -> Option<nat>
    decreases s.len() - i,
{
    if i + 2 > s.len() {
        None
    } else if s[i as int] == 13 && s[(i + 1) as int] == 10 {
        Some(i)
    } else {
        find_crlf_from(s, i + 1)
    }
}

/// Position of the first CRLF in `s`, if any.
pub open spec fn find_crlf(s: Seq<u8>) -> Option<nat> {
    find_crlf_from(s, 0)
}

/// Length of the maximal token at position `i`.
pub open spec fn tok_len_from(s: Seq<u8>, i: nat) -> nat
    decreases s.len() - i,
{
    if i >= s.len() || !is_tok_byte(s[i as int]) {
        0
    } else {
        1 + tok_len_from(s, i + 1)
    }
}

/// Length of the maximal separator run at position `i`.
pub open spec fn sep_len_from(s: Seq<u8>, i: nat) -> nat
    decreases s.len() - i,
{
    if i >= s.len() || !is_sep(s[i as int]) {
        0
    } else {
        1 + sep_len_from(s, i + 1)
    }
}

/// Splits the suffix of a command line starting at `i` into its tokens.
///
/// `None` marks a malformed line: a separator where a token must start, a
/// stray CR or LF, or a trailing separator run.
pub open spec fn split_tokens_from(s: Seq<u8>, i: nat) -> Option<Seq<Seq<u8>>>
    decreases s.len() - i,
{
    if i >= s.len() {
        Some(Seq::empty())
    } else {
        let t = tok_len_from(s, i);
        if t == 0 {
            None
        } else {
            let tok = s.subrange(i as int, (i + t) as int);
            if i + t >= s.len() {
                Some(seq![tok])
            } else {
                let p = sep_len_from(s, i + t);
                if p == 0 {
                    None
                } else if i + t + p >= s.len() {
                    None
                } else {
                    match split_tokens_from(s, i + t + p) {
                        None => None,
                        Some(ts) => Some(seq![tok] + ts),
                    }
                }
            }
        }
    }
}

/// The tokens of a whole command line.
pub open spec fn split_tokens(s: Seq<u8>) -> Option<Seq<Seq<u8>>> {
    split_tokens_from(s, 0)
}

/// `get`
pub open spec fn verb_get() -> Seq<u8> {
    seq![103u8, 101u8, 116u8]
}

/// `gets`
pub open spec fn verb_gets() -> Seq<u8> {
    seq![103u8, 101u8, 116u8, 115u8]
}

/// `delete`
pub open spec fn verb_delete() -> Seq<u8> {
    seq![100u8, 101u8, 108u8, 101u8, 116u8, 101u8]
}

/// `set`
pub open spec fn verb_set() -> Seq<u8> {
    seq![115u8, 101u8, 116u8]
}

/// `add`
pub open spec fn verb_add() -> Seq<u8> {
    seq![97u8, 100u8, 100u8]
}

/// `append`
pub open spec fn verb_append() -> Seq<u8> {
    seq![97u8, 112u8, 112u8, 101u8, 110u8, 100u8]
}

/// `prepend`
pub open spec fn verb_prepend() -> Seq<u8> {
    seq![112u8, 114u8, 101u8, 112u8, 101u8, 110u8, 100u8]
}

/// `incr`
pub open spec fn verb_incr() -> Seq<u8> {
    seq![105u8, 110u8, 99u8, 114u8]
}

/// `decr`
pub open spec fn verb_decr() -> Seq<u8> {
    seq![100u8, 101u8, 99u8, 114u8]
}

/// Shape of a set-family command line: a key, a numeric flags token, a
/// numeric ttl token, and an optional all-digits length token that the
/// decoder ignores.
pub open spec fn setlike_shape_ok(toks: Seq<Seq<u8>>) -> bool {
    &&& (toks.len() == 4 || toks.len() == 5)
    &&& is_valid_u32_text(toks[2])
    &&& is_valid_u64_text(toks[3])
    &&& (toks.len() == 5 ==> all_digits(toks[4]) && toks[4].len() > 0)
}

/// The common fields of a set-family command: key, flags, ttl and the value
/// block scanned out of `rest` up to the next CRLF.
pub open spec fn spec_setlike(toks: Seq<Seq<u8>>, rest: Seq<u8>) -> Option<
    (Seq<u8>, u32, u64, Seq<u8>),
> {
    if setlike_shape_ok(toks) {
        match find_crlf(rest) {
            None => None,
            Some(j) => Some(
                (toks[1], dec_val(toks[2]) as u32, dec_val(toks[3]) as u64, rest.take(j as int)),
            ),
        }
    } else {
        None
    }
}

/// The key and amount of a counter command.
pub open spec fn spec_incrlike(toks: Seq<Seq<u8>>) -> Option<(Seq<u8>, u64)> {
    if toks.len() == 3 && is_valid_u64_text(toks[2]) {
        Some((toks[1], dec_val(toks[2]) as u64))
    } else {
        None
    }
}

/// Maps the tokens of the command line (and the bytes after it, for the
/// value block of the set family) to the command they denote.
pub open spec fn spec_dispatch(toks: Seq<Seq<u8>>, rest: Seq<u8>) -> Option<CommandView> {
    if toks.len() == 0 {
        None
    } else if toks[0] == verb_get() {
        if toks.len() >= 2 {
            Some(CommandView::Get { keys: toks.skip(1) })
        } else {
            None
        }
    } else if toks[0] == verb_gets() {
        if toks.len() >= 2 {
            Some(CommandView::Gets { keys: toks.skip(1) })
        } else {
            None
        }
    } else if toks[0] == verb_delete() {
        if toks.len() == 2 {
            Some(CommandView::Delete { key: toks[1] })
        } else {
            None
        }
    } else if toks[0] == verb_set() {
        match spec_setlike(toks, rest) {
            None => None,
            Some((key, flags, ttl, value)) => Some(CommandView::SetCmd { key, flags, ttl, value }),
        }
    } else if toks[0] == verb_add() {
        match spec_setlike(toks, rest) {
            None => None,
            Some((key, flags, ttl, value)) => Some(CommandView::Add { key, flags, ttl, value }),
        }
    } else if toks[0] == verb_append() {
        match spec_setlike(toks, rest) {
            None => None,
            Some((key, flags, ttl, value)) => Some(CommandView::Append { key, flags, ttl, value }),
        }
    } else if toks[0] == verb_prepend() {
        match spec_setlike(toks, rest) {
            None => None,
            Some((key, flags, ttl, value)) => Some(
                CommandView::Prepend { key, flags, ttl, value },
            ),
        }
    } else if toks[0] == verb_incr() {
        match spec_incrlike(toks) {
            None => None,
            Some((key, value)) => Some(CommandView::Increment { key, value }),
        }
    } else if toks[0] == verb_decr() {
        match spec_incrlike(toks) {
            None => None,
            Some((key, value)) => Some(CommandView::Decrement { key, value }),
        }
    } else {
        None
    }
}

/// The command denoted by a raw buffer, if it is well formed: the bytes up
/// to the first CRLF are the command line, and for the set family the bytes
/// after it up to the next CRLF are the value.
pub open spec fn spec_parse(s: Seq<u8>) -> Option<CommandView> {
    match find_crlf(s) {
        None => None,
        Some(i) => {
            let line = s.take(i as int);
            let rest = s.skip((i + 2) as int);
            match split_tokens(line) {
                None => None,
                Some(toks) => spec_dispatch(toks, rest),
            }
        },
    }
}

/// The reason a malformed buffer is rejected with.
pub open spec fn parse_error_msg() -> Seq<char> {
    "Unable to parse command"@
}

/// Finds the first CRLF of a buffer.
fn find_crlf_exec(s: &[u8]) -> (r: Option<usize>)
    ensures
        r matches Some(i) ==> i + 2 <= s@.len() && find_crlf(s@) == Some(i as nat),
        r is None ==> find_crlf(s@) is None,
{
    let len = s.len();
    if len < 2 {
        return None;
    }
    let mut i: usize = 0;
    while i <= len - 2
        invariant
            len >= 2,
            i <= len - 1,
            len == s@.len(),
            find_crlf(s@) == find_crlf_from(s@, i as nat),
        decreases len - i,
    {
        if s[i] == 13 && s[i + 1] == 10 {
            return Some(i);
        }
        i = i + 1;
    }
    None
}

/// Measures the token starting at `i`.
fn scan_token(line: &[u8], i: usize) -> (t: usize)
    requires
        i <= line@.len(),
    ensures
        t == tok_len_from(line@, i as nat),
        i + t <= line@.len(),
{
    let len = line.len();
    let mut j: usize = i;
    while j < len
        invariant
            i <= j <= len == line@.len(),
            tok_len_from(line@, i as nat) == (j - i) + tok_len_from(line@, j as nat),
        ensures
            i <= j <= len,
            tok_len_from(line@, i as nat) == (j - i) + tok_len_from(line@, j as nat),
            j == len || tok_len_from(line@, j as nat) == 0,
        decreases len - j,
    {
        let b = line[j];
        if b == 32 || b == 9 || b == 13 || b == 10 {
            proof {
                assert(tok_len_from(line@, j as nat) == 0);
            }
            break ;
        }
        j = j + 1;
    }
    j - i
}

/// Measures the separator run starting at `i`.
fn scan_sep(line: &[u8], i: usize) -> (p: usize)
    requires
        i <= line@.len(),
    ensures
        p == sep_len_from(line@, i as nat),
        i + p <= line@.len(),
{
    let len = line.len();
    let mut j: usize = i;
    while j < len
        invariant
            i <= j <= len == line@.len(),
            sep_len_from(line@, i as nat) == (j - i) + sep_len_from(line@, j as nat),
        ensures
            i <= j <= len,
            sep_len_from(line@, i as nat) == (j - i) + sep_len_from(line@, j as nat),
            j == len || sep_len_from(line@, j as nat) == 0,
        decreases len - j,
    {
        let b = line[j];
        if !(b == 32 || b == 9) {
            proof {
                assert(sep_len_from(line@, j as nat) == 0);
            }
            break ;
        }
        j = j + 1;
    }
    j - i
}

/// Splits a command line into its tokens, copying each out.
fn split_tokens_exec(line: &[u8]) -> (r: Option<Vec<Vec<u8>>>)
    ensures
        match split_tokens(line@) {
            Some(ts) => r matches Some(v) && v.deep_view() == ts,
            None => r is None,
        },
{
    let len = line.len();
    let mut toks: Vec<Vec<u8>> = Vec::new();
    let mut i: usize = 0;
    proof {
        assert(toks.deep_view() =~= Seq::<Seq<u8>>::empty());
    }
    while i < len
        invariant
            i <= len == line@.len(),
            (match split_tokens_from(line@, i as nat) {
                None => split_tokens(line@) is None,
                Some(ts) => split_tokens(line@) == Some(toks.deep_view() + ts),
            }),
        decreases len - i,
    {
        let ghost pre_dv = toks.deep_view();
        let t = scan_token(line, i);
        if t == 0 {
            return None;
        }
        let tok = vstd::slice::slice_to_vec(vstd::slice::slice_subrange(line, i, i + t));
        proof {
            assert(tok.deep_view() =~= line@.subrange(i as int, i + t));
        }
        toks.push(tok);
        proof {
            assert(toks.deep_view() =~= pre_dv.push(line@.subrange(i as int, i + t)));
        }
        let j = i + t;
        if j >= len {
            proof {
                assert(split_tokens_from(line@, i as nat) == Some(
                    seq![line@.subrange(i as int, i + t)],
                ));
                assert(pre_dv + seq![line@.subrange(i as int, i + t)] =~= toks.deep_view());
            }
            return Some(toks);
        }
        let p = scan_sep(line, j);
        if p == 0 {
            return None;
        }
        let k = j + p;
        if k >= len {
            return None;
        }
        proof {
            let tokseq = seq![line@.subrange(i as int, i + t)];
            match split_tokens_from(line@, k as nat) {
                None => {
                    assert(split_tokens_from(line@, i as nat) is None);
                },
                Some(ts) => {
                    assert(split_tokens_from(line@, i as nat) == Some(tokseq + ts));
                    assert(pre_dv + (tokseq + ts) =~= toks.deep_view() + ts);
                },
            }
        }
        i = k;
    }
    proof {
        assert(split_tokens_from(line@, i as nat) == Some(Seq::<Seq<u8>>::empty()));
        assert(toks.deep_view() + Seq::<Seq<u8>>::empty() =~= toks.deep_view());
    }
    Some(toks)
}

/// Compares two byte strings.
fn bytes_eq(a: &[u8], b: &[u8]) -> (r: bool)
    ensures
        r == (a@ == b@),
{
    if a.len() != b.len() {
        proof {
            assert(a@.len() != b@.len());
        }
        return false;
    }
    let len = a.len();
    let mut i: usize = 0;
    while i < len
        invariant
            i <= len == a@.len() == b@.len(),
            forall|k: int| 0 <= k < i ==> a@[k] == b@[k],
        decreases len - i,
    {
        if a[i] != b[i] {
            return false;
        }
        i = i + 1;
    }
    proof {
        assert(a@ =~= b@);
    }
    true
}

/// Tests whether every byte is an ASCII digit.
fn all_digits_exec(s: &[u8]) -> (r: bool)
    ensures
        r == all_digits(s@),
{
    let len = s.len();
    let mut i: usize = 0;
    while i < len
        invariant
            i <= len == s@.len(),
            forall|k: int| 0 <= k < i ==> crate::byte_utils::is_digit(#[trigger] s@[k]),
        decreases len - i,
    {
        let b = s[i];
        if b < 48 || b > 57 {
            return false;
        }
        i = i + 1;
    }
    true
}

/// Copies a byte vector.
pub(crate) fn copy_bytes(v: &Vec<u8>) -> (r: Vec<u8>)
    ensures
        r@ == v@,
{
    vstd::slice::slice_to_vec(v.as_slice())
}

/// Relates the deep view of a vector of byte vectors to its elements.
pub proof fn lemma_deep_view_elems(v: &Vec<Vec<u8>>)
    ensures
        v.deep_view().len() == v@.len(),
        forall|i: int| 0 <= i < v@.len() ==> v.deep_view()[i] == v@[i]@,
{
    assert forall|i: int| 0 <= i < v@.len() implies v.deep_view()[i] == v@[i]@ by {
        assert(v@[i].deep_view() =~= v@[i]@);
    }
}

/// Copies the keys of a read command: every token from `start` on.
pub(crate) fn copy_keys_from(toks: &Vec<Vec<u8>>, start: usize) -> (r: Vec<Vec<u8>>)
    requires
        start <= toks@.len(),
    ensures
        r.deep_view() == toks.deep_view().skip(start as int),
{
    let len = toks.len();
    let mut r: Vec<Vec<u8>> = Vec::new();
    let mut k: usize = start;
    while k < len
        invariant
            start <= k <= len == toks@.len(),
            r@.len() == k - start,
            forall|i: int| 0 <= i < r@.len() ==> #[trigger] r@[i]@ == toks@[start + i]@,
        decreases len - k,
    {
        let item = copy_bytes(&toks[k]);
        r.push(item);
        k = k + 1;
    }
    proof {
        lemma_deep_view_elems(&r);
        lemma_deep_view_elems(toks);
        assert(r.deep_view() =~= toks.deep_view().skip(start as int));
    }
    r
}

/// Parses the flags and ttl tokens and scans the value block of a
/// set-family command; `None` exactly when `spec_setlike` says so.
fn parse_setlike_fields(toks: &Vec<Vec<u8>>, rest: &[u8]) -> (r: Option<(u32, u64, Vec<u8>)>)
    requires
        toks@.len() == 4 || toks@.len() == 5,
    ensures
        match spec_setlike(toks.deep_view(), rest@) {
            None => r is None,
            Some((key, flags, ttl, value)) => r matches Some(f) && f.0 == flags && f.1 == ttl
                && f.2@ == value,
        },
{
    proof {
        assert(toks.deep_view().len() == toks@.len());
        assert(toks.deep_view()[2] == toks@[2]@);
        assert(toks.deep_view()[3] == toks@[3]@);
        if toks@.len() == 5 {
            assert(toks.deep_view()[4] == toks@[4]@);
        }
    }
    let flags64 = match convert_bytes_to_u64(toks[2].as_slice()) {
        Ok(v) => v,
        Err(_) => {
            return None;
        },
    };
    if flags64 > 0xFFFF_FFFF {
        proof {
            crate::byte_utils::lemma_dec_val_nonneg(toks.deep_view()[2]);
        }
        return None;
    }
    let flags = flags64 as u32;
    let ttl = match convert_bytes_to_u64(toks[3].as_slice()) {
        Ok(v) => v,
        Err(_) => {
            return None;
        },
    };
    if toks.len() == 5 {
        if toks[4].len() == 0 {
            return None;
        }
        if !all_digits_exec(toks[4].as_slice()) {
            return None;
        }
    }
    let j = match find_crlf_exec(rest) {
        Some(j) => j,
        None => {
            return None;
        },
    };
    let value = vstd::slice::slice_to_vec(vstd::slice::slice_subrange(rest, 0, j));
    proof {
        assert(value@ =~= rest@.take(j as int));
    }
    Some((flags, ttl, value))
}

/// Decodes a raw buffer into the command it denotes, or `None` for a
/// malformed buffer.
fn parse_inner(input: &[u8]) -> (r: Option<Command>)
    ensures
        match spec_parse(input@) {
            Some(c) => r matches Some(cmd) && cmd@ == c,
            None => r is None,
        },
{
    let pos = match find_crlf_exec(input) {
        Some(p) => p,
        None => {
            return None;
        },
    };
    let ilen = input.len();
    let line = vstd::slice::slice_subrange(input, 0, pos);
    let rest = vstd::slice::slice_subrange(input, pos + 2, ilen);
    proof {
        assert(line@ =~= input@.take(pos as int));
        assert(rest@ =~= input@.skip(pos + 2));
    }
    let mut toks = match split_tokens_exec(line) {
        Some(t) => t,
        None => {
            return None;
        },
    };
    let ghost toks_dv = toks.deep_view();
    if toks.len() == 0 {
        return None;
    }
    proof {
        assert(toks_dv[0] == toks@[0]@);
        if toks_dv.len() >= 2 {
            assert(toks_dv[1] == toks@[1]@);
        }
        if toks_dv.len() >= 3 {
            assert(toks_dv[2] == toks@[2]@);
        }
    }
    let v0 = toks[0].as_slice();
    let is_get = {
        let w: Vec<u8> = vec![103u8, 101u8, 116u8];
        proof {
            assert(w@ =~= verb_get());
        }
        bytes_eq(v0, w.as_slice())
    };
    let is_gets = {
        let w: Vec<u8> = vec![103u8, 101u8, 116u8, 115u8];
        proof {
            assert(w@ =~= verb_gets());
        }
        bytes_eq(v0, w.as_slice())
    };
    let is_delete = {
        let w: Vec<u8> = vec![100u8, 101u8, 108u8, 101u8, 116u8, 101u8];
        proof {
            assert(w@ =~= verb_delete());
        }
        bytes_eq(v0, w.as_slice())
    };
    let is_set = {
        let w: Vec<u8> = vec![115u8, 101u8, 116u8];
        proof {
            assert(w@ =~= verb_set());
        }
        bytes_eq(v0, w.as_slice())
    };
    let is_add = {
        let w: Vec<u8> = vec![97u8, 100u8, 100u8];
        proof {
            assert(w@ =~= verb_add());
        }
        bytes_eq(v0, w.as_slice())
    };
    let is_append = {
        let w: Vec<u8> = vec![97u8, 112u8, 112u8, 101u8, 110u8, 100u8];
        proof {
            assert(w@ =~= verb_append());
        }
        bytes_eq(v0, w.as_slice())
    };
    let is_prepend = {
        let w: Vec<u8> = vec![112u8, 114u8, 101u8, 112u8, 101u8, 110u8, 100u8];
        proof {
            assert(w@ =~= verb_prepend());
        }
        bytes_eq(v0, w.as_slice())
    };
    let is_incr = {
        let w: Vec<u8> = vec![105u8, 110u8, 99u8, 114u8];
        proof {
            assert(w@ =~= verb_incr());
        }
        bytes_eq(v0, w.as_slice())
    };
    let is_decr = {
        let w: Vec<u8> = vec![100u8, 101u8, 99u8, 114u8];
        proof {
            assert(w@ =~= verb_decr());
        }
        bytes_eq(v0, w.as_slice())
    };
    proof {
        assert(spec_parse(input@) == spec_dispatch(toks_dv, rest@));
    }
    if is_get || is_gets {
        if toks.len() < 2 {
            return None;
        }
        let keys = copy_keys_from(&toks, 1);
        proof {
            assert(keys.deep_view() =~= toks_dv.skip(1));
        }
        if is_get {
            let cmd = Command::Get { keys };
            proof {
                assert(cmd@ == CommandView::Get { keys: toks_dv.skip(1) });
            }
            Some(cmd)
        } else {
            let cmd = Command::Gets { keys };
            proof {
                assert(cmd@ == CommandView::Gets { keys: toks_dv.skip(1) });
            }
            Some(cmd)
        }
    } else if is_delete {
        if toks.len() != 2 {
            return None;
        }
        let key = copy_bytes(&toks[1]);
        let cmd = Command::Delete { key };
        proof {
            assert(cmd@ == CommandView::Delete { key: toks_dv[1] });
        }
        Some(cmd)
    } else if is_incr || is_decr {
        if toks.len() != 3 {
            return None;
        }
        let value = match convert_bytes_to_u64(toks[2].as_slice()) {
            Ok(v) => v,
            Err(_) => {
                return None;
            },
        };
        let key = copy_bytes(&toks[1]);
        if is_incr {
            let cmd = Command::Increment { key, value };
            proof {
                assert(cmd@ == CommandView::Increment { key: toks_dv[1], value: value });
            }
            Some(cmd)
        } else {
            let cmd = Command::Decrement { key, value };
            proof {
                assert(cmd@ == CommandView::Decrement { key: toks_dv[1], value: value });
            }
            Some(cmd)
        }
    } else if is_set || is_add || is_append || is_prepend {
        if !(toks.len() == 4 || toks.len() == 5) {
            return None;
        }
        let (flags, ttl, value) = match parse_setlike_fields(&toks, rest) {
            Some(f) => f,
            None => {
                return None;
            },
        };
        let key = copy_bytes(&toks[1]);
        if is_set {
            Some(Command::SetCmd { key, flags, ttl, value })
        } else if is_add {
            Some(Command::Add { key, flags, ttl, value })
        } else if is_append {
            Some(Command::Append { key, flags, ttl, value })
        } else {
            Some(Command::Prepend { key, flags, ttl, value })
        }
    } else {
        None
    }
}

/// Decodes a raw command buffer into a typed `Command`, or a human-readable
/// reason when the buffer is malformed.  Decoding is total, deterministic
/// and side-effect free.
pub fn parse(input: &[u8]) -> (r: Result<Command, String>)
    ensures
        spec_parse(input@) matches Some(c) ==> (r matches Ok(cmd) && cmd@ == c),
        spec_parse(input@) is None ==> (r matches Err(m) && m@ == parse_error_msg()),
{
    match parse_inner(input) {
        Some(cmd) => Ok(cmd),
        None => Err(<String as vstd::string::StringExecFns>::from_str("Unable to parse command")),
    }
}

} // verus!
