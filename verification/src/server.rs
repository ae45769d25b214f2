//! The connection-facing core: it decodes one raw request, dispatches it
//! against the store, and encodes the reply, all at an explicit current
//! time; and the resolution of the optional upstream address from the
//! command-line arguments.
use crate::clock::now_millis;
use crate::command::{Command, SpecCommand, spec_parse};
use crate::database::Database;
use crate::record::{Record, Stored, spec_expired, spec_sat_add};
use crate::resp::{CR, LF, convert_to_bulk_string, null_bulk_string, spec_bulk_string,
    spec_null_bulk};
use vstd::prelude::*;
use vstd::slice::slice_to_vec;
use vstd::string::StringExecFns;

verus! {

/// The bytes of the simple-status reply meaning "PONG".
pub open spec fn spec_pong_reply() -> Seq<u8> {
    seq![('+' as u8), ('P' as u8), ('O' as u8), ('N' as u8), ('G' as u8), CR, LF]
}

fn pong_reply() -> (r: Vec<u8>)
    ensures
        r@ == spec_pong_reply(),
{
    let mut v: Vec<u8> = Vec::new();
    v.push('+' as u8);
    v.push('P' as u8);
    v.push('O' as u8);
    v.push('N' as u8);
    v.push('G' as u8);
    v.push(CR);
    v.push(LF);
    proof {
        assert(v@ =~= spec_pong_reply());
    }
    v
}

/// The bytes of the simple-status reply meaning "OK".
pub open spec fn spec_ok_reply() -> Seq<u8> {
    seq![('+' as u8), ('O' as u8), ('K' as u8), CR, LF]
}

fn ok_reply() -> (r: Vec<u8>)
    ensures
        r@ == spec_ok_reply(),
{
    let mut v: Vec<u8> = Vec::new();
    v.push('+' as u8);
    v.push('O' as u8);
    v.push('K' as u8);
    v.push(CR);
    v.push(LF);
    proof {
        assert(v@ =~= spec_ok_reply());
    }
    v
}

/// The bytes of the error text sent for any request that fails to decode.
pub open spec fn spec_decode_error_reply() -> Seq<u8> {
    seq![('I' as u8), ('n' as u8), ('c' as u8), ('o' as u8), ('r' as u8), ('r' as u8), ('e' as u8), ('c' as u8), ('t' as u8), (' ' as u8), ('o' as u8), ('r' as u8), (' ' as u8), ('u' as u8), ('n' as u8), ('s' as u8), ('u' as u8), ('p' as u8), ('p' as u8), ('o' as u8), ('r' as u8), ('t' as u8), ('e' as u8), ('d' as u8), (' ' as u8), ('r' as u8), ('e' as u8), ('q' as u8)]
}

fn decode_error_reply() -> (r: Vec<u8>)
    ensures
        r@ == spec_decode_error_reply(),
{
    let mut v: Vec<u8> = Vec::new();
    v.push('I' as u8);
    v.push('n' as u8);
    v.push('c' as u8);
    v.push('o' as u8);
    v.push('r' as u8);
    v.push('r' as u8);
    v.push('e' as u8);
    v.push('c' as u8);
    v.push('t' as u8);
    v.push(' ' as u8);
    v.push('o' as u8);
    v.push('r' as u8);
    v.push(' ' as u8);
    v.push('u' as u8);
    v.push('n' as u8);
    v.push('s' as u8);
    v.push('u' as u8);
    v.push('p' as u8);
    v.push('p' as u8);
    v.push('o' as u8);
    v.push('r' as u8);
    v.push('t' as u8);
    v.push('e' as u8);
    v.push('d' as u8);
    v.push(' ' as u8);
    v.push('r' as u8);
    v.push('e' as u8);
    v.push('q' as u8);
    proof {
        assert(v@ =~= spec_decode_error_reply());
    }
    v
}

/// The bytes of the role line reported by a subordinate server.
pub open spec fn spec_role_slave_text() -> Seq<u8> {
    seq![('r' as u8), ('o' as u8), ('l' as u8), ('e' as u8), (':' as u8), ('s' as u8), ('l' as u8), ('a' as u8), ('v' as u8), ('e' as u8)]
}

fn role_slave_text() -> (r: Vec<u8>)
    ensures
        r@ == spec_role_slave_text(),
{
    let mut v: Vec<u8> = Vec::new();
    v.push('r' as u8);
    v.push('o' as u8);
    v.push('l' as u8);
    v.push('e' as u8);
    v.push(':' as u8);
    v.push('s' as u8);
    v.push('l' as u8);
    v.push('a' as u8);
    v.push('v' as u8);
    v.push('e' as u8);
    proof {
        assert(v@ =~= spec_role_slave_text());
    }
    v
}

/// The bytes of the role line reported by a primary server.
pub open spec fn spec_role_master_text() -> Seq<u8> {
    seq![('r' as u8), ('o' as u8), ('l' as u8), ('e' as u8), (':' as u8), ('m' as u8), ('a' as u8), ('s' as u8), ('t' as u8), ('e' as u8), ('r' as u8)]
}

fn role_master_text() -> (r: Vec<u8>)
    ensures
        r@ == spec_role_master_text(),
{
    let mut v: Vec<u8> = Vec::new();
    v.push('r' as u8);
    v.push('o' as u8);
    v.push('l' as u8);
    v.push('e' as u8);
    v.push(':' as u8);
    v.push('m' as u8);
    v.push('a' as u8);
    v.push('s' as u8);
    v.push('t' as u8);
    v.push('e' as u8);
    v.push('r' as u8);
    proof {
        assert(v@ =~= spec_role_master_text());
    }
    v
}

/// The bytes of the fixed replication identifier line.
pub open spec fn spec_replid_text() -> Seq<u8> {
    seq![('m' as u8), ('a' as u8), ('s' as u8), ('t' as u8), ('e' as u8), ('r' as u8), ('_' as u8), ('r' as u8), ('e' as u8), ('p' as u8), ('l' as u8), ('i' as u8), ('d' as u8), (':' as u8), ('8' as u8), ('3' as u8), ('7' as u8), ('1' as u8), ('b' as u8), ('4' as u8), ('f' as u8), ('b' as u8), ('1' as u8), ('1' as u8), ('5' as u8), ('5' as u8), ('b' as u8), ('7' as u8), ('1' as u8), ('f' as u8), ('4' as u8), ('a' as u8), ('0' as u8), ('4' as u8), ('d' as u8), ('3' as u8), ('e' as u8), ('1' as u8), ('b' as u8), ('c' as u8), ('3' as u8), ('e' as u8), ('1' as u8), ('8' as u8), ('c' as u8), ('4' as u8), ('a' as u8), ('9' as u8), ('9' as u8), ('0' as u8), ('a' as u8), ('e' as u8), ('e' as u8), ('b' as u8)]
}

fn replid_text() -> (r: Vec<u8>)
    ensures
        r@ == spec_replid_text(),
{
    let mut v: Vec<u8> = Vec::new();
    v.push('m' as u8);
    v.push('a' as u8);
    v.push('s' as u8);
    v.push('t' as u8);
    v.push('e' as u8);
    v.push('r' as u8);
    v.push('_' as u8);
    v.push('r' as u8);
    v.push('e' as u8);
    v.push('p' as u8);
    v.push('l' as u8);
    v.push('i' as u8);
    v.push('d' as u8);
    v.push(':' as u8);
    v.push('8' as u8);
    v.push('3' as u8);
    v.push('7' as u8);
    v.push('1' as u8);
    v.push('b' as u8);
    v.push('4' as u8);
    v.push('f' as u8);
    v.push('b' as u8);
    v.push('1' as u8);
    v.push('1' as u8);
    v.push('5' as u8);
    v.push('5' as u8);
    v.push('b' as u8);
    v.push('7' as u8);
    v.push('1' as u8);
    v.push('f' as u8);
    v.push('4' as u8);
    v.push('a' as u8);
    v.push('0' as u8);
    v.push('4' as u8);
    v.push('d' as u8);
    v.push('3' as u8);
    v.push('e' as u8);
    v.push('1' as u8);
    v.push('b' as u8);
    v.push('c' as u8);
    v.push('3' as u8);
    v.push('e' as u8);
    v.push('1' as u8);
    v.push('8' as u8);
    v.push('c' as u8);
    v.push('4' as u8);
    v.push('a' as u8);
    v.push('9' as u8);
    v.push('9' as u8);
    v.push('0' as u8);
    v.push('a' as u8);
    v.push('e' as u8);
    v.push('e' as u8);
    v.push('b' as u8);
    proof {
        assert(v@ =~= spec_replid_text());
    }
    v
}

/// The bytes of the replication offset line.
pub open spec fn spec_offset_text() -> Seq<u8> {
    seq![('m' as u8), ('a' as u8), ('s' as u8), ('t' as u8), ('e' as u8), ('r' as u8), ('_' as u8), ('r' as u8), ('e' as u8), ('p' as u8), ('l' as u8), ('_' as u8), ('o' as u8), ('f' as u8), ('f' as u8), ('s' as u8), ('e' as u8), ('t' as u8), (':' as u8), ('0' as u8)]
}

fn offset_text() -> (r: Vec<u8>)
    ensures
        r@ == spec_offset_text(),
{
    let mut v: Vec<u8> = Vec::new();
    v.push('m' as u8);
    v.push('a' as u8);
    v.push('s' as u8);
    v.push('t' as u8);
    v.push('e' as u8);
    v.push('r' as u8);
    v.push('_' as u8);
    v.push('r' as u8);
    v.push('e' as u8);
    v.push('p' as u8);
    v.push('l' as u8);
    v.push('_' as u8);
    v.push('o' as u8);
    v.push('f' as u8);
    v.push('f' as u8);
    v.push('s' as u8);
    v.push('e' as u8);
    v.push('t' as u8);
    v.push(':' as u8);
    v.push('0' as u8);
    proof {
        assert(v@ =~= spec_offset_text());
    }
    v
}

/// The reply to an INFO request from a primary: three bulk strings, the
/// role, the replication identifier, and the replication offset.
pub open spec fn spec_info_master() -> Seq<u8> {
    seq![('*' as u8), ('3' as u8), CR, LF] + spec_bulk_string(spec_role_master_text())
        + spec_bulk_string(spec_replid_text()) + spec_bulk_string(spec_offset_text())
}

/// The reply to an INFO request from a subordinate: one bulk string, the role.
pub open spec fn spec_info_slave() -> Seq<u8> {
    seq![('*' as u8), ('1' as u8), CR, LF] + spec_bulk_string(spec_role_slave_text())
}

fn info_master_reply() -> (r: Vec<u8>)
    ensures
        r@ == spec_info_master(),
{
    let mut out: Vec<u8> = Vec::new();
    out.push('*' as u8);
    out.push('3' as u8);
    out.push(CR);
    out.push(LF);
    let mut b1 = convert_to_bulk_string(role_master_text());
    out.append(&mut b1);
    let mut b2 = convert_to_bulk_string(replid_text());
    out.append(&mut b2);
    let mut b3 = convert_to_bulk_string(offset_text());
    out.append(&mut b3);
    proof {
        assert(out@ =~= spec_info_master());
    }
    out
}

fn info_slave_reply() -> (r: Vec<u8>)
    ensures
        r@ == spec_info_slave(),
{
    let mut out: Vec<u8> = Vec::new();
    out.push('*' as u8);
    out.push('1' as u8);
    out.push(CR);
    out.push(LF);
    let mut b1 = convert_to_bulk_string(role_slave_text());
    out.append(&mut b1);
    proof {
        assert(out@ =~= spec_info_slave());
    }
    out
}

/// The absolute expiry that a write made at `now` with relative expiry
/// `expiry` gives its record.
pub open spec fn spec_new_expiry(expiry: Option<int>, now: int) -> Option<int> {
    match expiry {
        Some(ms) => Some(spec_sat_add(now, ms)),
        None => None,
    }
}

/// The reply that one decoded command produces against store state `db` at
/// time `now`, with `is_replica` saying whether an upstream is configured.
pub open spec fn spec_dispatch_response(
    db: Map<Seq<u8>, Stored>,
    c: SpecCommand,
    now: int,
    is_replica: bool,
) -> Seq<u8> {
    match c {
        SpecCommand::Ping => spec_pong_reply(),
        SpecCommand::Echo(m) => spec_bulk_string(m),
        SpecCommand::Get(k) => if db.contains_key(k) && !spec_expired(db[k].expiry, now) {
            spec_bulk_string(db[k].value)
        } else {
            spec_null_bulk()
        },
        SpecCommand::SetValue { .. } => spec_ok_reply(),
        SpecCommand::Info(_) => if is_replica {
            spec_info_slave()
        } else {
            spec_info_master()
        },
    }
}

/// The store state after one decoded command executed at time `now`: only a
/// write changes it, overwriting its key wholesale.
pub open spec fn spec_dispatch_db(
    db: Map<Seq<u8>, Stored>,
    c: SpecCommand,
    now: int,
) -> Map<Seq<u8>, Stored> {
    match c {
        SpecCommand::SetValue { key, value, expiry } => db.insert(
            key,
            Stored { value, expiry: spec_new_expiry(expiry, now) },
        ),
        _ => db,
    }
}

/// The reply to one raw request: a decode failure yields the error text,
/// anything else the dispatched command's reply.
pub open spec fn spec_response(
    db: Map<Seq<u8>, Stored>,
    input: Seq<u8>,
    now: int,
    is_replica: bool,
) -> Seq<u8> {
    match spec_parse(input) {
        Ok(c) => spec_dispatch_response(db, c, now, is_replica),
        Err(_) => spec_decode_error_reply(),
    }
}

/// The store state after one raw request: a decode failure leaves it alone.
pub open spec fn spec_db_after(
    db: Map<Seq<u8>, Stored>,
    input: Seq<u8>,
    now: int,
) -> Map<Seq<u8>, Stored> {
    match spec_parse(input) {
        Ok(c) => spec_dispatch_db(db, c, now),
        Err(_) => db,
    }
}

/// Decodes one raw request, runs it against the store as of time `now_ms`,
/// and returns the encoded reply. Every decode failure still yields a reply;
/// only a write mutates the store.
pub fn handle_req(incoming: &[u8], db: &mut Database, now_ms: i64, is_replica: bool) -> (res: Vec<
    u8,
>)
    requires
        old(db).wf(),
    ensures
        final(db).wf(),
        res@ == spec_response(old(db)@, incoming@, now_ms as int, is_replica),
        final(db)@ == spec_db_after(old(db)@, incoming@, now_ms as int),
{
    let command = Command::parse_redis_format(incoming);
    match command {
        Ok(Command::Ping) => pong_reply(),
        Ok(Command::Echo(echo_val)) => convert_to_bulk_string(echo_val),
        Ok(Command::Get(key)) => match db.get(key.as_slice(), now_ms) {
            None => null_bulk_string(),
            Some(record) => convert_to_bulk_string(slice_to_vec(record.value.as_slice())),
        },
        Ok(Command::SetValue(params)) => {
            let record = Record::new(params.key, params.value, params.expiry, now_ms);
            db.insert(record);
            ok_reply()
        },
        Ok(Command::Info(_)) => if is_replica {
            info_slave_reply()
        } else {
            info_master_reply()
        },
        Err(_) => decode_error_reply(),
    }
}

/// Decodes and runs one raw request at the current wall-clock time. The
/// reply and the new store state are those of `handle_req` for whatever
/// millisecond the clock returned.
pub fn handle_req_now(incoming: &[u8], db: &mut Database, is_replica: bool) -> (res: Vec<u8>)
    requires
        old(db).wf(),
    ensures
        final(db).wf(),
        exists|now: int|
            res@ == #[trigger] spec_response(old(db)@, incoming@, now, is_replica) && final(db)@
                == spec_db_after(old(db)@, incoming@, now),
{
    let now = now_millis();
    let res = handle_req(incoming, db, now, is_replica);
    proof {
        assert(res@ == spec_response(old(db)@, incoming@, now as int, is_replica) && db@
            == spec_db_after(old(db)@, incoming@, now as int));
    }
    res
}

/// The position of the first upstream flag among the arguments, or -1.
pub open spec fn spec_first_flag(args: Seq<String>) -> int
    decreases args.len(),
{
    if args.len() == 0 {
        -1
    } else if args[0]@ == "--replicaof"@ {
        0
    } else {
        let r = spec_first_flag(args.drop_first());
        if r < 0 {
            -1
        } else {
            r + 1
        }
    }
}

proof fn lemma_first_flag_at(args: Seq<String>, i: int)
    requires
        0 <= i < args.len(),
        args[i]@ == "--replicaof"@,
        forall|j: int| #![trigger args[j]] 0 <= j < i ==> args[j]@ != "--replicaof"@,
    ensures
        spec_first_flag(args) == i,
    decreases i,
{
    if i == 0 {
    } else {
        let t = args.drop_first();
        assert(args[0]@ != "--replicaof"@);
        assert forall|j: int| #![trigger t[j]] 0 <= j < i - 1 implies t[j]@ != "--replicaof"@ by {
            assert(t[j] == args[j + 1]);
        }
        assert(t[i - 1] == args[i as int]);
        lemma_first_flag_at(t, i - 1);
    }
}

proof fn lemma_first_flag_none(args: Seq<String>)
    requires
        forall|j: int| #![trigger args[j]] 0 <= j < args.len() ==> args[j]@ != "--replicaof"@,
    ensures
        spec_first_flag(args) == -1,
    decreases args.len(),
{
    if args.len() == 0 {
    } else {
        let t = args.drop_first();
        assert forall|j: int| #![trigger t[j]] 0 <= j < t.len() implies t[j]@ != "--replicaof"@ by {
            assert(t[j] == args[j + 1]);
        }
        lemma_first_flag_none(t);
    }
}

/// Resolves the optional upstream address from the command-line arguments:
/// the host and port following the first upstream flag, joined by a colon;
/// nothing when the flag or either part is missing.
pub fn get_master_addr(args: Vec<String>) -> (r: Option<String>)
    ensures
        ({
            let i = spec_first_flag(args@);
            if 0 <= i && i + 2 < args@.len() {
                r matches Some(s) && s@ == args@[i + 1]@ + ":"@ + args@[i + 2]@
            } else {
                r is None
            }
        }),
{
    let flag: String = "--replicaof".to_owned();
    let n = args.len();
    let mut idx: usize = 0;
    while idx < n
        invariant
            n == args@.len(),
            idx <= n,
            flag@ == "--replicaof"@,
            forall|j: int| #![trigger args@[j]] 0 <= j < idx ==> args@[j]@ != "--replicaof"@,
        decreases n - idx,
    {
        if args[idx].eq(&flag) {
            proof {
                lemma_first_flag_at(args@, idx as int);
            }
            if n - idx > 2 {
                let mut out = args[idx + 1].clone();
                out.append(":");
                out.append(args[idx + 2].as_str());
                return Some(out);
            } else {
                return None;
            }
        }
        idx = idx + 1;
    }
    proof {
        lemma_first_flag_none(args@);
    }
    None
}

} // verus!
