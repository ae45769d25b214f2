//! The laws the service obeys, each stated over the dispatcher's model and
//! proved once for every store state, key, value and time.
use crate::command::SpecCommand;
use crate::record::Stored;
use crate::resp::{spec_bulk_string, spec_null_bulk};
use crate::server::{spec_dispatch_db, spec_dispatch_response, spec_pong_reply};
use vstd::prelude::*;

verus! {

/// A key never set answers a read with the null bulk string.
pub proof fn lemma_get_absent_is_null(
    db: Map<Seq<u8>, Stored>,
    k: Seq<u8>,
    now: int,
    is_replica: bool,
)
    requires
        !db.contains_key(k),
    ensures
        spec_dispatch_response(db, SpecCommand::Get(k), now, is_replica) == spec_null_bulk(),
{
}

/// A write without expiry followed by a read of the same key answers with
/// the bulk-string encoding of the written value, whenever the read happens.
pub proof fn lemma_set_then_get(
    db: Map<Seq<u8>, Stored>,
    k: Seq<u8>,
    v: Seq<u8>,
    now1: int,
    now2: int,
    is_replica: bool,
)
    ensures
        ({
            let db1 = spec_dispatch_db(
                db,
                SpecCommand::SetValue { key: k, value: v, expiry: None },
                now1,
            );
            spec_dispatch_response(db1, SpecCommand::Get(k), now2, is_replica)
                == spec_bulk_string(v)
        }),
{
}

/// A write with a positive expiry answers a read at the write's own time
/// with the value, and any read later than the expiry with the null bulk
/// string. The write time must be a machine timestamp and the expiry must
/// not run past the largest one.
pub proof fn lemma_set_with_ttl(
    db: Map<Seq<u8>, Stored>,
    k: Seq<u8>,
    v: Seq<u8>,
    ttl: int,
    now: int,
    later: int,
    is_replica: bool,
)
    requires
        0 < ttl,
        i64::MIN as int <= now,
        now + ttl <= i64::MAX as int,
        later > now + ttl,
    ensures
        ({
            let db1 = spec_dispatch_db(
                db,
                SpecCommand::SetValue { key: k, value: v, expiry: Some(ttl) },
                now,
            );
            &&& spec_dispatch_response(db1, SpecCommand::Get(k), now, is_replica)
                == spec_bulk_string(v)
            &&& spec_dispatch_response(db1, SpecCommand::Get(k), later, is_replica)
                == spec_null_bulk()
        }),
{
}

/// Overwriting is wholesale: two writes to one key leave exactly the second
/// value, never the first, never a merge; a later read answers with it.
pub proof fn lemma_overwrite(
    db: Map<Seq<u8>, Stored>,
    k: Seq<u8>,
    v1: Seq<u8>,
    v2: Seq<u8>,
    e1: Option<int>,
    now1: int,
    now2: int,
    now3: int,
    is_replica: bool,
)
    ensures
        ({
            let db1 = spec_dispatch_db(
                db,
                SpecCommand::SetValue { key: k, value: v1, expiry: e1 },
                now1,
            );
            let db2 = spec_dispatch_db(
                db1,
                SpecCommand::SetValue { key: k, value: v2, expiry: None },
                now2,
            );
            spec_dispatch_response(db2, SpecCommand::Get(k), now3, is_replica)
                == spec_bulk_string(v2)
        }),
{
}

/// An echo answers with the bulk-string encoding of exactly its message,
/// byte length included, the empty message too.
pub proof fn lemma_echo_encodes(
    db: Map<Seq<u8>, Stored>,
    m: Seq<u8>,
    now: int,
    is_replica: bool,
)
    ensures
        spec_dispatch_response(db, SpecCommand::Echo(m), now, is_replica) == spec_bulk_string(m),
{
}

/// A ping answers with the literal PONG status whatever the store holds.
pub proof fn lemma_ping_constant(db: Map<Seq<u8>, Stored>, now: int, is_replica: bool)
    ensures
        spec_dispatch_response(db, SpecCommand::Ping, now, is_replica) == spec_pong_reply(),
{
}

/// Keys are independent: a write to one key neither changes nor hides any
/// other, so a read of `k1` answers the same before and after a write to a
/// different `k2`, however operations on distinct keys interleave.
pub proof fn lemma_write_other_key_frame(
    db: Map<Seq<u8>, Stored>,
    k1: Seq<u8>,
    k2: Seq<u8>,
    v2: Seq<u8>,
    e2: Option<int>,
    now_write: int,
    now_read: int,
    is_replica: bool,
)
    requires
        k1 != k2,
    ensures
        ({
            let db1 = spec_dispatch_db(
                db,
                SpecCommand::SetValue { key: k2, value: v2, expiry: e2 },
                now_write,
            );
            spec_dispatch_response(db1, SpecCommand::Get(k1), now_read, is_replica)
                == spec_dispatch_response(db, SpecCommand::Get(k1), now_read, is_replica)
        }),
{
}

} // verus!
