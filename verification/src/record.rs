//! An expiring value cell: a key, a value, and an optional absolute expiry.
use vstd::prelude::*;

verus! {

/// Clamps `a + b` into i64's range.
pub open spec fn spec_sat_add(a: int, b: int) -> int {
    if a + b > (i64::MAX as int) {
        i64::MAX as int
    } else if a + b < (i64::MIN as int) {
        i64::MIN as int
    } else {
        a + b
    }
}

fn sat_add_i64(a: i64, b: i64) -> (r: i64)
    ensures
        r as int == spec_sat_add(a as int, b as int),
{
    if b >= 0 {
        if a <= i64::MAX - b {
            a + b
        } else {
            i64::MAX
        }
    } else {
        if a >= i64::MIN - b {
            a + b
        } else {
            i64::MIN
        }
    }
}

/// An optional machine timestamp as its mathematical value.
pub open spec fn opt_int(o: Option<i64>) -> Option<int> {
    match o {
        Some(v) => Some(v as int),
        None => None,
    }
}

/// The model of a stored record: its value bytes and its optional absolute
/// expiry in milliseconds since the epoch.
pub struct Stored {
    pub value: Seq<u8>,
    pub expiry: Option<int>,
}

/// Is a record with expiry `expiry` expired at time `now`? Absent expiry
/// means never; otherwise the record is expired once `now` has passed it.
pub open spec fn spec_expired(expiry: Option<int>, now: int) -> bool {
    match expiry {
        Some(e) => now > e,
        None => false,
    }
}

/// An expiring value cell. If `expiry` is absent the record never expires;
/// if present, the record is expired once current time exceeds it.
pub struct Record {
    pub key: Vec<u8>,
    pub value: Vec<u8>,
    pub expiry: Option<i64>,
}

impl Record {
    /// The record's model: its value and expiry, without the key.
    pub open spec fn stored(self) -> Stored {
        Stored { value: self.value@, expiry: opt_int(self.expiry) }
    }

    /// Makes a record at time `now_ms`; a relative expiry in milliseconds
    /// becomes an absolute timestamp, clamped into i64's range.
    pub fn new(key: Vec<u8>, value: Vec<u8>, expire_in_ms: Option<i64>, now_ms: i64) -> (r: Record)
        ensures
            r.key@ == key@,
            r.value@ == value@,
            r.stored() == (Stored {
                value: value@,
                expiry: match expire_in_ms {
                    Some(ms) => Some(spec_sat_add(now_ms as int, ms as int)),
                    None => None,
                },
            }),
    {
        let expiry = match expire_in_ms {
            Some(ms) => Some(sat_add_i64(now_ms, ms)),
            None => None,
        };
        Record { key, value, expiry }
    }

    /// True once `now_ms` has passed the record's expiry.
    pub fn is_expired(&self, now_ms: i64) -> (r: bool)
        ensures
            r == spec_expired(opt_int(self.expiry), now_ms as int),
    {
        match self.expiry {
            Some(e) => now_ms > e,
            None => false,
        }
    }
}

} // verus!
