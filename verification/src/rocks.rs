//! The key and value bytes under which a record is kept in the RocksDB
//! store: both are bincode encodings (fixed-width little-endian integers,
//! struct fields one after the other).
use vstd::prelude::*;
use vstd::arithmetic::power2::pow2;
use crate::models::RpmuHistoryInterval;

verus! {

#[verifier::external_type_specification]
#[verifier::external_body]
pub struct ExBincodeErrorKind(bincode::ErrorKind);

/// The eight little-endian bytes of `x`.
pub open spec fn le_bytes(x: u64) -> Seq<u8> {
    Seq::new(8, |i: int| ((x as nat / pow2((8 * i) as nat)) % 256) as u8)
}

/// The bytes of a record: its four fields in declaration order.
pub open spec fn record_bytes(r: RpmuHistoryInterval) -> Seq<u8> {
    le_bytes(r.count) + le_bytes(r.end_time) + le_bytes(r.start_time) + le_bytes(r.units)
}

/// `bincode::serialize` applied to a `u64`. Its default configuration has
/// no size limit and writes fixed-width little-endian integers into a
/// `Vec`, so it always succeeds and the bytes are the eight little-endian
/// bytes of `x` (the same bytes it writes for an `f64` with these bits).
#[verifier::external_body]
fn bincode_serialize_u64(x: u64) -> (r: Result<Vec<u8>, bincode::Error>)
    ensures
        r is Ok,
        r matches Ok(bytes) ==> bytes@ == le_bytes(x),
{
    bincode::serialize(&x)
}

/// The encoding of one word.
fn encode_word(x: u64) -> (bytes: Vec<u8>)
    ensures
        bytes@ == le_bytes(x),
{
    match bincode_serialize_u64(x) {
        Ok(bytes) => bytes,
        Err(_) => {
            proof {
                assert(false);
            }
            Vec::new()
        },
    }
}

/// The key of a record: the encoding of its start time.
pub fn record_key_bytes(data: &RpmuHistoryInterval) -> (k: Vec<u8>)
    ensures
        k@ == le_bytes(data.start_time),
{
    encode_word(data.start_time)
}

/// The value of a record: the encodings of its fields in declaration order,
/// which is how bincode encodes the record itself.
pub fn record_value_bytes(data: &RpmuHistoryInterval) -> (v: Vec<u8>)
    ensures
        v@ == record_bytes(*data),
{
    let fields: [u64; 4] = [data.count, data.end_time, data.start_time, data.units];
    let mut out: Vec<u8> = Vec::new();
    let mut i: usize = 0;
    while i < 4
        invariant
            i <= 4,
            fields@ == seq![data.count, data.end_time, data.start_time, data.units],
            out@ == fields_bytes(fields@.take(i as int)),
        decreases 4 - i,
    {
        let mut bytes = encode_word(fields[i]);
        out.append(&mut bytes);
        proof {
            assert(fields@.take(i + 1).drop_last() =~= fields@.take(i as int));
            assert(out@ == fields_bytes(fields@.take(i + 1)));
        }
        i = i + 1;
    }
    proof {
        let s = fields@;
        assert(s.take(4) =~= s);
        assert(s.take(3) =~= s.take(4).drop_last());
        assert(s.take(2) =~= s.take(3).drop_last());
        assert(s.take(1) =~= s.take(2).drop_last());
        assert(s.take(0) =~= s.take(1).drop_last());
        assert(fields_bytes(s.take(0)) =~= Seq::<u8>::empty());
        assert(fields_bytes(s.take(1)) =~= le_bytes(data.count));
        assert(fields_bytes(s.take(2)) =~= le_bytes(data.count) + le_bytes(data.end_time));
        assert(fields_bytes(s.take(3)) =~= le_bytes(data.count) + le_bytes(data.end_time)
            + le_bytes(data.start_time));
        assert(out@ =~= record_bytes(*data));
    }
    out
}

/// The concatenated encodings of a sequence of words.
pub open spec fn fields_bytes(words: Seq<u64>) -> Seq<u8>
    decreases words.len(),
{
    if words.len() == 0 {
        Seq::empty()
    } else {
        fields_bytes(words.drop_last()) + le_bytes(words.last())
    }
}

/// A record's value is 32 bytes long and holds its key at bytes 16..24.
pub proof fn law_value_holds_key(r: RpmuHistoryInterval)
    ensures
        record_bytes(r).len() == 32,
        record_bytes(r).subrange(16, 24) == le_bytes(r.start_time),
{
    assert(record_bytes(r).subrange(16, 24) =~= le_bytes(r.start_time));
}

} // verus!
