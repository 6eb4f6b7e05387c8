//! Schema sizing: the exact byte budget a record needs when every
//! variable-length field reaches its declared maximum. The budget is
//! computed before the record exists, so allocation can be funded up front.

use vstd::prelude::*;
use vstd::arithmetic::mul::lemma_mul_upper_bound;
use crate::errors::ProtocolError;

verus! {

/// Every stored record starts with a fixed tag of this many bytes,
/// identifying its schema.
pub const DISCRIMINATOR_BYTES: u64 = 8;

/// Every variable-length field is preceded by a length (or count) prefix of
/// this many bytes.
pub const LEN_PREFIX_BYTES: u64 = 4;

/// The largest record the host will allocate.
pub const MAX_RECORD_BYTES: u64 = 10485760;

/// One field of a record schema: a fixed-size scalar, or a variable-size
/// field with its declared maximum.
#[derive(Clone, Copy, Debug, PartialEq, Eq, Structural)]
pub enum FieldSchema {
    /// A single byte.
    UnsignedByte,
    /// A 32-bit unsigned integer.
    Unsigned32,
    /// A 64-bit unsigned integer.
    Unsigned64,
    /// A 64-bit signed integer.
    Signed64,
    /// A length-prefixed byte string of at most `max_bytes` bytes.
    BoundedString { max_bytes: u32 },
    /// A count-prefixed sequence of at most `max_items` byte strings, each
    /// length-prefixed and of at most `max_bytes` bytes.
    BoundedStringSeq { max_items: u32, max_bytes: u32 },
}

/// The byte budget of one field when its declared maximum is reached.
pub open spec fn field_size(f: FieldSchema) -> int {
    match f {
        FieldSchema::UnsignedByte => 1,
        FieldSchema::Unsigned32 => 4,
        FieldSchema::Unsigned64 => 8,
        FieldSchema::Signed64 => 8,
        FieldSchema::BoundedString { max_bytes } => LEN_PREFIX_BYTES + max_bytes,
        FieldSchema::BoundedStringSeq { max_items, max_bytes } => LEN_PREFIX_BYTES + max_items * (
        LEN_PREFIX_BYTES + max_bytes),
    }
}

/// The combined budget of the fields of `s` from index `i` on.
pub open spec fn fields_size_from(s: Seq<FieldSchema>, i: int) -> int
    decreases s.len() - i,
{
    if i < 0 || i >= s.len() {
        0
    } else {
        field_size(s[i]) + fields_size_from(s, i + 1)
    }
}

/// The byte budget of a whole schema: the discriminator plus every field at
/// its declared maximum.
pub open spec fn schema_size(s: Seq<FieldSchema>) -> int {
    DISCRIMINATOR_BYTES + fields_size_from(s, 0)
}

/// No field has a negative budget.
pub proof fn lemma_field_size_nonneg(f: FieldSchema)
    ensures
        field_size(f) >= 0,
{
    match f {
        FieldSchema::BoundedStringSeq { max_items, max_bytes } => {
            assert(max_items * (LEN_PREFIX_BYTES + max_bytes) >= 0) by (nonlinear_arith);
        },
        _ => {},
    }
}

/// No suffix of a schema has a negative budget.
pub proof fn lemma_fields_size_from_nonneg(s: Seq<FieldSchema>, i: int)
    ensures
        fields_size_from(s, i) >= 0,
    decreases s.len() - i,
{
    if 0 <= i < s.len() {
        lemma_field_size_nonneg(s[i]);
        lemma_fields_size_from_nonneg(s, i + 1);
    }
}

/// Computes the exact byte budget of `schema`. Succeeds with that budget
/// exactly when it does not exceed the host's maximum record size, and
/// fails with `SchemaOverflow` exactly when it does.
pub fn size_of(schema: &Vec<FieldSchema>) -> (r: Result<u64, ProtocolError>)
    ensures
        schema_size(schema@) <= MAX_RECORD_BYTES ==> r == Ok::<u64, ProtocolError>(
            schema_size(schema@) as u64,
        ),
        schema_size(schema@) > MAX_RECORD_BYTES ==> r == Err::<u64, ProtocolError>(
            ProtocolError::SchemaOverflow,
        ),
{
    let mut acc: u64 = DISCRIMINATOR_BYTES;
    let mut i: usize = 0;
    while i < schema.len()
        invariant
            i <= schema.len(),
            acc == DISCRIMINATOR_BYTES + fields_size_from(schema@, 0) - fields_size_from(
                schema@,
                i as int,
            ),
            acc <= MAX_RECORD_BYTES,
        decreases schema.len() - i,
    {
        let f = schema[i];
        let fsize: u128 = match f {
            FieldSchema::UnsignedByte => 1,
            FieldSchema::Unsigned32 => 4,
            FieldSchema::Unsigned64 => 8,
            FieldSchema::Signed64 => 8,
            FieldSchema::BoundedString { max_bytes } => 4 + max_bytes as u128,
            FieldSchema::BoundedStringSeq { max_items, max_bytes } => {
                proof {
                    lemma_mul_upper_bound(
                        max_items as int,
                        0xffff_ffff,
                        4 + max_bytes as int,
                        0x1_0000_0003,
                    );
                }
                4 + (max_items as u128) * (4 + max_bytes as u128)
            },
        };
        assert(fsize == field_size(schema@[i as int]));
        if fsize > (MAX_RECORD_BYTES - acc) as u128 {
            proof {
                lemma_fields_size_from_nonneg(schema@, i as int + 1);
            }
            return Err(ProtocolError::SchemaOverflow);
        }
        acc = acc + fsize as u64;
        i += 1;
    }
    Ok(acc)
}

} // verus!
