//! The record shapes the protocol stores, their declared maxima, and their
//! persisted byte layout: a fixed discriminator identifying the schema,
//! then the fields in declared order, strings as length-prefixed byte
//! sequences and sequences as a count prefix followed by their elements.

use vstd::prelude::*;
use crate::schema::{FieldSchema, schema_size, fields_size_from, field_size};

verus! {

/// Longest color a favorites record may hold, in bytes.
pub const MAX_COLOR_BYTES: u32 = 50;

/// Most hobbies a favorites record may hold.
pub const MAX_HOBBIES: u32 = 5;

/// Longest single hobby a favorites record may hold, in bytes.
pub const MAX_HOBBY_BYTES: u32 = 50;

/// What a user records as their favorites. Strings are carried as their
/// byte encoding.
#[derive(Debug)]
pub struct Favorites {
    pub color: Vec<u8>,
    pub number: u64,
    pub hobbies: Vec<Vec<u8>>,
}

/// The mathematical content of a favorites record.
pub struct FavoritesView {
    pub color: Seq<u8>,
    pub number: u64,
    pub hobbies: Seq<Seq<u8>>,
}

/// The byte contents of a hobbies list.
pub open spec fn hobbies_view(hs: Seq<Vec<u8>>) -> Seq<Seq<u8>> {
    hs.map_values(|h: Vec<u8>| h@)
}

impl View for Favorites {
    type V = FavoritesView;

    open spec fn view(&self) -> FavoritesView {
        FavoritesView {
            color: self.color@,
            number: self.number,
            hobbies: hobbies_view(self.hobbies@),
        }
    }
}

/// Per-user staking configuration; the bump is the disambiguation token the
/// record's address was derived with.
#[derive(Clone, Copy, Debug, PartialEq, Eq, Structural)]
pub struct StakeUserConfig {
    pub points: u32,
    pub amount_staked: i64,
    pub bump: u8,
}

/// A stored payload: one of the record shapes the protocol knows.
#[derive(Debug)]
pub enum RecordValue {
    Favorites(Favorites),
    StakeUser(StakeUserConfig),
}

/// The mathematical content of a stored payload.
pub enum RecordValueView {
    Favorites(FavoritesView),
    StakeUser(StakeUserConfig),
}

impl View for RecordValue {
    type V = RecordValueView;

    open spec fn view(&self) -> RecordValueView {
        match *self {
            RecordValue::Favorites(f) => RecordValueView::Favorites(f@),
            RecordValue::StakeUser(c) => RecordValueView::StakeUser(c),
        }
    }
}

/// Whether a favorites value keeps every declared maximum.
pub open spec fn favorites_conforms(f: FavoritesView) -> bool {
    &&& f.color.len() <= MAX_COLOR_BYTES
    &&& f.hobbies.len() <= MAX_HOBBIES
    &&& forall|i: int| 0 <= i < f.hobbies.len() ==> #[trigger] f.hobbies[i].len() <= MAX_HOBBY_BYTES
}

/// Whether a value conforms to its schema's declared maxima. A staking
/// record has only fixed-size fields, so it always conforms.
pub open spec fn record_conforms(v: RecordValueView) -> bool {
    match v {
        RecordValueView::Favorites(f) => favorites_conforms(f),
        RecordValueView::StakeUser(_) => true,
    }
}

/// Whether two values have the same shape, and so the same schema.
pub open spec fn same_shape(a: RecordValueView, b: RecordValueView) -> bool {
    match (a, b) {
        (RecordValueView::Favorites(_), RecordValueView::Favorites(_)) => true,
        (RecordValueView::StakeUser(_), RecordValueView::StakeUser(_)) => true,
        _ => false,
    }
}

/// Decides `record_conforms` for a concrete value.
pub fn check_conforms(v: &RecordValue) -> (r: bool)
    ensures
        r == record_conforms(v@),
{
    match v {
        RecordValue::Favorites(f) => {
            if f.color.len() > MAX_COLOR_BYTES as usize {
                return false;
            }
            if f.hobbies.len() > MAX_HOBBIES as usize {
                assert(f@.hobbies.len() == f.hobbies@.len());
                return false;
            }
            let mut i: usize = 0;
            while i < f.hobbies.len()
                invariant
                    i <= f.hobbies.len(),
                    v@ == RecordValueView::Favorites(f@),
                    f@.hobbies.len() == f.hobbies@.len(),
                    f@.color.len() <= MAX_COLOR_BYTES,
                    f@.hobbies.len() <= MAX_HOBBIES,
                    forall|j: int| 0 <= j < i ==> #[trigger] f@.hobbies[j].len() <= MAX_HOBBY_BYTES,
                decreases f.hobbies.len() - i,
            {
                if f.hobbies[i].len() > MAX_HOBBY_BYTES as usize {
                    assert(f@.hobbies[i as int].len() > MAX_HOBBY_BYTES);
                    return false;
                }
                i += 1;
            }
            true
        },
        RecordValue::StakeUser(_) => true,
    }
}

/// The schema of a favorites record, in declared field order.
pub open spec fn favorites_schema() -> Seq<FieldSchema> {
    seq![
        FieldSchema::BoundedString { max_bytes: MAX_COLOR_BYTES },
        FieldSchema::Unsigned64,
        FieldSchema::BoundedStringSeq { max_items: MAX_HOBBIES, max_bytes: MAX_HOBBY_BYTES },
    ]
}

/// The schema of a staking user record, in declared field order.
pub open spec fn stake_user_schema() -> Seq<FieldSchema> {
    seq![FieldSchema::Unsigned32, FieldSchema::Signed64, FieldSchema::UnsignedByte]
}

/// The schema a value is stored under, determined by its shape.
pub open spec fn schema_of(v: RecordValueView) -> Seq<FieldSchema> {
    match v {
        RecordValueView::Favorites(_) => favorites_schema(),
        RecordValueView::StakeUser(_) => stake_user_schema(),
    }
}

/// Builds the favorites schema as a concrete field list.
pub fn make_favorites_schema() -> (r: Vec<FieldSchema>)
    ensures
        r@ == favorites_schema(),
{
    let mut v: Vec<FieldSchema> = Vec::new();
    v.push(FieldSchema::BoundedString { max_bytes: MAX_COLOR_BYTES });
    v.push(FieldSchema::Unsigned64);
    v.push(FieldSchema::BoundedStringSeq { max_items: MAX_HOBBIES, max_bytes: MAX_HOBBY_BYTES });
    proof {
        assert(v@ =~= favorites_schema());
    }
    v
}

/// Builds the staking user schema as a concrete field list.
pub fn make_stake_user_schema() -> (r: Vec<FieldSchema>)
    ensures
        r@ == stake_user_schema(),
{
    let mut v: Vec<FieldSchema> = Vec::new();
    v.push(FieldSchema::Unsigned32);
    v.push(FieldSchema::Signed64);
    v.push(FieldSchema::UnsignedByte);
    proof {
        assert(v@ =~= stake_user_schema());
    }
    v
}

/// The favorites schema's byte budget, evaluated.
pub proof fn lemma_favorites_budget()
    ensures
        schema_size(favorites_schema()) == 344,
{
    let s = favorites_schema();
    assert(fields_size_from(s, 3) == 0);
    assert(field_size(s[2]) == 274);
    assert(fields_size_from(s, 2) == 274);
    assert(fields_size_from(s, 1) == 282);
    assert(fields_size_from(s, 0) == 336);
}

/// The staking user schema's byte budget, evaluated.
pub proof fn lemma_stake_user_budget()
    ensures
        schema_size(stake_user_schema()) == 21,
{
    let s = stake_user_schema();
    assert(fields_size_from(s, 3) == 0);
    assert(fields_size_from(s, 2) == 1);
    assert(fields_size_from(s, 1) == 9);
    assert(fields_size_from(s, 0) == 13);
}

/// The little-endian bytes of a 32-bit unsigned integer.
pub open spec fn le32(x: u32) -> Seq<u8> {
    seq![
        (x & 0xff) as u8,
        ((x >> 8) & 0xff) as u8,
        ((x >> 16) & 0xff) as u8,
        ((x >> 24) & 0xff) as u8,
    ]
}

/// The little-endian bytes of a 64-bit unsigned integer.
pub open spec fn le64(x: u64) -> Seq<u8> {
    seq![
        (x & 0xff) as u8,
        ((x >> 8) & 0xff) as u8,
        ((x >> 16) & 0xff) as u8,
        ((x >> 24) & 0xff) as u8,
        ((x >> 32) & 0xff) as u8,
        ((x >> 40) & 0xff) as u8,
        ((x >> 48) & 0xff) as u8,
        ((x >> 56) & 0xff) as u8,
    ]
}

/// The little-endian bytes of a 64-bit signed integer: those of its
/// two's-complement bit pattern.
pub open spec fn le64_signed(x: i64) -> Seq<u8> {
    le64(x as u64)
}

/// A length-prefixed byte string: its length as four little-endian bytes,
/// then its bytes.
pub open spec fn enc_bytes(s: Seq<u8>) -> Seq<u8> {
    le32(s.len() as u32) + s
}

/// The concatenated length-prefixed encodings of the hobbies from index
/// `i` on.
pub open spec fn enc_hobbies_from(hs: Seq<Seq<u8>>, i: int) -> Seq<u8>
    decreases hs.len() - i,
{
    if i < 0 || i >= hs.len() {
        Seq::empty()
    } else {
        enc_bytes(hs[i]) + enc_hobbies_from(hs, i + 1)
    }
}

/// The discriminator of a favorites record: "favorite" in ASCII.
pub open spec fn favorites_discriminator() -> Seq<u8> {
    seq![102u8, 97u8, 118u8, 111u8, 114u8, 105u8, 116u8, 101u8]
}

/// The discriminator of a staking user record: "stakeusr" in ASCII.
pub open spec fn stake_user_discriminator() -> Seq<u8> {
    seq![115u8, 116u8, 97u8, 107u8, 101u8, 117u8, 115u8, 114u8]
}

/// The persisted bytes of a favorites value.
pub open spec fn encoded_favorites(f: FavoritesView) -> Seq<u8> {
    favorites_discriminator() + enc_bytes(f.color) + le64(f.number) + le32(f.hobbies.len() as u32)
        + enc_hobbies_from(f.hobbies, 0)
}

/// The persisted bytes of a staking user value.
pub open spec fn encoded_stake_user(c: StakeUserConfig) -> Seq<u8> {
    stake_user_discriminator() + le32(c.points) + le64_signed(c.amount_staked) + seq![c.bump]
}

/// The persisted bytes of a stored payload.
pub open spec fn encoded_record(v: RecordValueView) -> Seq<u8> {
    match v {
        RecordValueView::Favorites(f) => encoded_favorites(f),
        RecordValueView::StakeUser(c) => encoded_stake_user(c),
    }
}

fn push_byte(out: &mut Vec<u8>, b: u8)
    ensures
        final(out)@ == old(out)@ + seq![b],
{
    out.push(b);
    proof {
        assert(out@ =~= old(out)@ + seq![b]);
    }
}

fn push_le32(out: &mut Vec<u8>, x: u32)
    ensures
        final(out)@ == old(out)@ + le32(x),
{
    out.push((x & 0xff) as u8);
    out.push(((x >> 8) & 0xff) as u8);
    out.push(((x >> 16) & 0xff) as u8);
    out.push(((x >> 24) & 0xff) as u8);
    proof {
        assert(out@ =~= old(out)@ + le32(x));
    }
}

fn push_le64(out: &mut Vec<u8>, x: u64)
    ensures
        final(out)@ == old(out)@ + le64(x),
{
    out.push((x & 0xff) as u8);
    out.push(((x >> 8) & 0xff) as u8);
    out.push(((x >> 16) & 0xff) as u8);
    out.push(((x >> 24) & 0xff) as u8);
    out.push(((x >> 32) & 0xff) as u8);
    out.push(((x >> 40) & 0xff) as u8);
    out.push(((x >> 48) & 0xff) as u8);
    out.push(((x >> 56) & 0xff) as u8);
    proof {
        assert(out@ =~= old(out)@ + le64(x));
    }
}

fn push_raw(out: &mut Vec<u8>, s: &Vec<u8>)
    ensures
        final(out)@ == old(out)@ + s@,
{
    let mut i: usize = 0;
    while i < s.len()
        invariant
            i <= s.len(),
            out@ == old(out)@ + s@.take(i as int),
        decreases s.len() - i,
    {
        out.push(s[i]);
        i += 1;
        proof {
            assert(out@ =~= old(out)@ + s@.take(i as int));
        }
    }
    proof {
        assert(old(out)@ + s@.take(s@.len() as int) =~= old(out)@ + s@);
    }
}

fn push_enc_bytes(out: &mut Vec<u8>, s: &Vec<u8>)
    requires
        s@.len() <= 0xffff_ffff,
    ensures
        final(out)@ == old(out)@ + enc_bytes(s@),
{
    push_le32(out, s.len() as u32);
    push_raw(out, s);
    proof {
        assert(old(out)@ + le32(s@.len() as u32) + s@ =~= old(out)@ + enc_bytes(s@));
    }
}

/// Serializes a conforming value into its persisted byte layout.
pub fn encode_record(v: &RecordValue) -> (r: Vec<u8>)
    requires
        record_conforms(v@),
    ensures
        r@ == encoded_record(v@),
{
    let mut out: Vec<u8> = Vec::new();
    match v {
        RecordValue::Favorites(f) => {
            push_byte(&mut out, 102);
            push_byte(&mut out, 97);
            push_byte(&mut out, 118);
            push_byte(&mut out, 111);
            push_byte(&mut out, 114);
            push_byte(&mut out, 105);
            push_byte(&mut out, 116);
            push_byte(&mut out, 101);
            proof {
                assert(out@ =~= favorites_discriminator());
            }
            push_enc_bytes(&mut out, &f.color);
            push_le64(&mut out, f.number);
            push_le32(&mut out, f.hobbies.len() as u32);
            let ghost prefix = out@;
            let mut i: usize = 0;
            while i < f.hobbies.len()
                invariant
                    i <= f.hobbies.len(),
                    favorites_conforms(f@),
                    f@.hobbies.len() == f.hobbies.len(),
                    forall|j: int| 0 <= j < f.hobbies.len() ==> f@.hobbies[j] == f.hobbies@[j]@,
                    out@ == prefix + enc_hobbies_upto(f@.hobbies, i as int),
                decreases f.hobbies.len() - i,
            {
                assert(f@.hobbies[i as int].len() <= MAX_HOBBY_BYTES);
                push_enc_bytes(&mut out, &f.hobbies[i]);
                i += 1;
                proof {
                    lemma_enc_hobbies_upto_snoc(f@.hobbies, i as int);
                    assert(out@ =~= prefix + enc_hobbies_upto(f@.hobbies, i as int));
                }
            }
            proof {
                lemma_enc_hobbies_upto_full(f@.hobbies);
                assert(out@ =~= encoded_favorites(f@));
            }
        },
        RecordValue::StakeUser(c) => {
            push_byte(&mut out, 115);
            push_byte(&mut out, 116);
            push_byte(&mut out, 97);
            push_byte(&mut out, 107);
            push_byte(&mut out, 101);
            push_byte(&mut out, 117);
            push_byte(&mut out, 115);
            push_byte(&mut out, 114);
            proof {
                assert(out@ =~= stake_user_discriminator());
            }
            push_le32(&mut out, c.points);
            push_le64(&mut out, #[verifier::truncate] (c.amount_staked as u64));
            push_byte(&mut out, c.bump);
            proof {
                assert(out@ =~= encoded_stake_user(*c));
            }
        },
    }
    out
}

fn read_le32(bytes: &Vec<u8>, pos: usize) -> u32
    requires
        pos + 4 <= bytes@.len(),
{
    let blen = bytes.len();
    (bytes[pos] as u32) | ((bytes[pos + 1] as u32) << 8) | ((bytes[pos + 2] as u32) << 16) | ((
    bytes[pos + 3] as u32) << 24)
}

fn read_le64(bytes: &Vec<u8>, pos: usize) -> u64
    requires
        pos + 8 <= bytes@.len(),
{
    let blen = bytes.len();
    (bytes[pos] as u64) | ((bytes[pos + 1] as u64) << 8) | ((bytes[pos + 2] as u64) << 16) | ((
    bytes[pos + 3] as u64) << 24) | ((bytes[pos + 4] as u64) << 32) | ((bytes[pos + 5] as u64)
        << 40) | ((bytes[pos + 6] as u64) << 48) | ((bytes[pos + 7] as u64) << 56)
}

fn copy_range(bytes: &Vec<u8>, pos: usize, n: usize) -> (r: Vec<u8>)
    requires
        pos + n <= bytes@.len(),
    ensures
        r@ == bytes@.subrange(pos as int, pos as int + n),
{
    let blen = bytes.len();
    let mut r: Vec<u8> = Vec::new();
    let mut i: usize = 0;
    while i < n
        invariant
            i <= n,
            pos + n <= bytes@.len(),
            bytes@.len() == blen,
            r@ == bytes@.subrange(pos as int, pos as int + i),
        decreases n - i,
    {
        r.push(bytes[pos + i]);
        i += 1;
        proof {
            assert(r@ =~= bytes@.subrange(pos as int, pos as int + i));
        }
    }
    r
}

fn parse_stake_user(bytes: &Vec<u8>) -> Option<RecordValue> {
    if bytes.len() != 21 {
        return None;
    }
    let points = read_le32(bytes, 8);
    let amount_staked = #[verifier::truncate] (read_le64(bytes, 12) as i64);
    let bump = bytes[20];
    Some(RecordValue::StakeUser(StakeUserConfig { points, amount_staked, bump }))
}

fn parse_favorites(bytes: &Vec<u8>) -> Option<RecordValue> {
    let mut pos: usize = 8;
    if bytes.len() < 12 {
        return None;
    }
    let color_len = read_le32(bytes, pos) as usize;
    pos = pos + 4;
    if color_len > MAX_COLOR_BYTES as usize || bytes.len() - pos < color_len {
        return None;
    }
    let color = copy_range(bytes, pos, color_len);
    pos = pos + color_len;
    if bytes.len() - pos < 8 {
        return None;
    }
    let number = read_le64(bytes, pos);
    pos = pos + 8;
    if bytes.len() - pos < 4 {
        return None;
    }
    let hobby_count = read_le32(bytes, pos) as usize;
    pos = pos + 4;
    if hobby_count > MAX_HOBBIES as usize {
        return None;
    }
    let mut hobbies: Vec<Vec<u8>> = Vec::new();
    let mut i: usize = 0;
    while i < hobby_count
        invariant
            i <= hobby_count,
            pos <= bytes@.len(),
        decreases hobby_count - i,
    {
        if bytes.len() - pos < 4 {
            return None;
        }
        let hobby_len = read_le32(bytes, pos) as usize;
        pos = pos + 4;
        if hobby_len > MAX_HOBBY_BYTES as usize || bytes.len() - pos < hobby_len {
            return None;
        }
        hobbies.push(copy_range(bytes, pos, hobby_len));
        pos = pos + hobby_len;
        i += 1;
    }
    Some(RecordValue::Favorites(Favorites { color, number, hobbies }))
}

fn parse_record(bytes: &Vec<u8>) -> Option<RecordValue> {
    if bytes.len() < 8 {
        return None;
    }
    if bytes[0] == 102 && bytes[1] == 97 && bytes[2] == 118 && bytes[3] == 111 && bytes[4] == 114
        && bytes[5] == 105 && bytes[6] == 116 && bytes[7] == 101 {
        parse_favorites(bytes)
    } else if bytes[0] == 115 && bytes[1] == 116 && bytes[2] == 97 && bytes[3] == 107 && bytes[4]
        == 101 && bytes[5] == 117 && bytes[6] == 115 && bytes[7] == 114 {
        parse_stake_user(bytes)
    } else {
        None
    }
}

/// Deserializes persisted bytes back into a record. Accepts exactly the
/// byte strings some conforming value encodes to: whatever the parse
/// yields is held against the input by re-encoding it, so a returned
/// value always re-encodes to the given bytes, whole.
pub fn decode_record(bytes: &Vec<u8>) -> (r: Option<RecordValue>)
    ensures
        r matches Some(v) ==> record_conforms(v@) && encoded_record(v@) == bytes@,
{
    match parse_record(bytes) {
        Some(v) => {
            if !check_conforms(&v) {
                return None;
            }
            let reencoded = encode_record(&v);
            if crate::identity::bytes_eq(&reencoded, bytes) {
                Some(v)
            } else {
                None
            }
        },
        None => None,
    }
}

/// The concatenated encodings of the first `i` hobbies.
pub open spec fn enc_hobbies_upto(hs: Seq<Seq<u8>>, i: int) -> Seq<u8>
    decreases i,
{
    if i <= 0 {
        Seq::empty()
    } else {
        enc_hobbies_upto(hs, i - 1) + enc_bytes(hs[i - 1])
    }
}

/// Extending the encoded prefix by one hobby appends that hobby's encoding.
proof fn lemma_enc_hobbies_upto_snoc(hs: Seq<Seq<u8>>, i: int)
    requires
        0 < i <= hs.len(),
    ensures
        enc_hobbies_upto(hs, i) == enc_hobbies_upto(hs, i - 1) + enc_bytes(hs[i - 1]),
{
}

/// The full encoded prefix equals the suffix encoding started at zero.
proof fn lemma_enc_hobbies_eq(hs: Seq<Seq<u8>>, i: int)
    requires
        0 <= i <= hs.len(),
    ensures
        enc_hobbies_upto(hs, hs.len() as int) == enc_hobbies_upto(hs, i) + enc_hobbies_from(hs, i),
    decreases hs.len() - i,
{
    if i == hs.len() {
        assert(enc_hobbies_upto(hs, i) + enc_hobbies_from(hs, i) =~= enc_hobbies_upto(hs, i));
    } else {
        lemma_enc_hobbies_eq(hs, i + 1);
        lemma_enc_hobbies_upto_snoc(hs, i + 1);
        assert(enc_hobbies_upto(hs, i) + (enc_bytes(hs[i]) + enc_hobbies_from(hs, i + 1)) =~= (
        enc_hobbies_upto(hs, i) + enc_bytes(hs[i])) + enc_hobbies_from(hs, i + 1));
    }
}

/// The prefix form of the hobbies encoding coincides with the suffix form.
proof fn lemma_enc_hobbies_upto_full(hs: Seq<Seq<u8>>)
    ensures
        enc_hobbies_upto(hs, hs.len() as int) == enc_hobbies_from(hs, 0),
{
    lemma_enc_hobbies_eq(hs, 0);
    assert(enc_hobbies_upto(hs, 0) + enc_hobbies_from(hs, 0) =~= enc_hobbies_from(hs, 0));
}

/// Bound on the encoded hobbies: each costs at most its prefix plus the
/// declared maximum.
proof fn lemma_enc_hobbies_from_len(hs: Seq<Seq<u8>>, i: int)
    requires
        0 <= i <= hs.len(),
        forall|j: int| 0 <= j < hs.len() ==> #[trigger] hs[j].len() <= MAX_HOBBY_BYTES,
    ensures
        enc_hobbies_from(hs, i).len() <= (hs.len() - i) * (4 + MAX_HOBBY_BYTES),
    decreases hs.len() - i,
{
    if i < hs.len() {
        lemma_enc_hobbies_from_len(hs, i + 1);
        assert((hs.len() - i) * (4 + MAX_HOBBY_BYTES) == (hs.len() - i - 1) * (4 + MAX_HOBBY_BYTES)
            + (4 + MAX_HOBBY_BYTES)) by (nonlinear_arith);
    }
}

/// The data-model invariant of the store: a conforming value's persisted
/// bytes never exceed the byte budget its schema was sized at.
pub proof fn lemma_encoded_size_within_budget(v: RecordValueView)
    requires
        record_conforms(v),
    ensures
        encoded_record(v).len() <= schema_size(schema_of(v)),
{
    match v {
        RecordValueView::Favorites(f) => {
            lemma_favorites_budget();
            lemma_enc_hobbies_from_len(f.hobbies, 0);
            assert(f.hobbies.len() * (4 + MAX_HOBBY_BYTES) <= 5 * (4 + MAX_HOBBY_BYTES))
                by (nonlinear_arith)
                requires f.hobbies.len() <= 5;
        },
        RecordValueView::StakeUser(_) => {
            lemma_stake_user_budget();
        },
    }
}

} // verus!
