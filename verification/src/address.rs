//! Deterministic address derivation: from a program identifier and an
//! ordered sequence of seed labels, compute the storage address of a record
//! together with the disambiguation token ("bump") that keeps the address
//! off the space reserved for executable code.

use vstd::prelude::*;
use crate::errors::ProtocolError;
use crate::identity::{Identity, KEY_BYTES};

verus! {

/// What the host's derivation returns for a program identifier and a seed
/// sequence: the derived address and its bump, or nothing when no bump in
/// the searched range works. A pure function of its two arguments.
pub uninterp spec fn pda_of(program_id: Seq<u8>, seeds: Seq<Seq<u8>>) -> Option<(Seq<u8>, u8)>;

/// The byte contents of each seed in a seed list.
pub open spec fn seeds_view(seeds: Seq<Vec<u8>>) -> Seq<Seq<u8>> {
    seeds.map_values(|s: Vec<u8>| s@)
}

/// The byte contents of a derivation outcome.
pub open spec fn pda_opt_view(r: Option<([u8; KEY_BYTES], u8)>) -> Option<(Seq<u8>, u8)> {
    match r {
        Some(p) => Some((p.0@, p.1)),
        None => None,
    }
}

/// Relies on `Pubkey::try_find_program_address` from `anchor_lang`'s
/// prelude: a pure search over bump values (SHA-256 of the seeds, the bump
/// and the program identifier), so its outcome is a function of the program
/// identifier and the seeds alone. It returns `None` — and never panics —
/// when the seeds are too many or too long or when no bump in the searched
/// range yields an address off the reserved curve.
#[verifier::external_body]
fn find_program_address(program_id: &[u8; KEY_BYTES], seeds: &Vec<Vec<u8>>) -> (r: Option<
    ([u8; KEY_BYTES], u8),
>)
    ensures
        pda_opt_view(r) == pda_of(program_id@, seeds_view(seeds@)),
{
    let pid = anchor_lang::prelude::Pubkey::new_from_array(*program_id);
    let seed_refs: Vec<&[u8]> = seeds.iter().map(|s| s.as_slice()).collect();
    anchor_lang::prelude::Pubkey::try_find_program_address(&seed_refs, &pid)
        .map(|(address, bump)| (address.to_bytes(), bump))
}

/// The storage address derived for one identity under one program: a key of
/// `KEY_BYTES` bytes, never chosen by the caller.
#[derive(Debug)]
pub struct DerivedAddress {
    pub bytes: Vec<u8>,
}

impl View for DerivedAddress {
    type V = Seq<u8>;

    open spec fn view(&self) -> Seq<u8> {
        self.bytes@
    }
}

impl DerivedAddress {
    /// A well-formed address is exactly `KEY_BYTES` bytes long.
    pub open spec fn wf(&self) -> bool {
        self@.len() == KEY_BYTES
    }

    /// An independent copy of this address.
    pub fn duplicate(&self) -> (r: DerivedAddress)
        ensures
            r@ == self@,
    {
        DerivedAddress { bytes: crate::identity::copy_bytes(&self.bytes) }
    }
}

/// What `derive` returns, stated over byte sequences: the derivation's
/// outcome, or `DerivationExhausted` where the host finds no usable bump.
pub open spec fn derive_spec(program_id: Seq<u8>, seeds: Seq<Seq<u8>>) -> Result<
    (Seq<u8>, u8),
    ProtocolError,
> {
    match pda_of(program_id, seeds) {
        Some(p) => Ok(p),
        None => Err(ProtocolError::DerivationExhausted),
    }
}

/// Derives the storage address and bump for `seeds` under `program_id`.
/// Pure: no randomness and no external state enter the computation.
pub fn derive(program_id: &[u8; KEY_BYTES], seeds: &Vec<Vec<u8>>) -> (r: Result<
    (DerivedAddress, u8),
    ProtocolError,
>)
    ensures
        match r {
            Ok(p) => derive_spec(program_id@, seeds_view(seeds@)) == Ok::<_, ProtocolError>(
                (p.0@, p.1),
            ) && p.0.wf(),
            Err(e) => derive_spec(program_id@, seeds_view(seeds@)) == Err::<(Seq<u8>, u8), _>(e),
        },
{
    match find_program_address(program_id, seeds) {
        Some((address, bump)) => {
            let mut bytes: Vec<u8> = Vec::new();
            let mut i: usize = 0;
            while i < KEY_BYTES
                invariant
                    i <= KEY_BYTES,
                    bytes@ == address@.take(i as int),
                decreases KEY_BYTES - i,
            {
                bytes.push(address[i]);
                i += 1;
                proof {
                    assert(bytes@ =~= address@.take(i as int));
                }
            }
            proof {
                assert(address@.take(KEY_BYTES as int) =~= address@);
            }
            Ok((DerivedAddress { bytes }, bump))
        },
        None => Err(ProtocolError::DerivationExhausted),
    }
}

/// Determinism of derivation: equal program identifiers and equal seed
/// sequences always derive the equal (address, bump) outcome.
pub proof fn lemma_derive_deterministic(
    pid1: Seq<u8>,
    seeds1: Seq<Seq<u8>>,
    pid2: Seq<u8>,
    seeds2: Seq<Seq<u8>>,
)
    requires
        pid1 == pid2,
        seeds1 == seeds2,
    ensures
        derive_spec(pid1, seeds1) == derive_spec(pid2, seeds2),
{
}

/// The seed label that namespaces favorites records: "favorites" in ASCII.
pub open spec fn favorites_tag() -> Seq<u8> {
    seq![102u8, 97u8, 118u8, 111u8, 114u8, 105u8, 116u8, 101u8, 115u8]
}

/// The seed label that namespaces staking user records: "user" in ASCII.
pub open spec fn user_tag() -> Seq<u8> {
    seq![117u8, 115u8, 101u8, 114u8]
}

fn push_favorites_tag() -> (r: Vec<u8>)
    ensures
        r@ == favorites_tag(),
{
    let mut v: Vec<u8> = Vec::new();
    v.push(102);
    v.push(97);
    v.push(118);
    v.push(111);
    v.push(114);
    v.push(105);
    v.push(116);
    v.push(101);
    v.push(115);
    proof {
        assert(v@ =~= favorites_tag());
    }
    v
}

fn push_user_tag() -> (r: Vec<u8>)
    ensures
        r@ == user_tag(),
{
    let mut v: Vec<u8> = Vec::new();
    v.push(117);
    v.push(115);
    v.push(101);
    v.push(114);
    proof {
        assert(v@ =~= user_tag());
    }
    v
}

/// The seed list of a favorites record: the namespace tag, then the owning
/// identity's key.
pub fn favorites_seeds(user: &Identity) -> (r: Vec<Vec<u8>>)
    ensures
        seeds_view(r@) == seq![favorites_tag(), user@],
{
    let mut seeds: Vec<Vec<u8>> = Vec::new();
    seeds.push(push_favorites_tag());
    seeds.push(crate::identity::copy_bytes(&user.bytes));
    proof {
        assert(seeds_view(seeds@) =~= seq![favorites_tag(), user@]);
    }
    seeds
}

/// The seed list of a staking user record: the namespace tag, then the
/// owning identity's key.
pub fn user_seeds(user: &Identity) -> (r: Vec<Vec<u8>>)
    ensures
        seeds_view(r@) == seq![user_tag(), user@],
{
    let mut seeds: Vec<Vec<u8>> = Vec::new();
    seeds.push(push_user_tag());
    seeds.push(crate::identity::copy_bytes(&user.bytes));
    proof {
        assert(seeds_view(seeds@) =~= seq![user_tag(), user@]);
    }
    seeds
}

} // verus!
