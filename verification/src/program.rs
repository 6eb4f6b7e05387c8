//! The caller-facing operations of the program family, expressed over one
//! shared store: a no-op reachability probe, the favorites recorder, and
//! the staking user setup. Each operation derives its record's address
//! from the program identifier, a fixed namespace tag and the user's key,
//! then runs the create-once lifecycle.

use vstd::prelude::*;
use crate::address::{
    DerivedAddress, derive_spec, favorites_seeds, favorites_tag, user_seeds, user_tag,
};
use crate::errors::ProtocolError;
use crate::identity::{Identity, KEY_BYTES};
use crate::ledger::{Ledger, init_result, initialized_at};
use crate::records::{
    Favorites, FavoritesView, RecordValue, RecordValueView, StakeUserConfig, hobbies_view,
};

verus! {

/// Confirms the program is reachable; does nothing else and always
/// succeeds.
pub fn initialize() -> (r: Result<(), ProtocolError>)
    ensures
        r == Ok::<(), ProtocolError>(()),
{
    Ok(())
}

/// Reserved for future claim logic: takes nothing, changes nothing, and
/// always succeeds.
pub fn claim() -> (r: Result<(), ProtocolError>)
    ensures
        r == Ok::<(), ProtocolError>(()),
{
    Ok(())
}

/// The favorites record a caller submits, as a stored value.
pub open spec fn favorites_value(color: Seq<u8>, number: u64, hobbies: Seq<Seq<u8>>) -> RecordValueView {
    RecordValueView::Favorites(FavoritesView { color, number, hobbies })
}

/// The fresh staking record of a user whose address was derived with
/// `bump`: no points and nothing staked yet.
pub open spec fn stake_user_value(bump: u8) -> RecordValueView {
    RecordValueView::StakeUser(StakeUserConfig { points: 0, amount_staked: 0, bump })
}

/// Creates `user`'s favorites record, holding `color`, `number` and
/// `hobbies`, at the address derived from the program identifier, the
/// favorites tag and the user's key. The user both owns and pays for the
/// record. Fails exactly as derivation or creation fail, leaving the
/// store untouched.
pub fn set_favorites(
    ledger: &mut Ledger,
    program_id: &[u8; KEY_BYTES],
    user: &Identity,
    payer_funds: u64,
    color: Vec<u8>,
    number: u64,
    hobbies: Vec<Vec<u8>>,
) -> (r: Result<(DerivedAddress, u8), ProtocolError>)
    requires
        old(ledger).wf(),
        user.wf(),
    ensures
        final(ledger).wf(),
        match derive_spec(program_id@, seq![favorites_tag(), user@]) {
            Err(e) => r == Err::<(DerivedAddress, u8), _>(e) && final(ledger)@ == old(ledger)@,
            Ok(ab) => {
                let v = favorites_value(color@, number, hobbies_view(hobbies@));
                match init_result(old(ledger)@, ab.0, payer_funds, v) {
                    Err(e) => r == Err::<(DerivedAddress, u8), _>(e) && final(ledger)@ == old(
                        ledger,
                    )@,
                    Ok(u) => r matches Ok(p) && p.0@ == ab.0 && p.1 == ab.1 && initialized_at(
                        old(ledger)@,
                        final(ledger)@,
                        ab.0,
                        user@,
                        v,
                    ),
                }
            },
        },
{
    let seeds = favorites_seeds(user);
    let (address, bump) = match crate::address::derive(program_id, &seeds) {
        Ok(p) => p,
        Err(e) => {
            return Err(e);
        },
    };
    let address_out = address.duplicate();
    let value = RecordValue::Favorites(Favorites { color, number, hobbies });
    match ledger.initialize(address, user, payer_funds, value) {
        Ok(()) => Ok((address_out, bump)),
        Err(e) => Err(e),
    }
}

/// Creates `user`'s staking record — zero points, nothing staked, the
/// derivation's bump remembered in the record — at the address derived
/// from the program identifier, the user tag and the user's key. The user
/// both owns and pays for the record. Fails exactly as derivation or
/// creation fail, leaving the store untouched.
pub fn initialize_user(
    ledger: &mut Ledger,
    program_id: &[u8; KEY_BYTES],
    user: &Identity,
    payer_funds: u64,
) -> (r: Result<(DerivedAddress, u8), ProtocolError>)
    requires
        old(ledger).wf(),
        user.wf(),
    ensures
        final(ledger).wf(),
        match derive_spec(program_id@, seq![user_tag(), user@]) {
            Err(e) => r == Err::<(DerivedAddress, u8), _>(e) && final(ledger)@ == old(ledger)@,
            Ok(ab) => {
                let v = stake_user_value(ab.1);
                match init_result(old(ledger)@, ab.0, payer_funds, v) {
                    Err(e) => r == Err::<(DerivedAddress, u8), _>(e) && final(ledger)@ == old(
                        ledger,
                    )@,
                    Ok(u) => r matches Ok(p) && p.0@ == ab.0 && p.1 == ab.1 && initialized_at(
                        old(ledger)@,
                        final(ledger)@,
                        ab.0,
                        user@,
                        v,
                    ),
                }
            },
        },
{
    let seeds = user_seeds(user);
    let (address, bump) = match crate::address::derive(program_id, &seeds) {
        Ok(p) => p,
        Err(e) => {
            return Err(e);
        },
    };
    let address_out = address.duplicate();
    let value = RecordValue::StakeUser(StakeUserConfig { points: 0, amount_staked: 0, bump });
    match ledger.initialize(address, user, payer_funds, value) {
        Ok(()) => Ok((address_out, bump)),
        Err(e) => Err(e),
    }
}

} // verus!
