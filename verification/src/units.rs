//! Amounts of the base asset and of execution gas, in their smallest units.

use vstd::prelude::*;

verus! {

/// How many of the smallest unit make one whole unit of the base asset.
pub const YOCTO_PER_NEAR: u128 = 1_000_000_000_000_000_000_000_000;

/// How many units of gas make one tera-gas.
pub const GAS_PER_TGAS: u64 = 1_000_000_000_000;

/// Whole units of the base asset that a new pool must be funded with.
pub const MIN_POOL_BALANCE_NEAR: u128 = 2;

/// Tera-gas granted to a pool's initializer.
pub const TGAS_FOR_INIT_POOL: u64 = 50;

/// Tera-gas granted to the registry's provisioning callback.
pub const TGAS_FOR_CALLBACK: u64 = 50;

/// Tera-gas granted to a forwarded fulfillment.
pub const TGAS_FOR_FULFILL: u64 = 30;

/// Tera-gas granted to a request for funds from a pool.
pub const TGAS_FOR_TRANSFER_TO_OWNER: u64 = 20;

/// The minimum provisioning balance in the smallest unit.
pub open spec fn min_pool_balance_spec() -> u128 {
    (MIN_POOL_BALANCE_NEAR * YOCTO_PER_NEAR) as u128
}

/// Calls `near_token::NearToken::from_near` and reads the token back with
/// `as_yoctonear`: whole units times ten to the twenty-fourth. The product
/// must fit, since the outside function multiplies unchecked.
#[verifier::external_body]
fn near_to_yocto(near: u128) -> (yocto: u128)
    requires
        near * YOCTO_PER_NEAR <= u128::MAX,
    ensures
        yocto == near * YOCTO_PER_NEAR,
{
    near_token::NearToken::from_near(near).as_yoctonear()
}

/// Calls `near_sdk::Gas::from_tgas` and reads the gas back with `as_gas`:
/// tera-gas times ten to the twelfth. The product must fit, since the
/// outside function multiplies unchecked.
#[verifier::external_body]
fn tgas_to_gas(tgas: u64) -> (gas: u64)
    requires
        tgas * GAS_PER_TGAS <= u64::MAX,
    ensures
        gas == tgas * GAS_PER_TGAS,
{
    near_sdk::Gas::from_tgas(tgas).as_gas()
}

/// The least funding with which a pool may be created.
pub fn min_pool_balance() -> (yocto: u128)
    ensures
        yocto == min_pool_balance_spec(),
        yocto == 2_000_000_000_000_000_000_000_000u128,
{
    near_to_yocto(MIN_POOL_BALANCE_NEAR)
}

/// Gas for one of the library's own grants, all of which fit.
pub(crate) fn gas_for(tgas: u64) -> (gas: u64)
    requires
        tgas <= 1000,
    ensures
        gas == tgas * GAS_PER_TGAS,
{
    assert(tgas * GAS_PER_TGAS <= u64::MAX) by (nonlinear_arith)
        requires
            tgas <= 1000,
            GAS_PER_TGAS == 1_000_000_000_000u64,
    ;
    tgas_to_gas(tgas)
}

} // verus!
