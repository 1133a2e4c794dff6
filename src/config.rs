use vstd::prelude::*;

use crate::hash::default_cost;
use crate::jwt::{expiry, SECONDS_PER_HOUR};
use crate::text::{parse_unsigned, unsigned_value};

verus! {

/// Token lifetime in hours where none is configured.
pub const DEFAULT_TTL_HOURS: u64 = 24;

/// Port where none is configured.
pub const DEFAULT_PORT: u16 = 8080;

/// The bcrypt cost from its setting: the number it holds, or bcrypt's
/// default cost where it is absent or not a `u32`.
pub fn bcrypt_cost(setting: Option<&str>) -> (r: u32)
    ensures
        r == (match setting {
            Some(s) => match unsigned_value(s@, u32::MAX as nat) {
                Some(v) => v,
                None => 12,
            },
            None => 12,
        }),
{
    if let Some(s) = setting {
        if let Some(v) = parse_unsigned(s, u32::MAX as u64) {
            return v as u32;
        }
    }
    default_cost()
}

/// The token lifetime in hours from its setting: the number it holds, or 24
/// where it is absent or not a `u64`.
pub fn token_ttl_hours(setting: Option<&str>) -> (r: u64)
    ensures
        r == (match setting {
            Some(s) => match unsigned_value(s@, u64::MAX as nat) {
                Some(v) => v,
                None => DEFAULT_TTL_HOURS as nat,
            },
            None => DEFAULT_TTL_HOURS as nat,
        }),
{
    if let Some(s) = setting {
        if let Some(v) = parse_unsigned(s, u64::MAX) {
            return v;
        }
    }
    DEFAULT_TTL_HOURS
}

/// The port from its setting: 8080 where it is absent, `None` where it is
/// not a `u16`.
pub fn port(setting: Option<&str>) -> (r: Option<u16>)
    ensures
        setting is None ==> r == Some(DEFAULT_PORT),
        setting matches Some(s) ==> (match unsigned_value(s@, u16::MAX as nat) {
            Some(v) => r == Some(v as u16),
            None => r is None,
        }),
{
    match setting {
        None => Some(DEFAULT_PORT),
        Some(s) => match parse_unsigned(s, u16::MAX as u64) {
            Some(v) => Some(v as u16),
            None => None,
        },
    }
}

/// The expiry of a token issued at `now` that lives `ttl_hours`, where it
/// fits in a `u64`.
pub fn token_expiry(now: u64, ttl_hours: u64) -> (r: Option<u64>)
    ensures
        r is Some <==> expiry(now as nat, ttl_hours as nat) <= u64::MAX,
        r matches Some(e) ==> e == expiry(now as nat, ttl_hours as nat),
{
    if ttl_hours > (u64::MAX - now) / SECONDS_PER_HOUR {
        assert(ttl_hours * 3600 > u64::MAX - now) by (nonlinear_arith)
            requires
                ttl_hours > (u64::MAX - now) / 3600,
        ;
        None
    } else {
        assert(ttl_hours * 3600 <= u64::MAX - now) by (nonlinear_arith)
            requires
                ttl_hours <= (u64::MAX - now) / 3600,
        ;
        Some(now + ttl_hours * SECONDS_PER_HOUR)
    }
}

} // verus!
