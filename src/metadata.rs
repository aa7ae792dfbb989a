//! The extra storage that descriptive metadata needs on a receipt asset, and
//! the lamports that fund it.

use vstd::prelude::*;
use vstd::string::StringSliceAdditionalSpecFns;
use vstd::utf8::encode_utf8;
use crate::ledger::TokenMetadataArgs;
use anchor_lang::solana_program::rent::{DEFAULT_EXEMPTION_THRESHOLD, DEFAULT_LAMPORTS_PER_BYTE_YEAR};
use spl_token_metadata_interface::state::TokenMetadata;
use spl_type_length_value::variable_len_pack::VariableLenPack;

verus! {

/// Bytes of a type-length-value header: two for the type, two for the length.
pub const TLV_HEADER_LEN: u64 = 4;

/// Length of the packed metadata record, given the UTF-8 lengths of its name,
/// symbol and URI: two 32-byte keys, three length-prefixed strings and an
/// empty list of additional fields.
pub open spec fn packed_len(name: nat, symbol: nat, uri: nat) -> nat {
    32 + 32 + (4 + name) + (4 + symbol) + (4 + uri) + 4
}

/// Lamports that make the metadata's storage rent-exempt, where they fit.
pub open spec fn metadata_rent(name: nat, symbol: nat, uri: nat) -> Option<u64> {
    if name > u32::MAX || symbol > u32::MAX || uri > u32::MAX || packed_len(name, symbol, uri) > usize::MAX {
        None
    } else if (TLV_HEADER_LEN + packed_len(name, symbol, uri)) * 3480 * 2 > u64::MAX {
        None
    } else {
        Some(((TLV_HEADER_LEN + packed_len(name, symbol, uri)) * 3480 * 2) as u64)
    }
}

/// The UTF-8 length of a string, as `str::len` gives it.
pub open spec fn utf8_len(s: Seq<char>) -> nat {
    (encode_utf8(s).len() as usize) as nat
}

/// The UTF-8 lengths of the three strings.
pub open spec fn args_lens(args: &TokenMetadataArgs) -> (nat, nat, nat) {
    (utf8_len(args.name@), utf8_len(args.symbol@), utf8_len(args.uri@))
}

/// Relies on `VariableLenPack::get_packed_len` of `TokenMetadata`: the length
/// of its Borsh encoding, which fails only for a string longer than `u32::MAX`.
#[verifier::external_body]
fn metadata_packed_len(args: &TokenMetadataArgs) -> (r: Option<usize>)
    requires
        args_lens(args).0 <= u32::MAX,
        args_lens(args).1 <= u32::MAX,
        args_lens(args).2 <= u32::MAX,
        packed_len(args_lens(args).0, args_lens(args).1, args_lens(args).2) <= usize::MAX,
    ensures
        r == Some(packed_len(args_lens(args).0, args_lens(args).1, args_lens(args).2) as usize),
{
    let metadata = TokenMetadata {
        name: args.name.clone(),
        symbol: args.symbol.clone(),
        uri: args.uri.clone(),
        ..Default::default()
    };
    metadata.get_packed_len().ok()
}

/// Relies on `rent::DEFAULT_LAMPORTS_PER_BYTE_YEAR` of solana-program.
#[verifier::external_body]
fn lamports_per_byte_year() -> (r: u64)
    ensures
        r == 3480,
{
    DEFAULT_LAMPORTS_PER_BYTE_YEAR
}

/// Relies on `rent::DEFAULT_EXEMPTION_THRESHOLD` of solana-program (two
/// years), as a whole number of years.
#[verifier::external_body]
fn exemption_threshold_years() -> (r: u64)
    ensures
        r == 2,
{
    DEFAULT_EXEMPTION_THRESHOLD as u64
}

/// Lamports to move to the receipt asset's account so that it can hold the
/// metadata `args`; `None` where a string is too long to be encoded or the
/// amount does not fit in a `u64`.
pub fn metadata_rent_lamports(args: &TokenMetadataArgs) -> (r: Option<u64>)
    ensures
        r == metadata_rent(args_lens(args).0, args_lens(args).1, args_lens(args).2),
{
    let n = args.name.as_str().len();
    let s = args.symbol.as_str().len();
    let u = args.uri.as_str().len();
    let limit: usize = 4294967295;
    if n > limit || s > limit || u > limit {
        return None;
    }
    let n64 = n as u64;
    let s64 = s as u64;
    let u64_len = u as u64;
    let total: u64 = 80 + n64 + s64 + u64_len;
    assert(total == packed_len(n as nat, s as nat, u as nat));
    if total as u128 > usize::MAX as u128 {
        return None;
    }
    let packed = match metadata_packed_len(args) {
        Some(p) => p,
        None => return None,
    };
    let data_len: u64 = TLV_HEADER_LEN + packed as u64;
    let per_byte = lamports_per_byte_year();
    let years = exemption_threshold_years();
    if data_len > u64::MAX / per_byte / years {
        assert(data_len * per_byte * years > u64::MAX) by (nonlinear_arith)
            requires
                data_len > u64::MAX / per_byte / years,
                per_byte == 3480,
                years == 2,
        ;
        return None;
    }
    assert(data_len * per_byte * years <= u64::MAX) by (nonlinear_arith)
        requires
            data_len <= u64::MAX / per_byte / years,
            per_byte == 3480,
            years == 2,
    ;
    Some(data_len * per_byte * years)
}

} // verus!
