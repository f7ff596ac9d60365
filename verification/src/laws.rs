//! The resolver's laws: how per-host resolution behaves for complete
//! entries, for absent fields, for bad numeric fields, and for the
//! type-lenient boolean flag.

use crate::config::{
    DEFAULT_ERR_EXPIRE, DEFAULT_EXPIRE, FieldValue, HostEntry, ProfileModel, parse_error_msg,
    spec_resolve_host, spec_u32_field,
};
use vstd::prelude::*;

verus! {

/// For a host entry whose own fields are all present and well-typed — a
/// string origin, in-range integers, a boolean — resolution yields exactly
/// the declared values; the `default` tier is never consulted.
pub proof fn lemma_complete_entry_resolves_declared(
    e: HostEntry,
    d_expire: FieldValue,
    d_err_expire: FieldValue,
    d_keep: FieldValue,
)
    requires
        e.origin is Str,
        e.expire is Int && 0 <= e.expire->Int_0 <= u32::MAX,
        e.err_expire is Int && 0 <= e.err_expire->Int_0 <= u32::MAX,
        e.keep_cache_after_shutdown is Bool,
    ensures
        spec_resolve_host(e, d_expire, d_err_expire, d_keep) == Ok::<ProfileModel, Seq<char>>(
            ProfileModel {
                host: e.name@,
                origin: e.origin->Str_0@,
                expire: e.expire->Int_0 as u32,
                err_expire: e.err_expire->Int_0 as u32,
                keep_cache_after_shutdown: e.keep_cache_after_shutdown->Bool_0,
            },
        ),
{
}

/// For a host missing `expire`, `err_expire` and `keep_cache_after_shutdown`,
/// resolution falls back to `default`'s value where that is present and
/// well-typed, else to the constants 86400, 300 and `false`.
pub proof fn lemma_missing_fields_fall_back(
    e: HostEntry,
    d_expire: FieldValue,
    d_err_expire: FieldValue,
    d_keep: FieldValue,
)
    requires
        e.origin is Str,
        e.expire is Missing,
        e.err_expire is Missing,
        e.keep_cache_after_shutdown is Missing,
        d_expire is Int ==> 0 <= d_expire->Int_0 <= u32::MAX,
        d_err_expire is Int ==> 0 <= d_err_expire->Int_0 <= u32::MAX,
    ensures
        spec_resolve_host(e, d_expire, d_err_expire, d_keep) is Ok,
        spec_resolve_host(e, d_expire, d_err_expire, d_keep)->Ok_0.expire == match d_expire {
            FieldValue::Int(i) => i as u32,
            _ => DEFAULT_EXPIRE,
        },
        spec_resolve_host(e, d_expire, d_err_expire, d_keep)->Ok_0.err_expire == match d_err_expire {
            FieldValue::Int(i) => i as u32,
            _ => DEFAULT_ERR_EXPIRE,
        },
        spec_resolve_host(e, d_expire, d_err_expire, d_keep)->Ok_0.keep_cache_after_shutdown
            == match d_keep {
            FieldValue::Bool(b) => b,
            _ => false,
        },
{
}

/// A present but non-integer or out-of-range `expire` or `err_expire` on
/// the host entry is a hard error naming that host and field; and an
/// out-of-range integer on `default`'s own tier similarly never silently
/// succeeds.
pub proof fn lemma_bad_numeric_field_errors(
    e: HostEntry,
    d_expire: FieldValue,
    d_err_expire: FieldValue,
    d_keep: FieldValue,
)
    requires
        e.origin is Str,
    ensures
        !(e.expire is Int) && !(e.expire is Missing) ==> spec_resolve_host(
            e,
            d_expire,
            d_err_expire,
            d_keep,
        ) == Err::<ProfileModel, Seq<char>>(parse_error_msg(e.name@, "expire"@)),
        e.expire is Int && !(0 <= e.expire->Int_0 <= u32::MAX) ==> spec_resolve_host(
            e,
            d_expire,
            d_err_expire,
            d_keep,
        ) == Err::<ProfileModel, Seq<char>>(parse_error_msg(e.name@, "expire"@)),
        e.expire is Missing && d_expire is Int && !(0 <= d_expire->Int_0 <= u32::MAX)
            ==> spec_resolve_host(e, d_expire, d_err_expire, d_keep) == Err::<
            ProfileModel,
            Seq<char>,
        >(parse_error_msg(e.name@, "expire"@)),
        spec_u32_field(e.expire, d_expire, DEFAULT_EXPIRE) is Some && !(e.err_expire is Int)
            && !(e.err_expire is Missing) ==> spec_resolve_host(e, d_expire, d_err_expire, d_keep)
            == Err::<ProfileModel, Seq<char>>(parse_error_msg(e.name@, "err_expire"@)),
        spec_u32_field(e.expire, d_expire, DEFAULT_EXPIRE) is Some && e.err_expire is Int && !(0
            <= e.err_expire->Int_0 <= u32::MAX) ==> spec_resolve_host(
            e,
            d_expire,
            d_err_expire,
            d_keep,
        ) == Err::<ProfileModel, Seq<char>>(parse_error_msg(e.name@, "err_expire"@)),
        spec_u32_field(e.expire, d_expire, DEFAULT_EXPIRE) is Some && e.err_expire is Missing
            && d_err_expire is Int && !(0 <= d_err_expire->Int_0 <= u32::MAX)
            ==> spec_resolve_host(e, d_expire, d_err_expire, d_keep) == Err::<
            ProfileModel,
            Seq<char>,
        >(parse_error_msg(e.name@, "err_expire"@)),
{
}

/// A wrong-typed `keep_cache_after_shutdown` at either tier is treated as
/// absent, never as an error: resolution is unchanged when such a value is
/// replaced by an absent one.
pub proof fn lemma_keep_flag_wrong_type_is_absent(
    e: HostEntry,
    d_expire: FieldValue,
    d_err_expire: FieldValue,
    d_keep: FieldValue,
)
    ensures
        !(e.keep_cache_after_shutdown is Bool) ==> spec_resolve_host(
            e,
            d_expire,
            d_err_expire,
            d_keep,
        ) == spec_resolve_host(
            HostEntry { keep_cache_after_shutdown: FieldValue::Missing, ..e },
            d_expire,
            d_err_expire,
            d_keep,
        ),
        !(d_keep is Bool) ==> spec_resolve_host(e, d_expire, d_err_expire, d_keep)
            == spec_resolve_host(e, d_expire, d_err_expire, FieldValue::Missing),
{
}

} // verus!
