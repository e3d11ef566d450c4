//! A panic captured as a structural report: the location and a hash of the
//! message for grouping, never the message itself.

use vstd::prelude::*;
use crate::diagnostics::{str_at, val_at};
use crate::hex::{hex_fixed, hex_fixed_width};
use crate::json::{jstr, member, Json};

verus! {

/// What `std`'s `DefaultHasher` gives for a string slice.
pub uninterp spec fn default_hash(s: Seq<char>) -> u64;

/// `std::collections::hash_map::DefaultHasher`: a fresh hasher from
/// `DefaultHasher::new`, fed `s` through `Hash::hash`, read out with
/// `Hasher::finish`. Every hasher made by `new` starts in the same state (std
/// documents this), so the result is named as a function of the text alone;
/// which value it is, is not stated.
#[verifier::external_body]
fn default_hash_of(s: &str) -> (r: u64)
    ensures
        r == default_hash(s@),
{
    let mut h = std::collections::hash_map::DefaultHasher::new();
    std::hash::Hash::hash(s, &mut h);
    std::hash::Hasher::finish(&h)
}

/// The crash-report hash of a message: 16 lowercase hex digits of its
/// `DefaultHasher` value.
pub fn hash(s: &str) -> (r: String)
    ensures
        r@ == hex_fixed(default_hash(s@) as nat, 16),
        r@.len() == 16,
{
    hex_fixed_width(default_hash_of(s), 16)
}

/// A crash report: where it happened and a hash of the panic message for
/// grouping. The message itself is not included.
pub fn report(service: &str, version: &str, message: &str, location: Option<&str>) -> (r:
    Json)
    ensures
        r matches Json::Object(m) && m@.len() == 7 && str_at(m@, 0, "event"@, "crash"@) && str_at(
            m@,
            1,
            "service"@,
            service@,
        ) && str_at(m@, 2, "version"@, version@) && val_at(m@, 3, "panic"@, Json::Bool(true))
            && str_at(m@, 4, "level"@, "error"@) && (match location {
            Some(l) => str_at(m@, 5, "location"@, l@),
            None => val_at(m@, 5, "location"@, Json::Null),
        }) && str_at(m@, 6, "backtrace_hash"@, hex_fixed(default_hash(message@) as nat, 16)),
{
    let mut m: Vec<(String, Json)> = Vec::new();
    m.push(member("event", jstr("crash")));
    m.push(member("service", jstr(service)));
    m.push(member("version", jstr(version)));
    m.push(member("panic", Json::Bool(true)));
    m.push(member("level", jstr("error")));
    let loc = match location {
        Some(l) => jstr(l),
        None => Json::Null,
    };
    m.push(member("location", loc));
    m.push(member("backtrace_hash", Json::Str(hash(message))));
    Json::Object(m)
}

} // verus!
