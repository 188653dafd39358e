//! The JSON value type of `serde_json`, carried through the library as an
//! opaque value.

use vstd::prelude::*;

verus! {

#[verifier::external_type_specification]
#[verifier::external_body]
pub struct ExJsonValue(serde_json::Value);

#[verifier::external_type_specification]
#[verifier::external_body]
pub struct ExJsonError(serde_json::Error);

/// `Clone` for JSON values (derived in `serde_json`): a copy of the value.
/// Nothing is stated of it, as the value is opaque here.
pub assume_specification [<serde_json::Value as Clone>::clone](v: &serde_json::Value) -> serde_json::Value;

#[verifier::external_type_specification]
#[verifier::external_body]
#[verifier::reject_recursive_types(K)]
#[verifier::reject_recursive_types(V)]
pub struct ExJsonMap<K, V>(serde_json::Map<K, V>);

/// `Map::new`: an empty map of a JSON object. Nothing is stated of it, as
/// the map is opaque here.
pub assume_specification [serde_json::Map::<String, serde_json::Value>::new]() -> serde_json::Map<String, serde_json::Value>;

/// `Map::insert`: puts a member into the map of a JSON object. Nothing is
/// stated of the map afterwards or of the result, as both are opaque here.
pub assume_specification [serde_json::Map::<String, serde_json::Value>::insert](
    map: &mut serde_json::Map<String, serde_json::Value>,
    k: String,
    v: serde_json::Value,
) -> Option<serde_json::Value>;

/// `Value::from` on a map: the JSON object with those members. Nothing is
/// stated of it, as the value is opaque here.
pub assume_specification [<serde_json::Value as From<serde_json::Map<String, serde_json::Value>>>::from](
    f: serde_json::Map<String, serde_json::Value>,
) -> serde_json::Value;

/// `Value::from` on an unsigned integer: the JSON number. Nothing is
/// stated of it, as the value is opaque here.
pub assume_specification [<serde_json::Value as From<u64>>::from](n: u64) -> serde_json::Value;

/// `Value::from` on a string: the JSON string. Nothing is stated of it, as
/// the value is opaque here.
pub assume_specification [<serde_json::Value as From<String>>::from](f: String) -> serde_json::Value;

} // verus!
