//! A store of keys and values.

use vstd::prelude::*;

verus! {

/// A value, or what stands in for it.
pub fn value_or(value: Option<String>, default_value: &str) -> (r: String)
    ensures
        match value {
            Some(v) => r == v,
            None => r@ == default_value@,
        },
{
    match value {
        Some(v) => v,
        None => default_value.to_owned(),
    }
}

/// A store of keys and values.
pub trait ConfigService {
    /// The value of `key`, where it is set.
    fn get(&self, key: &str) -> (r: Option<String>)
    ;

    /// The value of `key`, or `default_value` where it is not set.
    fn get_default(&self, key: &str, default_value: &str) -> (r: String)
        default_ensures
            exists|v: Option<String>| #[trigger]
                call_ensures(Self::get, (self, key), v) && match v {
                    Some(s) => r == s,
                    None => r@ == default_value@,
                },
    {
        value_or(self.get(key), default_value)
    }

    /// Sets `key` to `value`.
    fn set(&self, key: &str, value: &str)
    ;
}

} // verus!
