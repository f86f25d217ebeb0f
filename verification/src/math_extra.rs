//! Extra integer functions that a plugin offers.
use crate::text::same;
use vstd::prelude::*;
use vstd::string::*;

verus! {

/// The names of the functions with their numbers of arguments.
pub open spec fn plugin_names() -> Seq<char> {
    "math_double=1;math_square=1"@
}

/// Tell the names of the functions with their numbers of arguments.
pub fn plugin_info() -> (r: String)
    ensures
        r@ == plugin_names(),
{
    "math_double=1;math_square=1".to_owned()
}

/// The value of a function of the plugin.
pub open spec fn plugin_value(name: Seq<char>, n: int) -> Option<int> {
    if name == "math_double"@ {
        Some(n * 2)
    } else if name == "math_square"@ {
        Some(n * n)
    } else {
        None
    }
}

/// Whether a value fits.
pub open spec fn fits(v: Option<int>) -> bool {
    v matches Some(x) ==> i128::MIN <= x <= i128::MAX
}

/// Call a function of the plugin.
pub fn plugin_call(name: &str, n: i128) -> (r: Option<i128>)
    requires
        fits(plugin_value(name@, n as int)),
    ensures
        (match r {
            Some(v) => plugin_value(name@, n as int) == Some(v as int),
            None => plugin_value(name@, n as int) is None,
        }),
{
    if same(name, "math_double") {
        Some(n * 2)
    } else if same(name, "math_square") {
        Some(n * n)
    } else {
        None
    }
}

} // verus!
