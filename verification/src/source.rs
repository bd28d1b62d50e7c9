//! The built-in default source sample, and the fallback rule that substitutes
//! it whenever no input text could be provided.

use vstd::prelude::*;
use vstd::string::StringExecFns;

verus! {

/// The characters of the built-in C++ sample used when no input is given.
pub open spec fn default_source() -> Seq<char> {
    "
    struct Number {
        int value;
    };

    int bump(const Number& x_times) {
        return x_times.value + 1;
    }

    // Entry point of the sample
    int main() {
        Number x;
        x.value = 10;
        return bump(x);
    }
    "@
}

/// The built-in C++ sample as an owned string.
pub fn get_default_cpp_code() -> (r: String)
    ensures
        r@ == default_source(),
{
    String::from_str(
        "
    struct Number {
        int value;
    };

    int bump(const Number& x_times) {
        return x_times.value + 1;
    }

    // Entry point of the sample
    int main() {
        Number x;
        x.value = 10;
        return bump(x);
    }
    ",
    )
}

/// The source text to work on: the given content when there is some, and the
/// built-in sample otherwise.
pub fn source_or_default(content: Option<String>) -> (r: String)
    ensures
        match content {
            Some(given) => r@ == given@,
            None => r@ == default_source(),
        },
{
    match content {
        Some(given) => given,
        None => get_default_cpp_code(),
    }
}

} // verus!
