//! Token description and the rules on its name and symbol.

use vstd::prelude::*;
use vstd::string::StringSliceAdditionalSpecFns;

verus! {

/// The fixed description of a token.
#[derive(Clone, Debug, PartialEq, Eq)]
pub struct Constants {
    pub name: String,
    pub symbol: String,
    pub decimals: u8,
}

pub open spec fn is_ascii_letter(b: u8) -> bool {
    (65 <= b && b <= 90) || (97 <= b && b <= 122)
}

/// A token name is 3 to 30 bytes long.
pub fn is_valid_name(name: &str) -> (r: bool)
    ensures
        r == (3 <= name.spec_bytes().len() <= 30),
{
    let bytes = name.as_bytes();
    if bytes.len() < 3 || bytes.len() > 30 {
        return false;
    }
    true
}

/// A token symbol is 3 to 6 ASCII letters.
pub fn is_valid_symbol(symbol: &str) -> (r: bool)
    ensures
        r == (3 <= symbol.spec_bytes().len() <= 6 && forall|i: int|
            0 <= i < symbol.spec_bytes().len() ==> is_ascii_letter(
                #[trigger] symbol.spec_bytes()[i],
            )),
{
    let bytes = symbol.as_bytes();
    if bytes.len() < 3 || bytes.len() > 6 {
        return false;
    }
    let mut i: usize = 0;
    while i < bytes.len()
        invariant
            bytes@ == symbol.spec_bytes(),
            i <= bytes@.len(),
            forall|j: int| 0 <= j < i ==> is_ascii_letter(#[trigger] bytes@[j]),
        decreases bytes@.len() - i,
    {
        let b = bytes[i];
        if !((b >= 65 && b <= 90) || (b >= 97 && b <= 122)) {
            return false;
        }
        i = i + 1;
    }
    true
}

} // verus!
