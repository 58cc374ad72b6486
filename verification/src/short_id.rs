//! Short random identifiers.
use crate::text;
use vstd::prelude::*;

verus! {

/// `rand::random` draws sixty-four uniformly distributed bits.
#[verifier::external_body]
pub(crate) fn random_bits() -> u64 {
    rand::random::<u64>()
}

/// A fresh identifier: sixteen hexadecimal digits drawn at random.
pub fn generate_short_id() -> (id: String)
    ensures
        id@.len() == 16,
        forall|i: int| 0 <= i < 16 ==> text::is_hex_digit(#[trigger] id@[i]),
{
    let bits: u64 = random_bits();
    proof {
        text::lemma_hex_digits(bits as nat, 16);
    }
    text::hex16_text(bits)
}

} // verus!
