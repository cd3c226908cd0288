//! Addresses.
use vstd::prelude::*;
use crate::text::{parse_u8, parsed_u8, pieces, split_on, string_views};

verus! {

/// The dotted address holds at most four fields, each a decimal byte.
pub open spec fn valid_ipv4_fields(address: Seq<char>) -> bool {
    let fields = pieces(address, '.');
    &&& fields.len() <= 4
    &&& forall|i: int| 0 <= i < fields.len() ==> (#[trigger] parsed_u8(fields[i])) is Some
}

/// The octets of a dotted IPv4 address, in order; fields that the address
/// does not give are 0.
pub fn ipv4_address_to_byte_vec(address: &str) -> (r: [u8; 4])
    requires
        valid_ipv4_fields(address@),
    ensures
        forall|i: int|
            0 <= i < 4 ==> r@[i] == if i < pieces(address@, '.').len() {
                parsed_u8(pieces(address@, '.')[i])->0
            } else {
                0u8
            },
{
    let mut octets = [0u8; 4];
    let components = split_on(address, '.');
    let ghost fields = pieces(address@, '.');
    assert(string_views(components@).len() == components@.len());
    let mut i: usize = 0;
    while i < components.len()
        invariant
            string_views(components@) == fields,
            fields == pieces(address@, '.'),
            valid_ipv4_fields(address@),
            i <= components@.len(),
            forall|k: int|
                0 <= k < 4 ==> octets@[k] == if k < i {
                    parsed_u8(fields[k])->0
                } else {
                    0u8
                },
        decreases components@.len() - i,
    {
        assert(string_views(components@)[i as int] == components@[i as int]@);
        assert(parsed_u8(fields[i as int]) is Some);
        let byte = match parse_u8(components[i].as_str()) {
            Some(b) => b,
            None => 0,
        };
        octets[i] = byte;
        i = i + 1;
    }
    octets
}

} // verus!
