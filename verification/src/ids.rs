//! Session identities.
//!
//! A session identity is a short random tag of unambiguous lowercase letters
//! and digits (the easily confused `0`, `1`, `o` and `l` are left out).  The
//! relay routes messages by `desktop_<id>` and `browser_<id>` identities
//! built from it.

use vstd::prelude::*;
use rand::Rng;

verus! {

/// Length of an identity.
pub const ID_SECTION_LEN: usize = 6;

/// The unambiguous identity alphabet.
pub open spec fn id_alphabet() -> Seq<u8> {
    seq![
        0x61u8, 0x62u8, 0x63u8, 0x64u8, 0x65u8, 0x66u8, 0x67u8, 0x68u8, 0x69u8, 0x6au8, 0x6bu8,
        0x6du8, 0x6eu8, 0x70u8, 0x71u8, 0x72u8, 0x73u8, 0x74u8, 0x75u8, 0x76u8, 0x77u8, 0x78u8,
        0x79u8, 0x7au8, 0x32u8, 0x33u8, 0x34u8, 0x35u8, 0x36u8, 0x37u8, 0x38u8, 0x39u8,
    ]
}

/// A character the identity alphabet contains.
pub open spec fn is_id_char(c: char) -> bool {
    (c as u32) < 0x80 && id_alphabet().contains((c as u32) as u8)
}

/// Relies on rand's `Rng::gen_range` on the operating-system generator: it
/// returns a value of the given range and panics only on an empty range,
/// which the precondition rules out.
#[verifier::external_body]
fn random_index(bound: usize) -> (r: usize)
    requires
        bound >= 1,
    ensures
        r < bound,
{
    rand::rngs::OsRng.gen_range(0..bound)
}

/// Relies on `String::from_utf8`: ASCII bytes are valid UTF-8 and become
/// exactly one character each, so the call never fails for them.
#[verifier::external_body]
fn ascii_string(bytes: Vec<u8>) -> (r: String)
    requires
        forall|i: int| 0 <= i < bytes@.len() ==> bytes@[i] < 0x80,
    ensures
        r@.len() == bytes@.len(),
        forall|i: int|
            0 <= i < bytes@.len() ==> (#[trigger] r@[i] as u32) < 0x80 && (r@[i] as u32) as u8
                == bytes@[i],
{
    String::from_utf8(bytes).unwrap_or_default()
}

/// One byte of the identity alphabet.
fn alphabet_byte(i: usize) -> (c: u8)
    requires
        i < 32,
    ensures
        c == id_alphabet()[i as int],
        c < 0x80,
        id_alphabet().contains(c),
{
    let a: [u8; 32] = [
        0x61, 0x62, 0x63, 0x64, 0x65, 0x66, 0x67, 0x68, 0x69, 0x6a, 0x6b, 0x6d, 0x6e, 0x70, 0x71,
        0x72, 0x73, 0x74, 0x75, 0x76, 0x77, 0x78, 0x79, 0x7a, 0x32, 0x33, 0x34, 0x35, 0x36, 0x37,
        0x38, 0x39,
    ];
    proof {
        assert(a@ =~= id_alphabet());
    }
    let c = a[i];
    proof {
        assert(id_alphabet()[i as int] == c);
    }
    c
}

/// A random character of the identity alphabet.
pub fn random_lowercase_letter_or_digit() -> (c: char)
    ensures
        is_id_char(c),
{
    let b = alphabet_byte(random_index(32));
    proof {
        assert((b as char) as u32 == b);
    }
    b as char
}

/// A fresh random identity: unambiguous lowercase letters and digits only.
pub fn random_id() -> (r: String)
    ensures
        r@.len() == ID_SECTION_LEN,
        forall|i: int| 0 <= i < r@.len() ==> is_id_char(#[trigger] r@[i]),
{
    let mut bytes: Vec<u8> = Vec::new();
    let mut i: usize = 0;
    while i < ID_SECTION_LEN
        invariant
            0 <= i <= ID_SECTION_LEN,
            bytes@.len() == i,
            forall|j: int|
                0 <= j < bytes@.len() ==> #[trigger] bytes@[j] < 0x80 && id_alphabet().contains(
                    bytes@[j],
                ),
        decreases ID_SECTION_LEN - i,
    {
        bytes.push(alphabet_byte(random_index(32)));
        i = i + 1;
    }
    let r = ascii_string(bytes);
    proof {
        assert forall|i2: int| 0 <= i2 < r@.len() implies is_id_char(#[trigger] r@[i2]) by {
            assert(((r@[i2] as u32) as u8) < 0x80);
        }
    }
    r
}

} // verus!
