//! Cluster bootstrap helpers: deterministic validator names and identity
//! generation. Wiring the identities to channels is the embedding host's
//! business; consensus only needs each validator to receive its identity
//! and the ordered keys of its peers.

use vstd::prelude::*;

use crate::crypto::PrivateKey;
use crate::endpoint::Identity;

verus! {

/// The five base names rotated through the cluster.
pub open spec fn spec_base_name(i: u64) -> Seq<char> {
    if i % 5 == 0 {
        "alice"@
    } else if i % 5 == 1 {
        "bob"@
    } else if i % 5 == 2 {
        "carol"@
    } else if i % 5 == 3 {
        "dave"@
    } else {
        "eric"@
    }
}

/// The decimal digits of `n`, most significant first.
pub open spec fn spec_decimal(n: u64) -> Seq<char>
    decreases n,
{
    let d = spec_digit_char(n % 10);
    if n < 10 {
        seq![d]
    } else {
        spec_decimal(n / 10).push(d)
    }
}

/// The character of one decimal digit.
pub open spec fn spec_digit_char(d: u64) -> char {
    if d == 0 {
        '0'
    } else if d == 1 {
        '1'
    } else if d == 2 {
        '2'
    } else if d == 3 {
        '3'
    } else if d == 4 {
        '4'
    } else if d == 5 {
        '5'
    } else if d == 6 {
        '6'
    } else if d == 7 {
        '7'
    } else if d == 8 {
        '8'
    } else {
        '9'
    }
}

/// The deterministic display name of validator `i`: one of five base
/// names followed by a generation number.
pub open spec fn spec_name(i: u64) -> Seq<char> {
    spec_base_name(i) + spec_decimal(i / 5)
}

/// Render one decimal digit.
fn digit_str(d: u64) -> (r: &'static str)
    requires
        d < 10,
    ensures
        r@ == seq![spec_digit_char(d)],
{
    proof {
        reveal_strlit("0");
        reveal_strlit("1");
        reveal_strlit("2");
        reveal_strlit("3");
        reveal_strlit("4");
        reveal_strlit("5");
        reveal_strlit("6");
        reveal_strlit("7");
        reveal_strlit("8");
        reveal_strlit("9");
    }
    if d == 0 {
        "0"
    } else if d == 1 {
        "1"
    } else if d == 2 {
        "2"
    } else if d == 3 {
        "3"
    } else if d == 4 {
        "4"
    } else if d == 5 {
        "5"
    } else if d == 6 {
        "6"
    } else if d == 7 {
        "7"
    } else if d == 8 {
        "8"
    } else {
        "9"
    }
}

/// Render `n` in decimal.
fn decimal_string(n: u64) -> (r: String)
    ensures
        r@ == spec_decimal(n),
    decreases n,
{
    let digit = digit_str(n % 10);
    if n < 10 {
        String::from_str(digit)
    } else {
        let prefix = decimal_string(n / 10);
        prefix.concat(digit)
    }
}

/// The deterministic display name of validator `i`.
pub fn name_gen(i: u64) -> (r: String)
    ensures
        r@ == spec_name(i),
{
    let generation = i / 5;
    let basename = i % 5;
    let base: &'static str = if basename == 0 {
        "alice"
    } else if basename == 1 {
        "bob"
    } else if basename == 2 {
        "carol"
    } else if basename == 3 {
        "dave"
    } else {
        "eric"
    };
    proof {
        reveal_strlit("alice");
        reveal_strlit("bob");
        reveal_strlit("carol");
        reveal_strlit("dave");
        reveal_strlit("eric");
    }
    let digits = decimal_string(generation);
    String::from_str(base).concat(digits.as_str())
}

/// Generate the identities of a cluster of `quorum_size` validators:
/// deterministic names, fresh key pairs, indices in order.
pub fn cluster_identities(quorum_size: u64) -> (r: Vec<Identity>)
    requires
        quorum_size <= usize::MAX,
    ensures
        r@.len() == quorum_size,
        forall|j: int| 0 <= j < r@.len() ==> (#[trigger] r@[j]).index == j,
        forall|j: int|
            0 <= j < r@.len() ==> crate::endpoint::identity_wf(#[trigger] r@[j]),
        forall|j: int| 0 <= j < r@.len() ==> (#[trigger] r@[j]).name@ == spec_name(j as u64),
    {
    let mut identities: Vec<Identity> = Vec::new();
    let mut peer: u64 = 0;
    while peer < quorum_size
        invariant
            peer <= quorum_size,
            quorum_size <= usize::MAX,
            identities@.len() == peer,
            forall|j: int| 0 <= j < peer ==> (#[trigger] identities@[j]).index == j,
            forall|j: int|
                0 <= j < peer ==> crate::endpoint::identity_wf(#[trigger] identities@[j]),
            forall|j: int|
                0 <= j < peer ==> (#[trigger] identities@[j]).name@ == spec_name(j as u64),
        decreases quorum_size - peer,
    {
        let name = name_gen(peer);
        let private_key = PrivateKey::generate();
        let public_key = private_key.public_key();
        identities.push(Identity { name, private_key, public_key, index: peer });
        peer += 1;
    }
    identities
}

} // verus!
