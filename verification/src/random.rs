//! Where the gateway's randomness comes from.
use vstd::prelude::*;

use crate::numbers;
use crate::numbers::{hex_text, push_hex_fixed};

verus! {

/// `rand::rngs::OsRng`, `fill_bytes`: thirty-two bytes from the operating
/// system. Nothing is known of their values.
#[verifier::external_body]
fn random_bytes() -> (result: [u8; 32]) {
    let mut random = [0_u8; 32];
    rand::RngCore::fill_bytes(&mut rand::rngs::OsRng, &mut random);
    random
}

/// `rand::random::<u128>`: a number from the thread's generator. Nothing is
/// known of its value.
#[verifier::external_body]
fn random_number() -> (result: u128) {
    rand::random::<u128>()
}

/// `token` is what some thirty-two bytes look like in hexadecimal.
pub open spec fn token_of_bytes(token: Seq<char>) -> bool {
    exists|bytes: Seq<u8>| bytes.len() == 32 && #[trigger] numbers::hex_bytes(bytes) == token
}

/// `id` is what some 128-bit number looks like in hexadecimal, with leading
/// zeros.
pub open spec fn id_of_number(id: Seq<char>) -> bool {
    exists|n: u128| #[trigger] numbers::hex_fixed(n as nat, 32) == id
}

/// The token of thirty-two given bytes.
pub fn token_from(bytes: &[u8; 32]) -> (result: String)
    ensures
        result@ == numbers::hex_bytes(bytes@),
        token_of_bytes(result@),
{
    let result = hex_text(bytes);
    assert(bytes@.len() == 32);
    result
}

/// A new session token.
pub fn random_token() -> (result: String)
    ensures
        token_of_bytes(result@),
{
    token_from(&random_bytes())
}

/// The identifier of a given number.
pub fn id_from(n: u128) -> (result: String)
    ensures
        result@ == numbers::hex_fixed(n as nat, 32),
        id_of_number(result@),
{
    let mut out = String::new();
    push_hex_fixed(&mut out, n, 32);
    assert(out@ =~= numbers::hex_fixed(n as nat, 32));
    out
}

/// A new identifier by which a report and a log entry find each other.
pub fn random_id() -> (result: String)
    ensures
        id_of_number(result@),
{
    id_from(random_number())
}

/// Tokens have sixty-four hexadecimal digits.
pub proof fn lemma_token_form(token: Seq<char>)
    requires
        token_of_bytes(token),
    ensures
        token.len() == 64,
        forall|i: int| 0 <= i < token.len() ==> numbers::hex_digit(#[trigger] token[i]),
{
    let bytes = choose|bytes: Seq<u8>|
        bytes.len() == 32 && #[trigger] numbers::hex_bytes(bytes) == token;
    numbers::lemma_hex_bytes(bytes);
}

/// Identifiers have thirty-two hexadecimal digits.
pub proof fn law_identifiers_have_their_form(id: Seq<char>)
    requires
        id_of_number(id),
    ensures
        id.len() == 32,
        forall|i: int| 0 <= i < id.len() ==> numbers::hex_digit(#[trigger] id[i]),
{
    let n = choose|n: u128| #[trigger] numbers::hex_fixed(n as nat, 32) == id;
    numbers::lemma_hex_fixed(n as nat, 32);
}

/// The numbers that fit into so many hexadecimal digits are those below this.
spec fn fits(width: nat) -> nat
    decreases width,
{
    if width == 0 {
        1
    } else {
        16 * fits((width - 1) as nat)
    }
}

proof fn lemma_fixed_is_injective(m: nat, n: nat, width: nat)
    requires
        numbers::hex_fixed(m, width) == numbers::hex_fixed(n, width),
        m < fits(width),
        n < fits(width),
    ensures
        m == n,
    decreases width,
{
    if width > 0 {
        let x = numbers::hex_fixed(m, width);
        let y = numbers::hex_fixed(n, width);
        assert(x.drop_last() =~= numbers::hex_fixed(m / 16, (width - 1) as nat));
        assert(y.drop_last() =~= numbers::hex_fixed(n / 16, (width - 1) as nat));
        assert(x.last() == numbers::digit(m % 16));
        assert(y.last() == numbers::digit(n % 16));
        lemma_fixed_is_injective(m / 16, n / 16, (width - 1) as nat);
        assert(m % 16 == n % 16);
    }
}

/// Different bytes have different tokens.
pub proof fn law_tokens_tell_their_bytes(a: Seq<u8>, b: Seq<u8>)
    requires
        a.len() == b.len(),
        numbers::hex_bytes(a) == numbers::hex_bytes(b),
    ensures
        a == b,
    decreases a.len(),
{
    if a.len() > 0 {
        let p = a.last() as nat;
        let q = b.last() as nat;
        numbers::lemma_hex_fixed(p, 2);
        numbers::lemma_hex_fixed(q, 2);
        let x = numbers::hex_bytes(a);
        assert(numbers::hex_fixed(p, 2) =~= x.skip(x.len() - 2));
        assert(numbers::hex_fixed(q, 2) =~= x.skip(x.len() - 2));
        assert(numbers::hex_bytes(a.drop_last()) =~= x.take(x.len() - 2));
        assert(numbers::hex_bytes(b.drop_last()) =~= x.take(x.len() - 2));
        reveal_with_fuel(fits, 3);
        lemma_fixed_is_injective(p, q, 2);
        law_tokens_tell_their_bytes(a.drop_last(), b.drop_last());
        assert(a =~= a.drop_last().push(a.last()));
        assert(b =~= b.drop_last().push(b.last()));
    } else {
        assert(a =~= b);
    }
}

/// Different numbers have different identifiers.
pub proof fn law_identifiers_tell_their_number(m: u128, n: u128)
    requires
        numbers::hex_fixed(m as nat, 32) == numbers::hex_fixed(n as nat, 32),
    ensures
        m == n,
{
    reveal_with_fuel(fits, 33);
    assert(fits(32) == 0x1_0000_0000_0000_0000_0000_0000_0000_0000nat);
    lemma_fixed_is_injective(m as nat, n as nat, 32);
}

} // verus!
