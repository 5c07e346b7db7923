//! Account identities and the cache keys derived from them.
use vstd::prelude::*;
use vstd::string::StringExecFns;

verus! {

/// A resolved account: its 128-bit unique id.
#[derive(Debug, Clone, Copy, PartialEq, Eq, Structural)]
pub struct Identity {
    pub id: u128,
}

/// What a request names: an account id, or a display name still to resolve.
#[derive(Debug, Clone)]
pub enum IdentityInput {
    ById(Identity),
    ByName(String),
}

/// The id that `uuid::Uuid::try_parse` reads from a string, if any.
pub uninterp spec fn uuid_parse_of(s: Seq<char>) -> Option<u128>;

/// Relies on `uuid::Uuid::try_parse` and `Uuid::as_u128`: the id written in
/// the string, in any of the forms that uuid accepts.
#[verifier::external_body]
fn parse_uuid(s: &str) -> (r: Option<u128>)
    ensures
        r == uuid_parse_of(s@),
{
    uuid::Uuid::try_parse(s).ok().map(|u| u.as_u128())
}

pub open spec fn hex_digit(n: int) -> char {
    seq!['0', '1', '2', '3', '4', '5', '6', '7', '8', '9', 'a', 'b', 'c', 'd', 'e', 'f'][n]
}

pub open spec fn pow16(n: nat) -> nat
    decreases n,
{
    if n == 0 {
        1
    } else {
        16 * pow16((n - 1) as nat)
    }
}

/// The last `n` hexadecimal digits of `v`, most significant first, in lower
/// case and padded with zeros.
pub open spec fn hex_digits(v: nat, n: nat) -> Seq<char>
    decreases n,
{
    if n == 0 {
        Seq::empty()
    } else {
        hex_digits(v / 16, (n - 1) as nat).push(hex_digit((v % 16) as int))
    }
}

/// Relies on `uuid::Uuid::from_u128` and its `simple` form: 32 lower-case
/// hexadecimal digits of the id, most significant first.
#[verifier::external_body]
fn simple_hex(id: u128) -> (r: String)
    ensures
        r@ == hex_digits(id as nat, 32),
{
    uuid::Uuid::from_u128(id).simple().to_string()
}

/// The character that marks whether the helmet overlay is part of the image.
pub open spec fn overlay_mark(overlay: bool) -> char {
    if overlay {
        '1'
    } else {
        '0'
    }
}

/// The cache key of an account and overlay flag: the id in hexadecimal,
/// then one mark for the flag.
pub open spec fn key_of(id: u128, overlay: bool) -> Seq<char> {
    hex_digits(id as nat, 32).push(overlay_mark(overlay))
}

impl IdentityInput {
    /// Tells an account id from a display name: what parses as an id is one.
    pub fn parse(s: &str) -> (r: IdentityInput)
        ensures
            match uuid_parse_of(s@) {
                Some(v) => r == IdentityInput::ById(Identity { id: v }),
                None => r matches IdentityInput::ByName(name) && name@ == s@,
            },
    {
        match parse_uuid(s) {
            Some(v) => IdentityInput::ById(Identity { id: v }),
            None => IdentityInput::ByName(String::from_str(s)),
        }
    }
}

/// The canonical cache key of a resolved account and an overlay flag. The
/// requested size plays no part: every size is scaled from one stored image.
pub fn create_id(identity: &Identity, overlay: bool) -> (r: String)
    ensures
        r@ == key_of(identity.id, overlay),
{
    let mut key = simple_hex(identity.id);
    if overlay {
        key.append("1");
        proof {
            reveal_strlit("1");
        }
    } else {
        key.append("0");
        proof {
            reveal_strlit("0");
        }
    }
    assert(key@ =~= key_of(identity.id, overlay));
    key
}

proof fn lemma_hex_digit_injective(a: int, b: int)
    requires
        0 <= a < 16,
        0 <= b < 16,
        hex_digit(a) == hex_digit(b),
    ensures
        a == b,
{
}

proof fn lemma_hex_digits_len(v: nat, n: nat)
    ensures
        hex_digits(v, n).len() == n,
    decreases n,
{
    if n > 0 {
        lemma_hex_digits_len(v / 16, (n - 1) as nat);
    }
}

proof fn lemma_hex_digits_injective(a: nat, b: nat, n: nat)
    requires
        a < pow16(n),
        b < pow16(n),
        hex_digits(a, n) == hex_digits(b, n),
    ensures
        a == b,
    decreases n,
{
    if n > 0 {
        let m = (n - 1) as nat;
        lemma_hex_digits_len(a / 16, m);
        lemma_hex_digits_len(b / 16, m);
        let ha = hex_digits(a / 16, m);
        let hb = hex_digits(b / 16, m);
        assert(hex_digits(a, n)[m as int] == hex_digit((a % 16) as int));
        assert(hex_digits(b, n)[m as int] == hex_digit((b % 16) as int));
        lemma_hex_digit_injective((a % 16) as int, (b % 16) as int);
        assert(ha =~= hex_digits(a, n).drop_last());
        assert(hb =~= hex_digits(b, n).drop_last());
        assert(a / 16 < pow16(m)) by (nonlinear_arith)
            requires
                a < pow16(n),
                pow16(n) == 16 * pow16(m),
        ;
        assert(b / 16 < pow16(m)) by (nonlinear_arith)
            requires
                b < pow16(n),
                pow16(n) == 16 * pow16(m),
        ;
        lemma_hex_digits_injective(a / 16, b / 16, m);
    }
}

proof fn lemma_u128_fits(v: u128)
    ensures
        (v as nat) < pow16(32),
{
    reveal_with_fuel(pow16, 33);
    assert(pow16(32) == 0x1_0000_0000_0000_0000_0000_0000_0000_0000nat);
}

/// Cache keys are deterministic and separate: the two overlay flags give two
/// keys for every account, and two accounts never share a key.
pub proof fn lemma_key_separation(a: Identity, b: Identity, fa: bool, fb: bool)
    ensures
        key_of(a.id, false) != key_of(a.id, true),
        (key_of(a.id, fa) == key_of(b.id, fb)) <==> (a == b && fa == fb),
{
    lemma_hex_digits_len(a.id as nat, 32);
    lemma_hex_digits_len(b.id as nat, 32);
    assert(key_of(a.id, false)[32] != key_of(a.id, true)[32]);
    if key_of(a.id, fa) == key_of(b.id, fb) {
        assert(key_of(a.id, fa)[32] == key_of(b.id, fb)[32]);
        assert(hex_digits(a.id as nat, 32) =~= key_of(a.id, fa).drop_last());
        assert(hex_digits(b.id as nat, 32) =~= key_of(b.id, fb).drop_last());
        lemma_u128_fits(a.id);
        lemma_u128_fits(b.id);
        lemma_hex_digits_injective(a.id as nat, b.id as nat, 32);
    }
}

} // verus!
