//! Addresses and their deterministic derivation from seeds.
use anchor_lang::prelude::Pubkey;
use vstd::prelude::*;
use vstd::std_specs::cmp::PartialEqSpecImpl;

verus! {

/// A 32-byte account address. Its view is the sequence of its bytes.
#[derive(Clone, Copy, Debug)]
pub struct Address {
    pub bytes: [u8; 32],
}

impl View for Address {
    type V = Seq<u8>;

    open spec fn view(&self) -> Seq<u8> {
        self.bytes@
    }
}

/// The bytes of the all-zero address, which marks a ledger slot as vacant.
pub open spec fn zero_bytes() -> Seq<u8> {
    Seq::new(32, |i: int| 0u8)
}

/// The all-zero address.
pub open spec fn zero_address() -> Address {
    Address { bytes: vstd::array::spec_array_fill_for_copy_type::<u8, 32>(0u8) }
}

impl PartialEq for Address {
    fn eq(&self, other: &Address) -> (r: bool) {
        let mut i: usize = 0;
        while i < 32
            invariant
                0 <= i <= 32,
                forall|j: int| 0 <= j < i ==> self.bytes@[j] == other.bytes@[j],
            decreases 32 - i,
        {
            if self.bytes[i] != other.bytes[i] {
                return false;
            }
            i += 1;
        }
        proof {
            assert(self.bytes@ =~= other.bytes@);
        }
        true
    }
}

impl PartialEqSpecImpl for Address {
    open spec fn obeys_eq_spec() -> bool {
        true
    }

    open spec fn eq_spec(&self, other: &Address) -> bool {
        self@ == other@
    }
}

impl Eq for Address {

}

impl Default for Address {
    fn default() -> (r: Address)
        ensures
            r == zero_address(),
            r@ == zero_bytes(),
    {
        let r = Address { bytes: [0u8; 32] };
        proof {
            assert(r@ =~= zero_bytes());
        }
        r
    }
}

impl Address {
    /// The all-zero address has the all-zero bytes.
    pub proof fn lemma_zero_address()
        ensures
            zero_address()@ == zero_bytes(),
    {
        assert(zero_address()@ =~= zero_bytes());
    }

    /// Two addresses with the same bytes are the same address.
    pub proof fn lemma_view_injective(a: Address, b: Address)
        ensures
            a@ == b@ <==> a == b,
    {
        if a@ == b@ {
            assert(a.bytes =~= b.bytes);
        }
    }

    /// The address with the given bytes.
    pub fn new(bytes: [u8; 32]) -> (r: Address)
        ensures
            r@ == bytes@,
    {
        Address { bytes }
    }

    /// The bytes of the address.
    pub fn to_bytes(&self) -> (r: [u8; 32])
        ensures
            r@ == self@,
    {
        self.bytes
    }

    /// Whether this is the all-zero address.
    pub fn is_default(&self) -> (r: bool)
        ensures
            r == (self@ == zero_bytes()),
    {
        let zero = Address::default();
        *self == zero
    }

    /// The bytes of the address as a vector, for use as a seed.
    pub fn to_vec(&self) -> (v: Vec<u8>)
        ensures
            v@ == self@,
    {
        let mut v: Vec<u8> = Vec::new();
        let mut i: usize = 0;
        while i < 32
            invariant
                0 <= i <= 32,
                v@.len() == i,
                forall|j: int| 0 <= j < i ==> v@[j] == self.bytes@[j],
            decreases 32 - i,
        {
            v.push(self.bytes[i]);
            i += 1;
        }
        proof {
            assert(v@ =~= self@);
        }
        v
    }
}

/// The program address and bump seed that belong to a list of seeds under a
/// program, or `None` where the seeds admit no such address.
pub uninterp spec fn program_address(seeds: Seq<Seq<u8>>, program_id: Seq<u8>) -> Option<
    (Seq<u8>, u8),
>;

/// The view of a derivation's outcome.
pub open spec fn found_view(found: Option<(Address, u8)>) -> Option<(Seq<u8>, u8)> {
    match found {
        Some(pair) => Some((pair.0@, pair.1)),
        None => None,
    }
}

/// The address alone of a derivation's outcome.
pub open spec fn address_part(found: Option<(Seq<u8>, u8)>) -> Option<Seq<u8>> {
    match found {
        Some(pair) => Some(pair.0),
        None => None,
    }
}

/// Calls `Pubkey::try_find_program_address`. The outcome is determined by the
/// seeds and the program id alone; it is named `program_address` and not
/// described further here.
#[verifier::external_body]
fn try_find_program_address(seeds: &Vec<Vec<u8>>, program_id: &Address) -> (r: Option<
    (Address, u8),
>)
    ensures
        found_view(r) == program_address(seeds.deep_view(), program_id@),
{
    let parts: Vec<&[u8]> = seeds.iter().map(|seed| seed.as_slice()).collect();
    let id = Pubkey::new_from_array(program_id.bytes);
    match Pubkey::try_find_program_address(&parts, &id) {
        Some((key, bump)) => Some((Address { bytes: key.to_bytes() }, bump)),
        None => None,
    }
}

/// The tag `vault`, as bytes.
pub open spec fn vault_tag() -> Seq<u8> {
    seq![118u8, 97u8, 117u8, 108u8, 116u8]
}

/// The tag `staker`, as bytes.
pub open spec fn staker_tag() -> Seq<u8> {
    seq![115u8, 116u8, 97u8, 107u8, 101u8, 114u8]
}

/// Seeds of the custody authority of a mint.
pub open spec fn vault_seeds(mint: Seq<u8>) -> Seq<Seq<u8>> {
    seq![vault_tag(), mint]
}

/// Seeds of the ledger entry of a user for a mint.
pub open spec fn staker_seeds(user: Seq<u8>, mint: Seq<u8>) -> Seq<Seq<u8>> {
    seq![staker_tag(), user, mint]
}

/// Seeds of the token account that a wallet holds for a mint under a token program.
pub open spec fn token_account_seeds(wallet: Seq<u8>, token_program: Seq<u8>, mint: Seq<u8>) -> Seq<
    Seq<u8>,
> {
    seq![wallet, token_program, mint]
}

/// The custody authority of `mint` under `program_id`.
pub open spec fn vault_authority_of(program_id: Seq<u8>, mint: Seq<u8>) -> Option<Seq<u8>> {
    address_part(program_address(vault_seeds(mint), program_id))
}

/// The address of the ledger entry of `user` for `mint` under `program_id`.
pub open spec fn staker_address_of(program_id: Seq<u8>, user: Seq<u8>, mint: Seq<u8>) -> Option<
    Seq<u8>,
> {
    address_part(program_address(staker_seeds(user, mint), program_id))
}

/// The address of the token account of `wallet` for `mint`.
pub open spec fn associated_token_address_of(
    wallet: Seq<u8>,
    mint: Seq<u8>,
    token_program: Seq<u8>,
    associated_token_program: Seq<u8>,
) -> Option<Seq<u8>> {
    address_part(
        program_address(token_account_seeds(wallet, token_program, mint), associated_token_program),
    )
}

/// Derives the custody authority of `mint`: the program address of the seeds
/// `vault`, `mint`.
pub fn vault_authority_address(program_id: &Address, mint: &Address) -> (r: Option<(Address, u8)>)
    ensures
        found_view(r) == program_address(vault_seeds(mint@), program_id@),
{
    let mut seeds: Vec<Vec<u8>> = Vec::new();
    seeds.push(vec![118u8, 97u8, 117u8, 108u8, 116u8]);
    seeds.push(mint.to_vec());
    proof {
        assert(seeds.deep_view() =~~= vault_seeds(mint@));
    }
    try_find_program_address(&seeds, program_id)
}

/// Derives the address of the ledger entry of `user` for `mint`: the program
/// address of the seeds `staker`, `user`, `mint`.
pub fn staker_address(program_id: &Address, user: &Address, mint: &Address) -> (r: Option<
    (Address, u8),
>)
    ensures
        found_view(r) == program_address(staker_seeds(user@, mint@), program_id@),
{
    let mut seeds: Vec<Vec<u8>> = Vec::new();
    seeds.push(vec![115u8, 116u8, 97u8, 107u8, 101u8, 114u8]);
    seeds.push(user.to_vec());
    seeds.push(mint.to_vec());
    proof {
        assert(seeds.deep_view() =~~= staker_seeds(user@, mint@));
    }
    try_find_program_address(&seeds, program_id)
}

/// Derives the address of the token account that `wallet` holds for `mint`:
/// the program address of the seeds `wallet`, `token_program`, `mint` under
/// the associated token program.
pub fn associated_token_address(
    wallet: &Address,
    mint: &Address,
    token_program: &Address,
    associated_token_program: &Address,
) -> (r: Option<Address>)
    ensures
        match r {
            Some(a) => Some(a@),
            None => None,
        } == associated_token_address_of(
            wallet@,
            mint@,
            token_program@,
            associated_token_program@,
        ),
{
    let mut seeds: Vec<Vec<u8>> = Vec::new();
    seeds.push(wallet.to_vec());
    seeds.push(token_program.to_vec());
    seeds.push(mint.to_vec());
    proof {
        assert(seeds.deep_view() =~~= token_account_seeds(wallet@, token_program@, mint@));
    }
    match try_find_program_address(&seeds, associated_token_program) {
        Some(found) => Some(found.0),
        None => None,
    }
}

} // verus!
