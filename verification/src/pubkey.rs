//! Thirty-two byte account addresses.

use vstd::prelude::*;

verus! {

/// An account address: an opaque string of thirty-two bytes.
#[derive(Clone, Copy, Debug, PartialEq, Eq, Hash)]
pub struct Pubkey {
    pub bytes: [u8; 32],
}

impl View for Pubkey {
    type V = Seq<u8>;

    open spec fn view(&self) -> Seq<u8> {
        self.bytes@
    }
}

/// What the base58 alphabet makes of thirty-two bytes, as ASCII text.
pub uninterp spec fn base58_text(bytes: Seq<u8>) -> Seq<u8>;

/// The address that the seeds and the program derive, and the bump seed that
/// was found for it; none where no bump seed gives an address.
pub uninterp spec fn program_address(seeds: Seq<Seq<u8>>, program_id: Seq<u8>) -> Option<
    (Seq<u8>, u8),
>;

/// The first seed of every address that the program derives.
pub open spec fn perpetual_seed() -> Seq<u8> {
    seq![112u8, 101, 114, 112, 101, 116, 117, 97, 108]
}

/// The seed `perpetual`.
pub fn perpetual_seed_bytes() -> (seed: Vec<u8>)
    ensures
        seed@ == perpetual_seed(),
{
    let mut seed: Vec<u8> = Vec::new();
    seed.push(112);
    seed.push(101);
    seed.push(114);
    seed.push(112);
    seed.push(101);
    seed.push(116);
    seed.push(117);
    seed.push(97);
    seed.push(108);
    assert(seed@ =~= perpetual_seed());
    seed
}

/// The seeds of `list`, each as its bytes.
pub open spec fn seeds_of(list: Seq<Vec<u8>>) -> Seq<Seq<u8>> {
    Seq::new(list.len(), |i: int| list[i]@)
}

impl Pubkey {
    /// The address made of the given bytes.
    pub fn new_from_array(bytes: [u8; 32]) -> (key: Pubkey)
        ensures
            key@ == bytes@,
    {
        Pubkey { bytes }
    }

    /// The address in the thirty-two bytes of `src` that start at `at`.
    pub fn from_slice(src: &[u8], at: usize) -> (key: Pubkey)
        requires
            at + 32 <= src@.len(),
        ensures
            key@ == src@.subrange(at as int, at + 32),
    {
        let mut bytes: [u8; 32] = [0u8; 32];
        let mut i: usize = 0;
        while i < 32
            invariant
                i <= 32,
                at + 32 <= src.len(),
                forall|j: int| 0 <= j < i ==> bytes@[j] == src@[at + j],
            decreases 32 - i,
        {
            bytes[i] = src[at + i];
            i = i + 1;
        }
        assert(bytes@ =~= src@.subrange(at as int, at + 32));
        Pubkey { bytes }
    }

    /// The bytes of the address.
    pub fn to_bytes(&self) -> (bytes: [u8; 32])
        ensures
            bytes@ == self@,
    {
        self.bytes
    }

    /// Whether two addresses hold the same bytes.
    pub fn equals(&self, other: &Pubkey) -> (same: bool)
        ensures
            same == (self@ == other@),
    {
        let mut i: usize = 0;
        while i < 32
            invariant
                i <= 32,
                forall|j: int| 0 <= j < i ==> self.bytes@[j] == other.bytes@[j],
            decreases 32 - i,
        {
            if self.bytes[i] != other.bytes[i] {
                return false;
            }
            i = i + 1;
        }
        assert(self@ =~= other@);
        true
    }

    /// The textual form of the address: `Display` of
    /// `solana_program::pubkey::Pubkey`, which writes the base58 encoding of
    /// the thirty-two bytes. The contract names that text and claims nothing
    /// else of it.
    #[verifier::external_body]
    pub(crate) fn text(&self) -> (text: Vec<u8>)
        ensures
            text@ == base58_text(self@),
    {
        solana_program::pubkey::Pubkey::new_from_array(self.bytes).to_string().into_bytes()
    }

    /// The address and bump seed that
    /// `solana_program::pubkey::Pubkey::try_find_program_address` finds for
    /// the seeds and the program, and none where it finds none. The contract
    /// names the outcome and claims nothing else of it.
    #[verifier::external_body]
    pub(crate) fn try_find_program_address(seeds: &Vec<Vec<u8>>, program_id: &Pubkey) -> (found:
        Option<(Pubkey, u8)>)
        ensures
            match found {
                Some((key, bump)) => program_address(seeds_of(seeds@), program_id@) == Some(
                    (key@, bump),
                ),
                None => program_address(seeds_of(seeds@), program_id@) is None,
            },
    {
        let slices: Vec<&[u8]> = seeds.iter().map(|seed| seed.as_slice()).collect();
        let program = solana_program::pubkey::Pubkey::new_from_array(program_id.bytes);
        solana_program::pubkey::Pubkey::try_find_program_address(&slices, &program).map(
            |(key, bump)| (Pubkey { bytes: key.to_bytes() }, bump),
        )
    }
}

} // verus!
