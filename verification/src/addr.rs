//! Addresses and deterministic address derivation.
//!
//! An address is 32 bytes. The escrow record lives at a program-derived
//! address computed from a fixed domain tag and the owner's address; the
//! holding account lives at a program-derived address computed from the
//! escrow address, the token program and the mint.

use vstd::prelude::*;

verus! {

/// A 32-byte account address. Viewed as the sequence of its bytes.
#[derive(Clone, Copy, PartialEq, Eq, Debug)]
pub struct Address {
    pub bytes: [u8; 32],
}

impl View for Address {
    type V = Seq<u8>;

    open spec fn view(&self) -> Seq<u8> {
        self.bytes@
    }
}

impl Address {
    /// Byte-for-byte equality of two addresses.
    pub fn eq_addr(&self, other: &Address) -> (r: bool)
        ensures
            r <==> self@ == other@,
    {
        let mut i: usize = 0;
        while i < 32
            invariant
                i <= 32,
                forall|k: int| 0 <= k < i ==> self.bytes@[k] == other.bytes@[k],
            decreases 32 - i,
        {
            if self.bytes[i] != other.bytes[i] {
                return false;
            }
            i += 1;
        }
        proof {
            assert(self@ =~= other@);
        }
        true
    }

    /// The bytes of the address as a vector, for use as a derivation seed.
    pub fn to_seed(&self) -> (r: Vec<u8>)
        ensures
            r@ == self@,
    {
        let mut out: Vec<u8> = Vec::new();
        let mut i: usize = 0;
        while i < 32
            invariant
                i <= 32,
                out@ == self.bytes@.subrange(0, i as int),
            decreases 32 - i,
        {
            out.push(self.bytes[i]);
            proof {
                assert(out@ =~= self.bytes@.subrange(0, (i + 1) as int));
            }
            i += 1;
        }
        proof {
            assert(self.bytes@.subrange(0, 32) =~= self@);
        }
        out
    }
}

/// What the bounded program-address derivation returns for a seed list and a
/// deriving program: the derived address and its bump, or nothing where the
/// bounded search for a bump is exhausted. A pure function of its inputs.
pub uninterp spec fn pda_of(seeds: Seq<Seq<u8>>, program: Seq<u8>) -> Option<(Seq<u8>, u8)>;

/// The conventional associated-token-account address for a wallet and a
/// mint. A pure function of its inputs, distinct from `pda_of`: it is
/// derived under the associated-token program, not under `program`.
pub uninterp spec fn ata_of(wallet: Seq<u8>, mint: Seq<u8>) -> Seq<u8>;

/// Relies on Pubkey::try_find_program_address (solana-address, via
/// anchor_lang): the result is a function of the seed list and the program
/// id alone, None only when the bounded bump search finds nothing.
#[verifier::external_body]
fn find_pda(seeds: &Vec<Vec<u8>>, program: &Address) -> (r: Option<(Address, u8)>)
    ensures
        (match r {
            Some(p) => Some((p.0@, p.1)),
            None => None,
        }) == pda_of(seeds@.map_values(|s: Vec<u8>| s@), program@),
{
    let seed_slices: Vec<&[u8]> = seeds.iter().map(|s| s.as_slice()).collect();
    let pk = anchor_lang::prelude::Pubkey::new_from_array(program.bytes);
    anchor_lang::prelude::Pubkey::try_find_program_address(&seed_slices, &pk).map(
        |(a, b)| (Address { bytes: a.to_bytes() }, b),
    )
}

/// Relies on spl_associated_token_account::get_associated_token_address:
/// the canonical associated-token address is a function of the wallet and
/// the mint alone.
#[verifier::external_body]
#[allow(deprecated)]
fn ata_address(wallet: &Address, mint: &Address) -> (r: Address)
    ensures
        r@ == ata_of(wallet@, mint@),
{
    let w = anchor_lang::prelude::Pubkey::new_from_array(wallet.bytes);
    let m = anchor_lang::prelude::Pubkey::new_from_array(mint.bytes);
    let a = spl_associated_token_account::get_associated_token_address(&w, &m);
    Address { bytes: a.to_bytes() }
}

/// The fixed domain tag that distinguishes escrow records: the bytes of the
/// ASCII label "escrow".
pub open spec fn escrow_tag() -> Seq<u8> {
    seq![101u8, 115u8, 99u8, 114u8, 111u8, 119u8]
}

/// The seed list an escrow record's address is derived from: the domain tag,
/// then the owner.
pub open spec fn escrow_seeds(owner: Seq<u8>) -> Seq<Seq<u8>> {
    seq![escrow_tag(), owner]
}

/// The seed list a holding account's address is derived from: the escrow
/// address, the token program, the mint. No domain tag, preserved exactly
/// for compatibility.
pub open spec fn holding_seeds(escrow: Seq<u8>, token_program: Seq<u8>, mint: Seq<u8>) -> Seq<
    Seq<u8>,
> {
    seq![escrow, token_program, mint]
}

fn escrow_tag_bytes() -> (r: Vec<u8>)
    ensures
        r@ == escrow_tag(),
{
    // the ASCII bytes of "escrow"
    let mut v: Vec<u8> = Vec::new();
    v.push(101);
    v.push(115);
    v.push(99);
    v.push(114);
    v.push(111);
    v.push(119);
    proof {
        assert(v@ =~= escrow_tag());
    }
    v
}

/// Deterministic, collision-resistant address derivation for one deriving
/// program. Pure: repeated calls with identical inputs yield identical
/// results, since each result equals a function of the inputs alone.
pub struct AddressDeriver {
    pub program_id: Address,
}

impl AddressDeriver {
    /// The derived address and bump of the escrow record of `owner`:
    /// derive(tag = "escrow", keys = [owner]).
    pub fn derive_escrow_address(&self, owner: &Address) -> (r: Option<(Address, u8)>)
        ensures
            (match r {
                Some(p) => Some((p.0@, p.1)),
                None => None,
            }) == pda_of(escrow_seeds(owner@), self.program_id@),
    {
        let mut seeds: Vec<Vec<u8>> = Vec::new();
        seeds.push(escrow_tag_bytes());
        seeds.push(owner.to_seed());
        proof {
            assert(seeds@.map_values(|s: Vec<u8>| s@) =~= escrow_seeds(owner@));
        }
        find_pda(&seeds, &self.program_id)
    }

    /// The derived address and bump of the holding account of an escrow:
    /// derive(keys = [escrow_address, token_program, mint]).
    pub fn derive_holding_address(
        &self,
        escrow: &Address,
        token_program: &Address,
        mint: &Address,
    ) -> (r: Option<(Address, u8)>)
        ensures
            (match r {
                Some(p) => Some((p.0@, p.1)),
                None => None,
            }) == pda_of(holding_seeds(escrow@, token_program@, mint@), self.program_id@),
    {
        let mut seeds: Vec<Vec<u8>> = Vec::new();
        seeds.push(escrow.to_seed());
        seeds.push(token_program.to_seed());
        seeds.push(mint.to_seed());
        proof {
            assert(seeds@.map_values(|s: Vec<u8>| s@) =~= holding_seeds(
                escrow@,
                token_program@,
                mint@,
            ));
        }
        find_pda(&seeds, &self.program_id)
    }
}

/// The canonical associated-token-account address of `wallet` for `mint`.
///
/// This is a second, independent addressing scheme: it does not generally
/// agree with `AddressDeriver::derive_holding_address`, which derives from
/// different inputs under a different program. It is offered so a caller
/// can make the conventional secondary check against it.
pub fn canonical_holding_address(wallet: &Address, mint: &Address) -> (r: Address)
    ensures
        r@ == ata_of(wallet@, mint@),
{
    ata_address(wallet, mint)
}

} // verus!
