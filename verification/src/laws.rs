//! The laws of the escrow core, proved over the spec transitions that the
//! executable operations are proved to implement.

use vstd::prelude::*;

use crate::addr::{escrow_seeds, holding_seeds, pda_of};
use crate::error::EscrowError;
use crate::ledger::{balance_of, rec_amount, rec_mint, tok_owner, AccountV};
use crate::ops::{create_ata_spec, init_escrow_spec, transfer_token_spec};

verus! {

/// Law: address derivation is pure. What a derivation returns is determined
/// by the seed list and the deriving program alone, so repeated derivations
/// with identical inputs yield identical (address, bump) results.
pub proof fn lemma_derivation_deterministic(
    r1: Option<(Seq<u8>, u8)>,
    r2: Option<(Seq<u8>, u8)>,
    seeds: Seq<Seq<u8>>,
    program: Seq<u8>,
)
    requires
        r1 == pda_of(seeds, program),
        r2 == pda_of(seeds, program),
    ensures
        r1 == r2,
{
}

/// Law: for any owner, initializing the escrow twice succeeds at most once.
/// After a successful `init_escrow`, repeating it with the same owner and
/// target address fails with `AlreadyExists` and leaves the ledger
/// unchanged, whatever amount and mint the repeat carries.
pub proof fn lemma_init_conflict(
    m: Map<Seq<u8>, AccountV>,
    program: Seq<u8>,
    escrow: Seq<u8>,
    signer: Seq<u8>,
    amount1: u64,
    mint1: Seq<u8>,
    amount2: u64,
    mint2: Seq<u8>,
)
    requires
        init_escrow_spec(m, program, escrow, signer, amount1, mint1).1 is Ok,
    ensures
        ({
            let m1 = init_escrow_spec(m, program, escrow, signer, amount1, mint1).0;
            init_escrow_spec(m1, program, escrow, signer, amount2, mint2) == (m1, Err::<
                (),
                EscrowError,
            >(EscrowError::AlreadyExists))
        }),
{
}

/// Law: `create_ata` is idempotent. After a successful call, repeating it
/// with the same inputs is a no-op that succeeds again: N calls make exactly
/// one account and N-1 no-ops, never an error on repeats.
pub proof fn lemma_ensure_idempotent(
    m: Map<Seq<u8>, AccountV>,
    program: Seq<u8>,
    escrow: Seq<u8>,
    escrow_ata: Seq<u8>,
    signer: Seq<u8>,
    token_program: Seq<u8>,
)
    requires
        create_ata_spec(m, program, escrow, escrow_ata, signer, token_program).1 is Ok,
    ensures
        ({
            let m1 = create_ata_spec(m, program, escrow, escrow_ata, signer, token_program).0;
            create_ata_spec(m1, program, escrow, escrow_ata, signer, token_program) == (m1, Ok::<
                (),
                EscrowError,
            >(()))
        }),
{
}

/// Law: `create_ata` fails with `AddressMismatch` on any expected holding
/// address other than the derived one — even where an account happens to
/// live at the supplied address — and changes nothing.
pub proof fn lemma_ensure_mismatch(
    m: Map<Seq<u8>, AccountV>,
    program: Seq<u8>,
    escrow: Seq<u8>,
    escrow_ata: Seq<u8>,
    signer: Seq<u8>,
    token_program: Seq<u8>,
)
    requires
        pda_of(escrow_seeds(signer), program) matches Some(p) && escrow == p.0,
        m.contains_key(escrow) && m[escrow] is Rec,
        pda_of(holding_seeds(escrow, token_program, rec_mint(m[escrow])), program) matches Some(q)
            && escrow_ata != q.0,
    ensures
        create_ata_spec(m, program, escrow, escrow_ata, signer, token_program) == (m, Err::<
            (),
            EscrowError,
        >(EscrowError::AddressMismatch)),
{
}

/// Law: a successful transfer between distinct accounts moves exactly the
/// escrow's recorded amount — not more, not less: the source balance
/// decreases by it and the destination balance increases by it.
pub proof fn lemma_transfer_moves_amount(
    m: Map<Seq<u8>, AccountV>,
    program: Seq<u8>,
    escrow: Seq<u8>,
    to_ata: Seq<u8>,
    from_ata: Seq<u8>,
    from: Seq<u8>,
    token_program: Seq<u8>,
)
    requires
        transfer_token_spec(m, program, escrow, to_ata, from_ata, from, token_program).1 is Ok,
        from_ata != to_ata,
    ensures
        ({
            let m2 = transfer_token_spec(m, program, escrow, to_ata, from_ata, from,
                token_program).0;
            let amount = rec_amount(m[escrow]);
            &&& balance_of(m2, from_ata) == balance_of(m, from_ata) - amount
            &&& balance_of(m2, to_ata) == balance_of(m, to_ata) + amount
        }),
{
}

/// Law: a transfer whose claimed authority is not the owner of the source
/// account fails and leaves the ledger — in particular every balance —
/// unchanged.
pub proof fn lemma_transfer_wrong_authority(
    m: Map<Seq<u8>, AccountV>,
    program: Seq<u8>,
    escrow: Seq<u8>,
    to_ata: Seq<u8>,
    from_ata: Seq<u8>,
    from: Seq<u8>,
    token_program: Seq<u8>,
)
    requires
        m.contains_key(from_ata),
        m[from_ata] is Tok,
        tok_owner(m[from_ata]) != from,
    ensures
        transfer_token_spec(m, program, escrow, to_ata, from_ata, from, token_program).0 == m,
        transfer_token_spec(m, program, escrow, to_ata, from_ata, from, token_program).1 is Err,
{
}

/// Law: `init_escrow` never touches an existing account: it only ever
/// creates the record at a fresh address, so every account already on the
/// ledger — in particular every escrow record — is left exactly as it was.
pub proof fn lemma_init_touches_only_new(
    m: Map<Seq<u8>, AccountV>,
    program: Seq<u8>,
    escrow: Seq<u8>,
    signer: Seq<u8>,
    amount: u64,
    mint: Seq<u8>,
)
    ensures
        ({
            let m1 = init_escrow_spec(m, program, escrow, signer, amount, mint).0;
            forall|a: Seq<u8>| #[trigger]
                m.contains_key(a) ==> m1.contains_key(a) && m1[a] == m[a]
        }),
{
}

/// Law: `create_ata` never touches an existing account: it only ever
/// creates the holding account at a fresh address.
pub proof fn lemma_ensure_touches_only_new(
    m: Map<Seq<u8>, AccountV>,
    program: Seq<u8>,
    escrow: Seq<u8>,
    escrow_ata: Seq<u8>,
    signer: Seq<u8>,
    token_program: Seq<u8>,
)
    ensures
        ({
            let m1 = create_ata_spec(m, program, escrow, escrow_ata, signer, token_program).0;
            forall|a: Seq<u8>| #[trigger]
                m.contains_key(a) ==> m1.contains_key(a) && m1[a] == m[a]
        }),
{
}

/// Law: escrow records are immutable. `transfer_token` mutates only
/// token-account balances: every account holding an escrow record before
/// the operation holds the identical record afterwards.
pub proof fn lemma_transfer_preserves_records(
    m: Map<Seq<u8>, AccountV>,
    program: Seq<u8>,
    escrow: Seq<u8>,
    to_ata: Seq<u8>,
    from_ata: Seq<u8>,
    from: Seq<u8>,
    token_program: Seq<u8>,
)
    ensures
        ({
            let m2 = transfer_token_spec(m, program, escrow, to_ata, from_ata, from,
                token_program).0;
            forall|a: Seq<u8>|
                #[trigger] m.contains_key(a) && m[a] is Rec ==> m2.contains_key(a) && m2[a] == m[a]
        }),
{
}

} // verus!
