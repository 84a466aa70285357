//! The escrow operations: record creation, idempotent holding-account
//! provisioning, and authorized transfer of the recorded amount.
//!
//! Each operation takes the host ledger and the address deriver as explicit
//! collaborators, re-derives every address it relies on, and never trusts a
//! caller-supplied one. Each is one indivisible unit of work: on any failure
//! the ledger is left exactly as it was. The `signer` / `from` fields of the
//! account contexts stand for parties whose signatures the host has already
//! verified for the request.
//!
//! The meaning of each operation is one spec transition function from the
//! abstract ledger to the new abstract ledger and the outcome; the
//! executable operation is proved to return exactly that.

use vstd::prelude::*;

use crate::addr::{
    ata_of, escrow_seeds, holding_seeds, pda_of, Address, AddressDeriver,
    canonical_holding_address,
};
use crate::error::EscrowError;
use crate::ledger::{
    rec_amount, rec_mint, token_transfer_map, token_transfer_ok, AccountData, AccountV, Escrow,
    Ledger, TokenAccount,
};

verus! {

/// The fixed storage size the host is asked for when it allocates an escrow
/// record: an 8-byte host alignment header, the 8-byte amount, the 32-byte
/// mint identity and the 32-byte owner identity. Never resized.
pub const ESCROW_RECORD_SPACE: u64 = 8 + 8 + 32 + 32;

/// Accounts presented to `init_escrow`: the target record address and the
/// verified signing party that owns and pays for the record.
pub struct InitEscrow {
    pub escrow: Address,
    pub signer: Address,
}

/// Accounts presented to `create_ata`: the escrow record address, the
/// expected holding-account address, the verified signing party that pays
/// for the creation, and the token program the holding account belongs to.
pub struct CreateATA {
    pub escrow: Address,
    pub escrow_ata: Address,
    pub signer: Address,
    pub token_program: Address,
}

/// Accounts presented to `transfer_token`: the escrow record address, the
/// destination holding-account address, the source token account, the
/// verified signer authorizing the source, and the token program.
pub struct TransferToken {
    pub escrow: Address,
    pub to_ata: Address,
    pub from_ata: Address,
    pub from: Address,
    pub token_program: Address,
}

/// What `init_escrow` does to the abstract ledger `m`, and its outcome.
///
/// The record of `signer` must be created exactly at its derived address;
/// creating it twice fails with `AlreadyExists`, since the derived address
/// already holds an account.
pub open spec fn init_escrow_spec(
    m: Map<Seq<u8>, AccountV>,
    program: Seq<u8>,
    escrow: Seq<u8>,
    signer: Seq<u8>,
    amount: u64,
    mint: Seq<u8>,
) -> (Map<Seq<u8>, AccountV>, Result<(), EscrowError>) {
    match pda_of(escrow_seeds(signer), program) {
        None => (m, Err(EscrowError::DerivationExhausted)),
        Some(p) => {
            let derived = p.0;
            if escrow != derived {
                (m, Err(EscrowError::AddressMismatch))
            } else if m.contains_key(derived) {
                (m, Err(EscrowError::AlreadyExists))
            } else {
                (m.insert(derived, AccountV::Rec { amount: amount, mint: mint, owner: signer }), Ok(
                    (),
                ))
            }
        },
    }
}

/// Creates the escrow record of `ctx.signer`: an account at the derived
/// escrow address holding exactly `{amount, mint_address, ctx.signer}`, all
/// written once and never mutated afterwards.
pub fn init_escrow(
    ledger: &mut Ledger,
    deriver: &AddressDeriver,
    ctx: &InitEscrow,
    amount: u64,
    mint_address: Address,
) -> (r: Result<(), EscrowError>)
    requires
        old(ledger).wf(),
    ensures
        final(ledger).wf(),
        final(ledger)@ == init_escrow_spec(
            old(ledger)@,
            deriver.program_id@,
            ctx.escrow@,
            ctx.signer@,
            amount,
            mint_address@,
        ).0,
        r == init_escrow_spec(
            old(ledger)@,
            deriver.program_id@,
            ctx.escrow@,
            ctx.signer@,
            amount,
            mint_address@,
        ).1,
{
    let derived = match deriver.derive_escrow_address(&ctx.signer) {
        Some(p) => p.0,
        None => {
            return Err(EscrowError::DerivationExhausted);
        },
    };
    if !ctx.escrow.eq_addr(&derived) {
        return Err(EscrowError::AddressMismatch);
    }
    if ledger.contains_account(&derived) {
        return Err(EscrowError::AlreadyExists);
    }
    ledger.create_if_absent(
        &derived,
        AccountData::Rec(
            Escrow { amount: amount, mint_address: mint_address, escrow_owner: ctx.signer },
        ),
    );
    Ok(())
}

/// What `create_ata` does to the abstract ledger `m`, and its outcome.
///
/// The expected holding address must equal the address independently derived
/// from (escrow address, token program, mint): this is the anti-spoofing
/// check, and it fails with `AddressMismatch` whether or not an account
/// lives at the supplied address. The operation is idempotent: where the
/// holding account already exists it is a no-op.
pub open spec fn create_ata_spec(
    m: Map<Seq<u8>, AccountV>,
    program: Seq<u8>,
    escrow: Seq<u8>,
    escrow_ata: Seq<u8>,
    signer: Seq<u8>,
    token_program: Seq<u8>,
) -> (Map<Seq<u8>, AccountV>, Result<(), EscrowError>) {
    match pda_of(escrow_seeds(signer), program) {
        None => (m, Err(EscrowError::DerivationExhausted)),
        Some(p) => {
            let rec_addr = p.0;
            if escrow != rec_addr {
                (m, Err(EscrowError::AddressMismatch))
            } else if !(m.contains_key(rec_addr) && m[rec_addr] is Rec) {
                (m, Err(EscrowError::NotFound))
            } else {
                let mint = rec_mint(m[rec_addr]);
                match pda_of(holding_seeds(rec_addr, token_program, mint), program) {
                    None => (m, Err(EscrowError::DerivationExhausted)),
                    Some(q) => {
                        let derived = q.0;
                        if escrow_ata != derived {
                            (m, Err(EscrowError::AddressMismatch))
                        } else if m.contains_key(derived) {
                            (m, Ok(()))
                        } else {
                            (m.insert(
                                derived,
                                AccountV::Tok { mint: mint, owner: rec_addr, balance: 0 },
                            ), Ok(()))
                        }
                    },
                }
            }
        },
    }
}

/// Ensures the holding account of the escrow of `ctx.signer` exists at the
/// derived holding address: creates it once, with zero balance, owned by the
/// escrow record; on repeats it is a no-op.
pub fn create_ata(ledger: &mut Ledger, deriver: &AddressDeriver, ctx: &CreateATA) -> (r: Result<
    (),
    EscrowError,
>)
    requires
        old(ledger).wf(),
    ensures
        final(ledger).wf(),
        final(ledger)@ == create_ata_spec(
            old(ledger)@,
            deriver.program_id@,
            ctx.escrow@,
            ctx.escrow_ata@,
            ctx.signer@,
            ctx.token_program@,
        ).0,
        r == create_ata_spec(
            old(ledger)@,
            deriver.program_id@,
            ctx.escrow@,
            ctx.escrow_ata@,
            ctx.signer@,
            ctx.token_program@,
        ).1,
{
    let rec_addr = match deriver.derive_escrow_address(&ctx.signer) {
        Some(p) => p.0,
        None => {
            return Err(EscrowError::DerivationExhausted);
        },
    };
    if !ctx.escrow.eq_addr(&rec_addr) {
        return Err(EscrowError::AddressMismatch);
    }
    let record = match ledger.get_account(&rec_addr) {
        Some(AccountData::Rec(e)) => e,
        _ => {
            return Err(EscrowError::NotFound);
        },
    };
    let derived = match deriver.derive_holding_address(
        &rec_addr,
        &ctx.token_program,
        &record.mint_address,
    ) {
        Some(p) => p.0,
        None => {
            return Err(EscrowError::DerivationExhausted);
        },
    };
    if !ctx.escrow_ata.eq_addr(&derived) {
        return Err(EscrowError::AddressMismatch);
    }
    ledger.create_if_absent(
        &derived,
        AccountData::Tok(
            TokenAccount { mint: record.mint_address, owner: rec_addr, balance: 0 },
        ),
    );
    Ok(())
}

/// Whether `expected` is the canonical associated-token address of `wallet`
/// for `mint` under the conventional associated-token scheme.
///
/// This secondary check derives from different inputs than the holding
/// address of `create_ata` and will not in general agree with it; it is kept
/// as its own check so a caller can apply either scheme deliberately.
pub fn check_canonical_ata(wallet: &Address, mint: &Address, expected: &Address) -> (r: Result<
    (),
    EscrowError,
>)
    ensures
        r is Ok <==> expected@ == ata_of(wallet@, mint@),
        r is Err ==> r == Err::<(), EscrowError>(EscrowError::AddressMismatch),
{
    let canonical = canonical_holding_address(wallet, mint);
    if expected.eq_addr(&canonical) {
        Ok(())
    } else {
        Err(EscrowError::AddressMismatch)
    }
}

/// What `transfer_token` does to the abstract ledger `m`, and its outcome.
///
/// It moves exactly the recorded amount from the source to the derived
/// destination, all-or-nothing: where the host transfer cannot succeed
/// (wrong authority, mismatched mint, insufficient balance, overflow), the
/// whole operation fails with `TransferFailed` and the ledger — including
/// any provisional destination creation — is unchanged.
pub open spec fn transfer_token_spec(
    m: Map<Seq<u8>, AccountV>,
    program: Seq<u8>,
    escrow: Seq<u8>,
    to_ata: Seq<u8>,
    from_ata: Seq<u8>,
    from: Seq<u8>,
    token_program: Seq<u8>,
) -> (Map<Seq<u8>, AccountV>, Result<(), EscrowError>) {
    match pda_of(escrow_seeds(from), program) {
        None => (m, Err(EscrowError::DerivationExhausted)),
        Some(p) => {
            let rec_addr = p.0;
            if escrow != rec_addr {
                (m, Err(EscrowError::AddressMismatch))
            } else if !(m.contains_key(rec_addr) && m[rec_addr] is Rec) {
                (m, Err(EscrowError::NotFound))
            } else {
                let amount = rec_amount(m[rec_addr]);
                let mint = rec_mint(m[rec_addr]);
                match pda_of(holding_seeds(rec_addr, token_program, mint), program) {
                    None => (m, Err(EscrowError::DerivationExhausted)),
                    Some(q) => {
                        let dest = q.0;
                        if to_ata != dest {
                            (m, Err(EscrowError::AddressMismatch))
                        } else {
                            let m1 = if m.contains_key(dest) {
                                m
                            } else {
                                m.insert(
                                    dest,
                                    AccountV::Tok { mint: mint, owner: rec_addr, balance: 0 },
                                )
                            };
                            if token_transfer_ok(m1, from_ata, dest, from, amount) {
                                (token_transfer_map(m1, from_ata, dest, amount), Ok(()))
                            } else {
                                (m, Err(EscrowError::TransferFailed))
                            }
                        }
                    },
                }
            }
        },
    }
}

/// Moves exactly the escrow's recorded amount from `ctx.from_ata` to the
/// derived destination holding account, creating the destination if absent,
/// authorized by `ctx.from` as the verified signer owning the source.
pub fn transfer_token(ledger: &mut Ledger, deriver: &AddressDeriver, ctx: &TransferToken) -> (r:
    Result<(), EscrowError>)
    requires
        old(ledger).wf(),
    ensures
        final(ledger).wf(),
        final(ledger)@ == transfer_token_spec(
            old(ledger)@,
            deriver.program_id@,
            ctx.escrow@,
            ctx.to_ata@,
            ctx.from_ata@,
            ctx.from@,
            ctx.token_program@,
        ).0,
        r == transfer_token_spec(
            old(ledger)@,
            deriver.program_id@,
            ctx.escrow@,
            ctx.to_ata@,
            ctx.from_ata@,
            ctx.from@,
            ctx.token_program@,
        ).1,
{
    let rec_addr = match deriver.derive_escrow_address(&ctx.from) {
        Some(p) => p.0,
        None => {
            return Err(EscrowError::DerivationExhausted);
        },
    };
    if !ctx.escrow.eq_addr(&rec_addr) {
        return Err(EscrowError::AddressMismatch);
    }
    let record = match ledger.get_account(&rec_addr) {
        Some(AccountData::Rec(e)) => e,
        _ => {
            return Err(EscrowError::NotFound);
        },
    };
    let amount = record.amount;
    let dest = match deriver.derive_holding_address(
        &rec_addr,
        &ctx.token_program,
        &record.mint_address,
    ) {
        Some(p) => p.0,
        None => {
            return Err(EscrowError::DerivationExhausted);
        },
    };
    if !ctx.to_ata.eq_addr(&dest) {
        return Err(EscrowError::AddressMismatch);
    }
    let fresh = TokenAccount { mint: record.mint_address, owner: rec_addr, balance: 0 };
    let dst = match ledger.get_account(&dest) {
        Some(AccountData::Tok(t)) => t,
        Some(AccountData::Rec(_)) => {
            return Err(EscrowError::TransferFailed);
        },
        None => fresh,
    };
    let src = if ctx.from_ata.eq_addr(&dest) {
        dst
    } else {
        match ledger.get_account(&ctx.from_ata) {
            Some(AccountData::Tok(t)) => t,
            _ => {
                return Err(EscrowError::TransferFailed);
            },
        }
    };
    if !src.owner.eq_addr(&ctx.from) {
        return Err(EscrowError::TransferFailed);
    }
    if !src.mint.eq_addr(&dst.mint) {
        return Err(EscrowError::TransferFailed);
    }
    if src.balance < amount {
        return Err(EscrowError::TransferFailed);
    }
    if !ctx.from_ata.eq_addr(&dest) && dst.balance > u64::MAX - amount {
        return Err(EscrowError::TransferFailed);
    }
    ledger.create_if_absent(&dest, AccountData::Tok(fresh));
    match ledger.token_transfer(&ctx.from_ata, &dest, &ctx.from, amount) {
        Ok(u) => Ok(u),
        Err(_) => Err(EscrowError::TransferFailed),
    }
}

} // verus!
