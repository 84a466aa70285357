use escrow::addr::{canonical_holding_address, Address, AddressDeriver};
use escrow::error::EscrowError;
use escrow::ledger::{AccountData, Escrow, Ledger, TokenAccount};
use escrow::ops::{
    check_canonical_ata, create_ata, init_escrow, transfer_token, CreateATA, InitEscrow,
    TransferToken,
};

fn addr(b: u8) -> Address {
    Address { bytes: [b; 32] }
}

fn deriver() -> AddressDeriver {
    AddressDeriver { program_id: addr(11) }
}

fn escrow_address_of(owner: &Address) -> Address {
    deriver().derive_escrow_address(owner).expect("bump search exhausted").0
}

fn holding_address_of(owner: &Address, token_program: &Address, mint: &Address) -> Address {
    let rec = escrow_address_of(owner);
    deriver()
        .derive_holding_address(&rec, token_program, mint)
        .expect("bump search exhausted")
        .0
}

/// A ledger holding the escrow record of `owner` and its provisioned
/// holding account, as the first two steps of the flow leave them.
fn initialized_ledger(owner: &Address, amount: u64, mint: &Address, token_program: &Address) -> Ledger {
    let mut ledger = Ledger::new();
    let rec = escrow_address_of(owner);
    let init_ctx = InitEscrow { escrow: rec, signer: *owner };
    assert_eq!(init_escrow(&mut ledger, &deriver(), &init_ctx, amount, *mint), Ok(()));
    let hold = holding_address_of(owner, token_program, mint);
    let ata_ctx = CreateATA {
        escrow: rec,
        escrow_ata: hold,
        signer: *owner,
        token_program: *token_program,
    };
    assert_eq!(create_ata(&mut ledger, &deriver(), &ata_ctx), Ok(()));
    ledger
}

#[test]
fn eq_addr_compares_bytes() {
    assert!(addr(5).eq_addr(&addr(5)));
    assert!(!addr(5).eq_addr(&addr(6)));
    let mut one_off = addr(5);
    one_off.bytes[31] = 6;
    assert!(!addr(5).eq_addr(&one_off));
}

#[test]
fn derivation_is_pure() {
    let d = deriver();
    let owner = addr(1);
    let first = d.derive_escrow_address(&owner).unwrap();
    let second = d.derive_escrow_address(&owner).unwrap();
    assert_eq!(first.0, second.0);
    assert_eq!(first.1, second.1);
    let h1 = d.derive_holding_address(&first.0, &addr(3), &addr(2)).unwrap();
    let h2 = d.derive_holding_address(&first.0, &addr(3), &addr(2)).unwrap();
    assert_eq!(h1.0, h2.0);
    assert_eq!(h1.1, h2.1);
    let c1 = canonical_holding_address(&addr(4), &addr(2));
    let c2 = canonical_holding_address(&addr(4), &addr(2));
    assert_eq!(c1, c2);
}

#[test]
fn derivation_transforms_its_inputs() {
    let owner = addr(1);
    let derived = escrow_address_of(&owner);
    assert_ne!(derived, owner);
    assert_ne!(derived, deriver().program_id);
    let canonical = canonical_holding_address(&owner, &addr(2));
    assert_ne!(canonical, owner);
    assert_ne!(canonical, addr(2));
}

#[test]
fn escrow_derivation_matches_host_convention() {
    let owner = addr(1);
    let program = anchor_lang::prelude::Pubkey::new_from_array(deriver().program_id.bytes);
    let (expected, expected_bump) = anchor_lang::prelude::Pubkey::find_program_address(
        &[b"escrow", owner.bytes.as_slice()],
        &program,
    );
    let (got, bump) = deriver().derive_escrow_address(&owner).unwrap();
    assert_eq!(got.bytes, expected.to_bytes());
    assert_eq!(bump, expected_bump);
}

#[test]
fn holding_derivation_matches_host_convention() {
    let owner = addr(1);
    let token_program = addr(3);
    let mint = addr(2);
    let rec = escrow_address_of(&owner);
    let program = anchor_lang::prelude::Pubkey::new_from_array(deriver().program_id.bytes);
    let (expected, expected_bump) = anchor_lang::prelude::Pubkey::find_program_address(
        &[
            rec.bytes.as_slice(),
            token_program.bytes.as_slice(),
            mint.bytes.as_slice(),
        ],
        &program,
    );
    let (got, bump) = deriver()
        .derive_holding_address(&rec, &token_program, &mint)
        .unwrap();
    assert_eq!(got.bytes, expected.to_bytes());
    assert_eq!(bump, expected_bump);
}

#[test]
#[allow(deprecated)]
fn canonical_address_matches_token_convention() {
    let wallet = addr(7);
    let mint = addr(2);
    let w = anchor_lang::prelude::Pubkey::new_from_array(wallet.bytes);
    let m = anchor_lang::prelude::Pubkey::new_from_array(mint.bytes);
    let expected = spl_associated_token_account::get_associated_token_address(&w, &m);
    assert_eq!(canonical_holding_address(&wallet, &mint).bytes, expected.to_bytes());
}

#[test]
fn init_twice_fails_with_already_exists() {
    let mut ledger = Ledger::new();
    let owner = addr(1);
    let rec = escrow_address_of(&owner);
    let ctx = InitEscrow { escrow: rec, signer: owner };
    assert_eq!(init_escrow(&mut ledger, &deriver(), &ctx, 1000, addr(2)), Ok(()));
    assert_eq!(
        init_escrow(&mut ledger, &deriver(), &ctx, 1000, addr(2)),
        Err(EscrowError::AlreadyExists)
    );
    assert_eq!(
        init_escrow(&mut ledger, &deriver(), &ctx, 5, addr(9)),
        Err(EscrowError::AlreadyExists)
    );
}

#[test]
fn init_writes_the_record_once() {
    let mut ledger = Ledger::new();
    let owner = addr(1);
    let rec = escrow_address_of(&owner);
    let ctx = InitEscrow { escrow: rec, signer: owner };
    assert_eq!(init_escrow(&mut ledger, &deriver(), &ctx, 1000, addr(2)), Ok(()));
    match ledger.get_account(&rec) {
        Some(AccountData::Rec(Escrow { amount, mint_address, escrow_owner })) => {
            assert_eq!(amount, 1000);
            assert_eq!(mint_address, addr(2));
            assert_eq!(escrow_owner, owner);
        }
        _ => panic!("escrow record missing"),
    }
}

#[test]
fn init_rejects_a_wrong_target_address() {
    let mut ledger = Ledger::new();
    let owner = addr(1);
    let ctx = InitEscrow { escrow: addr(42), signer: owner };
    assert_eq!(
        init_escrow(&mut ledger, &deriver(), &ctx, 1000, addr(2)),
        Err(EscrowError::AddressMismatch)
    );
    assert_eq!(ledger.get_account(&addr(42)).is_none(), true);
}

#[test]
fn create_ata_is_idempotent() {
    let mut ledger = Ledger::new();
    let owner = addr(1);
    let mint = addr(2);
    let token_program = addr(3);
    let rec = escrow_address_of(&owner);
    let init_ctx = InitEscrow { escrow: rec, signer: owner };
    assert_eq!(init_escrow(&mut ledger, &deriver(), &init_ctx, 1000, mint), Ok(()));
    let hold = holding_address_of(&owner, &token_program, &mint);
    let ctx = CreateATA { escrow: rec, escrow_ata: hold, signer: owner, token_program };
    for _ in 0..3 {
        assert_eq!(create_ata(&mut ledger, &deriver(), &ctx), Ok(()));
        match ledger.get_account(&hold) {
            Some(AccountData::Tok(TokenAccount { mint: m, owner: o, balance })) => {
                assert_eq!(m, mint);
                assert_eq!(o, rec);
                assert_eq!(balance, 0);
            }
            _ => panic!("holding account missing"),
        }
    }
}

#[test]
fn create_ata_rejects_a_mismatched_address_even_if_it_exists() {
    let mut ledger = Ledger::new();
    let owner = addr(1);
    let mint = addr(2);
    let token_program = addr(3);
    let rec = escrow_address_of(&owner);
    let init_ctx = InitEscrow { escrow: rec, signer: owner };
    assert_eq!(init_escrow(&mut ledger, &deriver(), &init_ctx, 1000, mint), Ok(()));
    // the escrow record's own address exists, but it is not the derived
    // holding address
    let ctx = CreateATA { escrow: rec, escrow_ata: rec, signer: owner, token_program };
    assert_eq!(
        create_ata(&mut ledger, &deriver(), &ctx),
        Err(EscrowError::AddressMismatch)
    );
    let ctx2 = CreateATA { escrow: rec, escrow_ata: addr(42), signer: owner, token_program };
    assert_eq!(
        create_ata(&mut ledger, &deriver(), &ctx2),
        Err(EscrowError::AddressMismatch)
    );
}

#[test]
fn create_ata_requires_the_record() {
    let mut ledger = Ledger::new();
    let owner = addr(1);
    let rec = escrow_address_of(&owner);
    let ctx = CreateATA { escrow: rec, escrow_ata: addr(4), signer: owner, token_program: addr(3) };
    assert_eq!(create_ata(&mut ledger, &deriver(), &ctx), Err(EscrowError::NotFound));
}

#[test]
fn canonical_check_accepts_only_the_canonical_address() {
    let wallet = addr(7);
    let mint = addr(2);
    let canonical = canonical_holding_address(&wallet, &mint);
    assert_eq!(check_canonical_ata(&wallet, &mint, &canonical), Ok(()));
    assert_eq!(
        check_canonical_ata(&wallet, &mint, &addr(9)),
        Err(EscrowError::AddressMismatch)
    );
    assert_eq!(
        check_canonical_ata(&wallet, &mint, &wallet),
        Err(EscrowError::AddressMismatch)
    );
}

#[test]
fn full_flow_moves_the_recorded_amount() {
    // owner OwnerA, amount 1000, mint MintX
    let owner = addr(1);
    let mint = addr(2);
    let token_program = addr(3);
    let mut ledger = initialized_ledger(&owner, 1000, &mint, &token_program);
    let rec = escrow_address_of(&owner);
    let hold = holding_address_of(&owner, &token_program, &mint);

    // a pre-funded 1000-unit source owned by OwnerA (a host-side deposit)
    let source = addr(50);
    assert!(ledger.create_if_absent(
        &source,
        AccountData::Tok(TokenAccount { mint, owner, balance: 1000 })
    ));

    let ctx = TransferToken {
        escrow: rec,
        to_ata: hold,
        from_ata: source,
        from: owner,
        token_program,
    };
    assert_eq!(transfer_token(&mut ledger, &deriver(), &ctx), Ok(()));
    match ledger.get_account(&hold) {
        Some(AccountData::Tok(t)) => assert_eq!(t.balance, 1000),
        _ => panic!("holding account missing"),
    }
    match ledger.get_account(&source) {
        Some(AccountData::Tok(t)) => assert_eq!(t.balance, 0),
        _ => panic!("source account missing"),
    }
}

#[test]
fn replay_fails_on_the_emptied_source() {
    let owner = addr(1);
    let mint = addr(2);
    let token_program = addr(3);
    let mut ledger = initialized_ledger(&owner, 1000, &mint, &token_program);
    let rec = escrow_address_of(&owner);
    let hold = holding_address_of(&owner, &token_program, &mint);
    let source = addr(50);
    ledger.create_if_absent(
        &source,
        AccountData::Tok(TokenAccount { mint, owner, balance: 1000 }),
    );
    let ctx = TransferToken {
        escrow: rec,
        to_ata: hold,
        from_ata: source,
        from: owner,
        token_program,
    };
    assert_eq!(transfer_token(&mut ledger, &deriver(), &ctx), Ok(()));
    // the record is never marked spent: the replay fails only because the
    // source now holds 0 units
    assert_eq!(
        transfer_token(&mut ledger, &deriver(), &ctx),
        Err(EscrowError::TransferFailed)
    );
    match ledger.get_account(&hold) {
        Some(AccountData::Tok(t)) => assert_eq!(t.balance, 1000),
        _ => panic!("holding account missing"),
    }
    match ledger.get_account(&source) {
        Some(AccountData::Tok(t)) => assert_eq!(t.balance, 0),
        _ => panic!("source account missing"),
    }
}

#[test]
fn transfer_rejects_a_wrong_authority() {
    let owner = addr(1);
    let stranger = addr(6);
    let mint = addr(2);
    let token_program = addr(3);
    let mut ledger = initialized_ledger(&owner, 1000, &mint, &token_program);
    let rec = escrow_address_of(&owner);
    let hold = holding_address_of(&owner, &token_program, &mint);
    // the source is owned by someone else: OwnerA's signature does not
    // authorize it
    let source = addr(50);
    ledger.create_if_absent(
        &source,
        AccountData::Tok(TokenAccount { mint, owner: stranger, balance: 1000 }),
    );
    let ctx = TransferToken {
        escrow: rec,
        to_ata: hold,
        from_ata: source,
        from: owner,
        token_program,
    };
    assert_eq!(
        transfer_token(&mut ledger, &deriver(), &ctx),
        Err(EscrowError::TransferFailed)
    );
    match ledger.get_account(&source) {
        Some(AccountData::Tok(t)) => assert_eq!(t.balance, 1000),
        _ => panic!("source account missing"),
    }
    match ledger.get_account(&hold) {
        Some(AccountData::Tok(t)) => assert_eq!(t.balance, 0),
        _ => panic!("holding account missing"),
    }
}

#[test]
fn transfer_rejects_a_mismatched_mint() {
    let owner = addr(1);
    let mint = addr(2);
    let other_mint = addr(9);
    let token_program = addr(3);
    let mut ledger = initialized_ledger(&owner, 1000, &mint, &token_program);
    let rec = escrow_address_of(&owner);
    let hold = holding_address_of(&owner, &token_program, &mint);
    let source = addr(50);
    ledger.create_if_absent(
        &source,
        AccountData::Tok(TokenAccount { mint: other_mint, owner, balance: 1000 }),
    );
    let ctx = TransferToken {
        escrow: rec,
        to_ata: hold,
        from_ata: source,
        from: owner,
        token_program,
    };
    assert_eq!(
        transfer_token(&mut ledger, &deriver(), &ctx),
        Err(EscrowError::TransferFailed)
    );
}

#[test]
fn transfer_provisions_the_destination_if_absent() {
    // no create_ata step: transfer itself materializes the holding account
    let owner = addr(1);
    let mint = addr(2);
    let token_program = addr(3);
    let mut ledger = Ledger::new();
    let rec = escrow_address_of(&owner);
    let init_ctx = InitEscrow { escrow: rec, signer: owner };
    assert_eq!(init_escrow(&mut ledger, &deriver(), &init_ctx, 700, mint), Ok(()));
    let hold = holding_address_of(&owner, &token_program, &mint);
    let source = addr(50);
    ledger.create_if_absent(
        &source,
        AccountData::Tok(TokenAccount { mint, owner, balance: 1000 }),
    );
    let ctx = TransferToken {
        escrow: rec,
        to_ata: hold,
        from_ata: source,
        from: owner,
        token_program,
    };
    assert_eq!(transfer_token(&mut ledger, &deriver(), &ctx), Ok(()));
    match ledger.get_account(&hold) {
        Some(AccountData::Tok(t)) => {
            assert_eq!(t.balance, 700);
            assert_eq!(t.mint, mint);
            assert_eq!(t.owner, rec);
        }
        _ => panic!("holding account missing"),
    }
    match ledger.get_account(&source) {
        Some(AccountData::Tok(t)) => assert_eq!(t.balance, 300),
        _ => panic!("source account missing"),
    }
}

#[test]
fn transfer_rejects_a_destination_overflow() {
    let owner = addr(1);
    let mint = addr(2);
    let token_program = addr(3);
    let mut ledger = Ledger::new();
    let rec = escrow_address_of(&owner);
    let init_ctx = InitEscrow { escrow: rec, signer: owner };
    assert_eq!(init_escrow(&mut ledger, &deriver(), &init_ctx, 1000, mint), Ok(()));
    // the holding account already exists, nearly full
    let hold = holding_address_of(&owner, &token_program, &mint);
    ledger.create_if_absent(
        &hold,
        AccountData::Tok(TokenAccount { mint, owner: rec, balance: u64::MAX }),
    );
    let source = addr(50);
    ledger.create_if_absent(
        &source,
        AccountData::Tok(TokenAccount { mint, owner, balance: 1000 }),
    );
    let ctx = TransferToken {
        escrow: rec,
        to_ata: hold,
        from_ata: source,
        from: owner,
        token_program,
    };
    assert_eq!(
        transfer_token(&mut ledger, &deriver(), &ctx),
        Err(EscrowError::TransferFailed)
    );
    match ledger.get_account(&source) {
        Some(AccountData::Tok(t)) => assert_eq!(t.balance, 1000),
        _ => panic!("source account missing"),
    }
    match ledger.get_account(&hold) {
        Some(AccountData::Tok(t)) => assert_eq!(t.balance, u64::MAX),
        _ => panic!("holding account missing"),
    }
}

#[test]
fn escrow_record_space_matches_the_layout() {
    // 8-byte host header + 8-byte amount + 32-byte mint + 32-byte owner
    assert_eq!(escrow::ops::ESCROW_RECORD_SPACE, 80);
}

#[test]
fn transfer_rejects_a_wrong_destination() {
    let owner = addr(1);
    let mint = addr(2);
    let token_program = addr(3);
    let mut ledger = initialized_ledger(&owner, 1000, &mint, &token_program);
    let rec = escrow_address_of(&owner);
    let source = addr(50);
    ledger.create_if_absent(
        &source,
        AccountData::Tok(TokenAccount { mint, owner, balance: 1000 }),
    );
    let ctx = TransferToken {
        escrow: rec,
        to_ata: addr(42),
        from_ata: source,
        from: owner,
        token_program,
    };
    assert_eq!(
        transfer_token(&mut ledger, &deriver(), &ctx),
        Err(EscrowError::AddressMismatch)
    );
}
