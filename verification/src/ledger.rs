//! An explicit model of the host ledger.
//!
//! The host runtime stores accounts keyed by address and offers two atomic
//! primitives the escrow core relies on: create-if-absent account creation,
//! and all-or-nothing value transfer between two token-typed accounts. This
//! module models that collaborator as verified code, so the escrow operations
//! can be proved against its contracts. The ledger is viewed abstractly as a
//! map from an address's bytes to the account living there.

use vstd::prelude::*;

use crate::addr::Address;
use crate::error::EscrowError;

verus! {

/// One escrow record: a committed amount of one mint, owned by one party.
/// All three fields are written once at creation and never mutated.
#[derive(Clone, Copy)]
pub struct Escrow {
    pub amount: u64,
    pub mint_address: Address,
    pub escrow_owner: Address,
}

/// A token-typed account: it holds `balance` units of the token type `mint`,
/// and value leaves it only under the signature of `owner`.
#[derive(Clone, Copy)]
pub struct TokenAccount {
    pub mint: Address,
    pub owner: Address,
    pub balance: u64,
}

/// What an account on the ledger holds.
#[derive(Clone, Copy)]
pub enum AccountData {
    Rec(Escrow),
    Tok(TokenAccount),
}

/// The abstract value of an account: the same data over byte sequences.
pub enum AccountV {
    Rec { amount: u64, mint: Seq<u8>, owner: Seq<u8> },
    Tok { mint: Seq<u8>, owner: Seq<u8>, balance: u64 },
}

impl View for AccountData {
    type V = AccountV;

    open spec fn view(&self) -> AccountV {
        match self {
            AccountData::Rec(e) => AccountV::Rec {
                amount: e.amount,
                mint: e.mint_address@,
                owner: e.escrow_owner@,
            },
            AccountData::Tok(t) => AccountV::Tok {
                mint: t.mint@,
                owner: t.owner@,
                balance: t.balance,
            },
        }
    }
}

/// The committed amount of an escrow record (0 if not a record).
pub open spec fn rec_amount(v: AccountV) -> u64 {
    match v {
        AccountV::Rec { amount, .. } => amount,
        _ => 0,
    }
}

/// The mint identity of an escrow record (empty if not a record).
pub open spec fn rec_mint(v: AccountV) -> Seq<u8> {
    match v {
        AccountV::Rec { mint, .. } => mint,
        _ => Seq::empty(),
    }
}

/// The owner identity of an escrow record (empty if not a record).
pub open spec fn rec_owner(v: AccountV) -> Seq<u8> {
    match v {
        AccountV::Rec { owner, .. } => owner,
        _ => Seq::empty(),
    }
}

/// The mint of a token account (empty if not a token account).
pub open spec fn tok_mint(v: AccountV) -> Seq<u8> {
    match v {
        AccountV::Tok { mint, .. } => mint,
        _ => Seq::empty(),
    }
}

/// The owner of a token account (empty if not a token account).
pub open spec fn tok_owner(v: AccountV) -> Seq<u8> {
    match v {
        AccountV::Tok { owner, .. } => owner,
        _ => Seq::empty(),
    }
}

/// The balance of a token account (0 if not a token account).
pub open spec fn tok_balance(v: AccountV) -> u64 {
    match v {
        AccountV::Tok { balance, .. } => balance,
        _ => 0,
    }
}

/// The balance held at address `a` of ledger state `m` (0 where no token
/// account lives).
pub open spec fn balance_of(m: Map<Seq<u8>, AccountV>, a: Seq<u8>) -> u64 {
    if m.contains_key(a) {
        tok_balance(m[a])
    } else {
        0
    }
}

/// One account on the ledger.
#[derive(Clone, Copy)]
pub struct AccountEntry {
    pub address: Address,
    pub data: AccountData,
}

/// No two entries share an address: the ledger keys accounts by address.
pub open spec fn entries_distinct(s: Seq<AccountEntry>) -> bool {
    forall|i: int, j: int| 0 <= i < j < s.len() ==> s[i].address@ != s[j].address@
}

/// The entries as a map from address bytes to account value.
pub open spec fn map_of(s: Seq<AccountEntry>) -> Map<Seq<u8>, AccountV>
    decreases s.len(),
{
    if s.len() == 0 {
        Map::empty()
    } else {
        map_of(s.drop_last()).insert(s.last().address@, s.last().data@)
    }
}

proof fn lemma_distinct_drop_last(s: Seq<AccountEntry>)
    requires
        entries_distinct(s),
        s.len() > 0,
    ensures
        entries_distinct(s.drop_last()),
{
    assert forall|x: int, y: int|
        0 <= x < y < s.drop_last().len() implies s.drop_last()[x].address@
        != s.drop_last()[y].address@ by {
        assert(s.drop_last()[x] == s[x]);
        assert(s.drop_last()[y] == s[y]);
    }
}

proof fn lemma_map_of_contains(s: Seq<AccountEntry>, a: Seq<u8>)
    ensures
        map_of(s).contains_key(a) <==> (exists|i: int| 0 <= i < s.len() && s[i].address@ == a),
    decreases s.len(),
{
    if s.len() > 0 {
        lemma_map_of_contains(s.drop_last(), a);
        if s.last().address@ == a {
            assert(s[s.len() - 1].address@ == a);
        } else {
            if exists|i: int| 0 <= i < s.len() && s[i].address@ == a {
                let i = choose|i: int| 0 <= i < s.len() && s[i].address@ == a;
                assert(s.drop_last()[i] == s[i]);
            }
            if exists|i: int| 0 <= i < s.drop_last().len() && s.drop_last()[i].address@ == a {
                let i = choose|i: int|
                    0 <= i < s.drop_last().len() && s.drop_last()[i].address@ == a;
                assert(s[i] == s.drop_last()[i]);
            }
        }
    }
}

proof fn lemma_map_of_index(s: Seq<AccountEntry>, i: int)
    requires
        entries_distinct(s),
        0 <= i < s.len(),
    ensures
        map_of(s).contains_key(s[i].address@),
        map_of(s)[s[i].address@] == s[i].data@,
    decreases s.len(),
{
    if i < s.len() - 1 {
        lemma_distinct_drop_last(s);
        lemma_map_of_index(s.drop_last(), i);
        assert(s.drop_last()[i] == s[i]);
        assert(s[i].address@ != s[s.len() - 1].address@);
    }
}

proof fn lemma_map_of_push(s: Seq<AccountEntry>, e: AccountEntry)
    ensures
        map_of(s.push(e)) == map_of(s).insert(e.address@, e.data@),
{
    assert(s.push(e).drop_last() =~= s);
    assert(s.push(e).last() == e);
}

proof fn lemma_distinct_push(s: Seq<AccountEntry>, e: AccountEntry)
    requires
        entries_distinct(s),
        forall|i: int| 0 <= i < s.len() ==> s[i].address@ != e.address@,
    ensures
        entries_distinct(s.push(e)),
{
    assert forall|i: int, j: int|
        0 <= i < j < s.push(e).len() implies s.push(e)[i].address@ != s.push(e)[j].address@ by {
        assert(s.push(e)[i] == s[i]);
        if j == s.len() as int {
            assert(s.push(e)[j] == e);
        } else {
            assert(s.push(e)[j] == s[j]);
        }
    }
}

proof fn lemma_distinct_update(s: Seq<AccountEntry>, i: int, e: AccountEntry)
    requires
        entries_distinct(s),
        0 <= i < s.len(),
        e.address@ == s[i].address@,
    ensures
        entries_distinct(s.update(i, e)),
{
    let t = s.update(i, e);
    assert forall|x: int, y: int| 0 <= x < y < t.len() implies t[x].address@ != t[y].address@ by {
        assert(s[x].address@ != s[y].address@);
        if x == i {
            assert(t[x] == e && t[y] == s[y]);
        } else if y == i {
            assert(t[x] == s[x] && t[y] == e);
        } else {
            assert(t[x] == s[x] && t[y] == s[y]);
        }
    }
}

proof fn lemma_map_of_update(s: Seq<AccountEntry>, i: int, e: AccountEntry)
    requires
        entries_distinct(s),
        0 <= i < s.len(),
        e.address@ == s[i].address@,
    ensures
        map_of(s.update(i, e)) == map_of(s).insert(e.address@, e.data@),
    decreases s.len(),
{
    let t = s.update(i, e);
    if i == s.len() - 1 {
        assert(t.drop_last() =~= s.drop_last());
        assert(t.last() == e);
        assert(map_of(t) =~= map_of(s).insert(e.address@, e.data@));
    } else {
        assert(t.drop_last() =~= s.drop_last().update(i, e));
        lemma_distinct_drop_last(s);
        lemma_map_of_update(s.drop_last(), i, e);
        assert(t.last() == s.last());
        assert(s[i].address@ != s[s.len() - 1].address@);
        assert(map_of(t) =~= map_of(s).insert(e.address@, e.data@));
    }
}

/// Success condition of the host's value transfer: both endpoints are token
/// accounts, the claimed authority owns the source, the mints agree, the
/// source covers the amount, and the destination balance cannot overflow.
pub open spec fn token_transfer_ok(
    m: Map<Seq<u8>, AccountV>,
    src: Seq<u8>,
    dst: Seq<u8>,
    auth: Seq<u8>,
    amount: u64,
) -> bool {
    &&& m.contains_key(src)
    &&& m[src] is Tok
    &&& m.contains_key(dst)
    &&& m[dst] is Tok
    &&& tok_owner(m[src]) == auth
    &&& tok_mint(m[src]) == tok_mint(m[dst])
    &&& tok_balance(m[src]) >= amount
    &&& (src == dst || tok_balance(m[dst]) + amount <= u64::MAX)
}

/// The ledger after a successful value transfer: `amount` moves from `src`
/// to `dst`; a transfer to the source itself changes nothing.
pub open spec fn token_transfer_map(
    m: Map<Seq<u8>, AccountV>,
    src: Seq<u8>,
    dst: Seq<u8>,
    amount: u64,
) -> Map<Seq<u8>, AccountV> {
    if src == dst {
        m
    } else {
        m.insert(
            src,
            AccountV::Tok {
                mint: tok_mint(m[src]),
                owner: tok_owner(m[src]),
                balance: (tok_balance(m[src]) - amount) as u64,
            },
        ).insert(
            dst,
            AccountV::Tok {
                mint: tok_mint(m[dst]),
                owner: tok_owner(m[dst]),
                balance: (tok_balance(m[dst]) + amount) as u64,
            },
        )
    }
}

/// The host ledger: all live accounts, keyed by address.
pub struct Ledger {
    entries: Vec<AccountEntry>,
}

impl View for Ledger {
    type V = Map<Seq<u8>, AccountV>;

    closed spec fn view(&self) -> Map<Seq<u8>, AccountV> {
        map_of(self.entries@)
    }
}

impl Ledger {
    /// The ledger invariant: account addresses are unique.
    pub closed spec fn wf(&self) -> bool {
        entries_distinct(self.entries@)
    }

    /// An empty ledger.
    pub fn new() -> (r: Ledger)
        ensures
            r.wf(),
            r@ == Map::<Seq<u8>, AccountV>::empty(),
    {
        Ledger { entries: Vec::new() }
    }

    fn find(&self, a: &Address) -> (r: Option<usize>)
        requires
            self.wf(),
        ensures
            match r {
                Some(i) => {
                    &&& (i as int) < self.entries@.len()
                    &&& self.entries@[i as int].address@ == a@
                    &&& self@.contains_key(a@)
                    &&& self@[a@] == self.entries@[i as int].data@
                },
                None => !self@.contains_key(a@),
            },
    {
        let n = self.entries.len();
        let mut i: usize = 0;
        while i < n
            invariant
                self.wf(),
                n == self.entries@.len(),
                i <= n,
                forall|k: int| 0 <= k < i ==> self.entries@[k].address@ != a@,
            decreases n - i,
        {
            if self.entries[i].address.eq_addr(a) {
                proof {
                    lemma_map_of_contains(self.entries@, a@);
                    lemma_map_of_index(self.entries@, i as int);
                }
                return Some(i);
            }
            i += 1;
        }
        proof {
            lemma_map_of_contains(self.entries@, a@);
        }
        None
    }

    /// Whether any account lives at `a`.
    pub fn contains_account(&self, a: &Address) -> (r: bool)
        requires
            self.wf(),
        ensures
            r == self@.contains_key(a@),
    {
        match self.find(a) {
            Some(_) => true,
            None => false,
        }
    }

    /// The account living at `a`, if any.
    pub fn get_account(&self, a: &Address) -> (r: Option<AccountData>)
        requires
            self.wf(),
        ensures
            match r {
                Some(d) => self@.contains_key(a@) && d@ == self@[a@],
                None => !self@.contains_key(a@),
            },
    {
        match self.find(a) {
            Some(i) => Some(self.entries[i].data),
            None => None,
        }
    }

    /// Host primitive: atomic create-if-absent. Creates an account holding
    /// `d` at address `a` unless one already lives there; returns whether it
    /// created one.
    pub fn create_if_absent(&mut self, a: &Address, d: AccountData) -> (created: bool)
        requires
            old(self).wf(),
        ensures
            final(self).wf(),
            created == !old(self)@.contains_key(a@),
            final(self)@ == (if old(self)@.contains_key(a@) {
                old(self)@
            } else {
                old(self)@.insert(a@, d@)
            }),
    {
        match self.find(a) {
            Some(_) => false,
            None => {
                let ghost s0 = self.entries@;
                let e = AccountEntry { address: *a, data: d };
                self.entries.push(e);
                proof {
                    lemma_map_of_contains(s0, a@);
                    assert(forall|i: int| 0 <= i < s0.len() ==> s0[i].address@ != e.address@);
                    lemma_distinct_push(s0, e);
                    lemma_map_of_push(s0, e);
                }
                true
            },
        }
    }

    /// Host primitive: atomic all-or-nothing value transfer. Moves `amount`
    /// units from the token account at `source` to the one at `dest`, under
    /// the authority `authority`; on any failure the ledger is unchanged and
    /// the single outcome is `TransferFailed`.
    pub fn token_transfer(
        &mut self,
        source: &Address,
        dest: &Address,
        authority: &Address,
        amount: u64,
    ) -> (r: Result<(), EscrowError>)
        requires
            old(self).wf(),
        ensures
            final(self).wf(),
            r is Ok <==> token_transfer_ok(old(self)@, source@, dest@, authority@, amount),
            r is Ok ==> final(self)@ == token_transfer_map(old(self)@, source@, dest@, amount),
            r is Err ==> final(self)@ == old(self)@ && r == Err::<(), EscrowError>(
                EscrowError::TransferFailed,
            ),
    {
        let src_i = match self.find(source) {
            Some(i) => i,
            None => {
                return Err(EscrowError::TransferFailed);
            },
        };
        let dst_i = match self.find(dest) {
            Some(i) => i,
            None => {
                return Err(EscrowError::TransferFailed);
            },
        };
        let src = match &self.entries[src_i].data {
            AccountData::Tok(t) => *t,
            AccountData::Rec(_) => {
                return Err(EscrowError::TransferFailed);
            },
        };
        let dst = match &self.entries[dst_i].data {
            AccountData::Tok(t) => *t,
            AccountData::Rec(_) => {
                return Err(EscrowError::TransferFailed);
            },
        };
        if !src.owner.eq_addr(authority) {
            return Err(EscrowError::TransferFailed);
        }
        if !src.mint.eq_addr(&dst.mint) {
            return Err(EscrowError::TransferFailed);
        }
        if src.balance < amount {
            return Err(EscrowError::TransferFailed);
        }
        if source.eq_addr(dest) {
            return Ok(());
        }
        if dst.balance > u64::MAX - amount {
            return Err(EscrowError::TransferFailed);
        }
        let ghost s0 = self.entries@;
        let new_src = AccountEntry {
            address: self.entries[src_i].address,
            data: AccountData::Tok(
                TokenAccount { mint: src.mint, owner: src.owner, balance: src.balance - amount },
            ),
        };
        self.entries[src_i] = new_src;
        proof {
            lemma_distinct_update(s0, src_i as int, new_src);
            lemma_map_of_update(s0, src_i as int, new_src);
        }
        let ghost s1 = self.entries@;
        let new_dst = AccountEntry {
            address: self.entries[dst_i].address,
            data: AccountData::Tok(
                TokenAccount { mint: dst.mint, owner: dst.owner, balance: dst.balance + amount },
            ),
        };
        self.entries[dst_i] = new_dst;
        proof {
            assert(s1[dst_i as int].address@ == dest@);
            lemma_distinct_update(s1, dst_i as int, new_dst);
            lemma_map_of_update(s1, dst_i as int, new_dst);
        }
        Ok(())
    }
}

} // verus!
