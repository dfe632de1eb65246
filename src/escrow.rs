use vstd::prelude::*;
use crate::key::Key;
use crate::holding::{Holding, share, supply, lemma_supply_update, lemma_supply_push};
use crate::authority::{escrow_authority_of, derive_escrow_authority};

verus! {

/// Where an offer stands: open, or resolved one way or the other.
#[derive(PartialEq, Eq, Structural, Clone, Copy, Debug)]
pub enum EscrowState {
    Open,
    Settled,
    Cancelled,
}

/// Why an instruction was rejected. A rejected instruction changes nothing.
#[derive(PartialEq, Eq, Structural, Clone, Copy, Debug)]
pub enum EscrowError {
    /// The offered amount is zero.
    ZeroAmount,
    /// A holding reference names no open holding.
    UnknownHolding,
    /// A holding holds another asset type than the one required.
    MintMismatch,
    /// A holding is not owned by the party it has to belong to.
    OwnerMismatch,
    /// The vault given is not the one the record refers to.
    VaultMismatch,
    /// Holdings that must be distinct were given twice.
    SameHolding,
    /// The signer is not the record's seller, or is itself a derived authority.
    Unauthorized,
    /// Re-deriving the escrow authority does not reproduce the stored one.
    AuthorityMismatch,
    /// No escrow authority can be derived for the seller.
    DerivationFailed,
    /// The seller already has an open offer.
    AlreadyExists,
    /// The record does not exist or is already settled or cancelled.
    NotOpen,
    /// The paying holding holds less than the amount to move.
    InsufficientFunds,
    /// A receiving balance would exceed the largest representable amount.
    Overflow,
}

/// One offer: `escrowed_x_tokens` is the vault, `y_mint` and `y_amount` what
/// the seller (`authority`) wants for it, `address` and `bump` the derived
/// escrow authority that controls the vault.
#[derive(Clone, Copy, Debug)]
pub struct Escrow {
    pub authority: Key,
    pub bump: u8,
    pub escrowed_x_tokens: usize,
    pub y_mint: Key,
    pub y_amount: u64,
    pub address: Key,
    pub state: EscrowState,
}

/// The asset holdings and offer records of one program instance.
pub struct Ledger {
    pub program_id: Key,
    pub holdings: Vec<Holding>,
    pub escrows: Vec<Escrow>,
}

/// The accounts of Initialize: the signing seller, the asset it offers and
/// the one it wants, and the seller's holding of the offered asset.
#[derive(Clone, Copy, Debug)]
pub struct Initialize {
    pub seller: Key,
    pub x_mint: Key,
    pub y_mint: Key,
    pub seller_x_token: usize,
}

/// The accounts of Accept: the signing buyer, the offer and its vault, the
/// seller's holding that is paid, and the buyer's holdings that receive and
/// pay.
#[derive(Clone, Copy, Debug)]
pub struct Accept {
    pub buyer: Key,
    pub escrow: usize,
    pub escrowed_x_tokens: usize,
    pub sellers_y_tokens: usize,
    pub buyer_x_tokens: usize,
    pub buyer_y_tokens: usize,
}

/// The accounts of Cancel: the signing seller, the offer and its vault, and
/// the seller's holding that gets the deposit back.
#[derive(Clone, Copy, Debug)]
pub struct Cancel {
    pub seller: Key,
    pub escrow: usize,
    pub escrowed_x_tokens: usize,
    pub seller_x_token: usize,
}

/// One instruction with its arguments.
#[derive(Clone, Copy, Debug)]
pub enum Instruction {
    Initialize { accounts: Initialize, x_amount: u64, y_amount: u64 },
    Accept { accounts: Accept },
    Cancel { accounts: Cancel },
}

/// What a call of Initialize on `before` returning `r` leaves in `after`.
pub open spec fn initialize_post(
    before: Ledger,
    after: Ledger,
    a: Initialize,
    x_amount: u64,
    y_amount: u64,
    r: Result<(), EscrowError>,
) -> bool {
    &&& (r == before.initialize_outcome(a.seller@, a.x_mint@, a.seller_x_token as int, x_amount))
    &&& (r is Err ==> after.holdings@ == before.holdings@ && after.escrows@
            == before.escrows@)
    &&& (r is Ok ==> {
            let hs = before.holdings@;
            let vault = hs.len() as int;
            let (address, bump) = escrow_authority_of(a.seller@, before.program_id@)->0;
            &&& after.holdings@.len() == vault + 1
            &&& after.holdings@[a.seller_x_token as int].amount == hs[a.seller_x_token as int].amount - x_amount
            &&& after.holdings@[vault].amount == x_amount
            &&& after.holdings@[vault].mint@ == a.x_mint@
            &&& after.holdings@[vault].owner@ == address
            &&& after.holdings@[vault].open
            &&& forall|i: int| 0 <= i < vault && i != a.seller_x_token
                ==> after.holdings@[i] == #[trigger] hs[i]
            &&& after.escrows@.len() == before.escrows@.len() + 1
            &&& forall|i: int| 0 <= i < before.escrows@.len()
                ==> after.escrows@[i] == #[trigger] before.escrows@[i]
            &&& {
                let e = after.escrows@.last();
                &&& e.authority@ == a.seller@
                &&& e.bump == bump
                &&& e.address@ == address
                &&& e.escrowed_x_tokens == vault
                &&& e.y_mint@ == a.y_mint@
                &&& e.y_amount == y_amount
                &&& e.state == EscrowState::Open
            }
            &&& forall|m: Seq<u8>| supply(after.holdings@, m) == #[trigger] supply(hs, m)
        })
}

/// What a call of Accept on `before` returning `r` leaves in `after`.
pub open spec fn accept_post(
    before: Ledger,
    after: Ledger,
    a: Accept,
    r: Result<(), EscrowError>,
) -> bool {
    &&& (r == before.accept_outcome(
            a.buyer@,
            a.escrow as int,
            a.escrowed_x_tokens as int,
            a.sellers_y_tokens as int,
            a.buyer_x_tokens as int,
            a.buyer_y_tokens as int,
        ))
    &&& (r is Err ==> after.holdings@ == before.holdings@ && after.escrows@
            == before.escrows@)
    &&& (r is Ok ==> {
            &&& after.holdings@ == before.accepted_holdings(
                a.escrow as int,
                a.escrowed_x_tokens as int,
                a.sellers_y_tokens as int,
                a.buyer_x_tokens as int,
                a.buyer_y_tokens as int,
            )
            &&& after.escrows@ == before.escrows@.update(
                a.escrow as int,
                with_state(before.escrows@[a.escrow as int], EscrowState::Settled),
            )
            &&& forall|m: Seq<u8>| supply(after.holdings@, m) == #[trigger] supply(
                before.holdings@,
                m,
            )
        })
}

/// What a call of Cancel on `before` returning `r` leaves in `after`.
pub open spec fn cancel_post(
    before: Ledger,
    after: Ledger,
    a: Cancel,
    r: Result<(), EscrowError>,
) -> bool {
    &&& (r == before.cancel_outcome(
            a.seller@,
            a.escrow as int,
            a.escrowed_x_tokens as int,
            a.seller_x_token as int,
        ))
    &&& (r is Err ==> after.holdings@ == before.holdings@ && after.escrows@
            == before.escrows@)
    &&& (r is Ok ==> {
            &&& after.holdings@ == before.cancelled_holdings(
                a.escrowed_x_tokens as int,
                a.seller_x_token as int,
            )
            &&& after.escrows@ == before.escrows@.update(
                a.escrow as int,
                with_state(before.escrows@[a.escrow as int], EscrowState::Cancelled),
            )
            &&& forall|m: Seq<u8>| supply(after.holdings@, m) == #[trigger] supply(
                before.holdings@,
                m,
            )
        })
}

pub open spec fn is_open(e: Escrow) -> bool {
    e.state == EscrowState::Open
}

/// Some open offer of `es` was made by `seller`.
pub open spec fn has_open_offer(es: Seq<Escrow>, seller: Seq<u8>) -> bool {
    exists|i: int| 0 <= i < es.len() && is_open(#[trigger] es[i]) && es[i].authority@ == seller
}

/// `k` is the escrow authority of some open offer of `es`.
pub open spec fn is_escrow_authority(es: Seq<Escrow>, k: Seq<u8>) -> bool {
    exists|i: int| 0 <= i < es.len() && is_open(#[trigger] es[i]) && es[i].address@ == k
}

/// `h` with its balance replaced by `a`.
pub open spec fn with_amount(h: Holding, a: u64) -> Holding {
    Holding { amount: a, ..h }
}

/// `e` moved to state `s`.
pub open spec fn with_state(e: Escrow, s: EscrowState) -> Escrow {
    Escrow { state: s, ..e }
}

/// Holding `i` of `hs` exists and is open.
pub open spec fn live(hs: Seq<Holding>, i: int) -> bool {
    0 <= i < hs.len() && hs[i].open
}

impl Ledger {
    /// The vault of offer `e` exists, is open and is controlled by the
    /// authority derived from the offer's seller.
    pub open spec fn vault_controlled(&self, e: Escrow) -> bool {
        &&& live(self.holdings@, e.escrowed_x_tokens as int)
        &&& self.holdings@[e.escrowed_x_tokens as int].owner@ == e.address@
        &&& escrow_authority_of(e.authority@, self.program_id@) == Some((e.address@, e.bump))
    }

    pub open spec fn wf(&self) -> bool {
        &&& forall|i: int|
            0 <= i < self.escrows@.len() && is_open(#[trigger] self.escrows@[i])
                ==> self.vault_controlled(self.escrows@[i])
        &&& forall|i: int, j: int|
            0 <= i < self.escrows@.len() && 0 <= j < self.escrows@.len() && i != j
                && is_open(#[trigger] self.escrows@[i]) && is_open(#[trigger] self.escrows@[j])
                ==> self.escrows@[i].authority@ != self.escrows@[j].authority@
                && self.escrows@[i].escrowed_x_tokens != self.escrows@[j].escrowed_x_tokens
    }

    /// The answer Initialize owes on these arguments: the first failed check,
    /// or success.
    pub open spec fn initialize_outcome(
        &self,
        seller: Seq<u8>,
        x_mint: Seq<u8>,
        seller_x_token: int,
        x_amount: u64,
    ) -> Result<(), EscrowError> {
        let hs = self.holdings@;
        if has_open_offer(self.escrows@, seller) {
            Err(EscrowError::AlreadyExists)
        } else if x_amount == 0 {
            Err(EscrowError::ZeroAmount)
        } else if !live(hs, seller_x_token) {
            Err(EscrowError::UnknownHolding)
        } else if is_escrow_authority(self.escrows@, seller) {
            Err(EscrowError::Unauthorized)
        } else if hs[seller_x_token].owner@ != seller {
            Err(EscrowError::OwnerMismatch)
        } else if hs[seller_x_token].mint@ != x_mint {
            Err(EscrowError::MintMismatch)
        } else if hs[seller_x_token].amount < x_amount {
            Err(EscrowError::InsufficientFunds)
        } else if escrow_authority_of(seller, self.program_id@) is None {
            Err(EscrowError::DerivationFailed)
        } else {
            Ok(())
        }
    }

    /// The answer Accept owes on these arguments.
    pub open spec fn accept_outcome(
        &self,
        buyer: Seq<u8>,
        escrow: int,
        vault: int,
        sellers_y_tokens: int,
        buyer_x_tokens: int,
        buyer_y_tokens: int,
    ) -> Result<(), EscrowError> {
        let hs = self.holdings@;
        let es = self.escrows@;
        if !(0 <= escrow < es.len()) || !is_open(es[escrow]) {
            Err(EscrowError::NotOpen)
        } else if escrow_authority_of(es[escrow].authority@, self.program_id@) != Some(
            (es[escrow].address@, es[escrow].bump),
        ) {
            Err(EscrowError::AuthorityMismatch)
        } else if vault != es[escrow].escrowed_x_tokens {
            Err(EscrowError::VaultMismatch)
        } else if !live(hs, vault) || !live(hs, sellers_y_tokens) || !live(hs, buyer_x_tokens)
            || !live(hs, buyer_y_tokens) {
            Err(EscrowError::UnknownHolding)
        } else if is_escrow_authority(es, buyer) {
            Err(EscrowError::Unauthorized)
        } else if hs[sellers_y_tokens].mint@ != es[escrow].y_mint@ || hs[buyer_y_tokens].mint@
            != es[escrow].y_mint@ || hs[buyer_x_tokens].mint@ != hs[vault].mint@ {
            Err(EscrowError::MintMismatch)
        } else if hs[sellers_y_tokens].owner@ != es[escrow].authority@ || hs[buyer_x_tokens].owner@
            != buyer || hs[buyer_y_tokens].owner@ != buyer {
            Err(EscrowError::OwnerMismatch)
        } else if vault == sellers_y_tokens || vault == buyer_x_tokens || vault == buyer_y_tokens
            || sellers_y_tokens == buyer_x_tokens || sellers_y_tokens == buyer_y_tokens
            || buyer_x_tokens == buyer_y_tokens {
            Err(EscrowError::SameHolding)
        } else if hs[buyer_y_tokens].amount < es[escrow].y_amount {
            Err(EscrowError::InsufficientFunds)
        } else if hs[buyer_x_tokens].amount + hs[vault].amount > u64::MAX
            || hs[sellers_y_tokens].amount + es[escrow].y_amount > u64::MAX {
            Err(EscrowError::Overflow)
        } else {
            Ok(())
        }
    }

    /// The holdings after a successful Accept: the vault's whole balance goes
    /// to the buyer, the asked amount from the buyer to the seller.
    pub open spec fn accepted_holdings(
        &self,
        escrow: int,
        vault: int,
        sellers_y_tokens: int,
        buyer_x_tokens: int,
        buyer_y_tokens: int,
    ) -> Seq<Holding> {
        let hs = self.holdings@;
        let v = hs[vault].amount;
        let y = self.escrows@[escrow].y_amount;
        hs.update(vault, with_amount(hs[vault], 0)).update(
            buyer_x_tokens,
            with_amount(hs[buyer_x_tokens], (hs[buyer_x_tokens].amount + v) as u64),
        ).update(buyer_y_tokens, with_amount(hs[buyer_y_tokens], (hs[buyer_y_tokens].amount - y) as u64)).update(
            sellers_y_tokens,
            with_amount(hs[sellers_y_tokens], (hs[sellers_y_tokens].amount + y) as u64),
        )
    }

    /// The answer Cancel owes on these arguments.
    pub open spec fn cancel_outcome(
        &self,
        seller: Seq<u8>,
        escrow: int,
        vault: int,
        seller_x_token: int,
    ) -> Result<(), EscrowError> {
        let hs = self.holdings@;
        let es = self.escrows@;
        if !(0 <= escrow < es.len()) || !is_open(es[escrow]) {
            Err(EscrowError::NotOpen)
        } else if es[escrow].authority@ != seller {
            Err(EscrowError::Unauthorized)
        } else if escrow_authority_of(es[escrow].authority@, self.program_id@) != Some(
            (es[escrow].address@, es[escrow].bump),
        ) {
            Err(EscrowError::AuthorityMismatch)
        } else if vault != es[escrow].escrowed_x_tokens {
            Err(EscrowError::VaultMismatch)
        } else if !live(hs, vault) || !live(hs, seller_x_token) {
            Err(EscrowError::UnknownHolding)
        } else if hs[seller_x_token].mint@ != hs[vault].mint@ {
            Err(EscrowError::MintMismatch)
        } else if hs[seller_x_token].owner@ != seller {
            Err(EscrowError::OwnerMismatch)
        } else if seller_x_token == vault {
            Err(EscrowError::SameHolding)
        } else if hs[seller_x_token].amount + hs[vault].amount > u64::MAX {
            Err(EscrowError::Overflow)
        } else {
            Ok(())
        }
    }

    /// The holdings after a successful Cancel: the vault's balance returns to
    /// the seller and the vault is closed.
    pub open spec fn cancelled_holdings(&self, vault: int, seller_x_token: int) -> Seq<Holding> {
        let hs = self.holdings@;
        hs.update(
            seller_x_token,
            with_amount(hs[seller_x_token], (hs[seller_x_token].amount + hs[vault].amount) as u64),
        ).update(vault, Holding { amount: 0, open: false, ..hs[vault] })
    }

    /// An empty ledger for the program `program_id`.
    pub fn new(program_id: Key) -> (r: Ledger)
        ensures
            r.wf(),
            r.program_id@ == program_id@,
            r.holdings@.len() == 0,
            r.escrows@.len() == 0,
    {
        Ledger { program_id, holdings: Vec::new(), escrows: Vec::new() }
    }

    /// Opens a holding of `mint` for `owner` with `amount` in it and returns
    /// its reference. Offers and other holdings are untouched.
    pub fn create_holding(&mut self, mint: Key, owner: Key, amount: u64) -> (r: usize)
        requires
            old(self).wf(),
        ensures
            final(self).wf(),
            r == old(self).holdings@.len(),
            final(self).holdings@ == old(self).holdings@.push(
                Holding { mint, owner, amount, open: true },
            ),
            final(self).escrows@ == old(self).escrows@,
            final(self).program_id == old(self).program_id,
    {
        let r = self.holdings.len();
        self.holdings.push(Holding { mint, owner, amount, open: true });
        r
    }

    /// Whether `seller` has an open offer.
    fn find_open_offer(&self, seller: &Key) -> (r: bool)
        ensures
            r == has_open_offer(self.escrows@, seller@),
    {
        let mut i: usize = 0;
        while i < self.escrows.len()
            invariant
                0 <= i <= self.escrows@.len(),
                forall|j: int|
                    0 <= j < i ==> !(is_open(#[trigger] self.escrows@[j])
                        && self.escrows@[j].authority@ == seller@),
            decreases self.escrows@.len() - i,
        {
            let e = &self.escrows[i];
            if e.state == EscrowState::Open && e.authority.same(seller) {
                return true;
            }
            i = i + 1;
        }
        false
    }

    /// Whether `k` is the escrow authority of an open offer.
    fn find_escrow_authority(&self, k: &Key) -> (r: bool)
        ensures
            r == is_escrow_authority(self.escrows@, k@),
    {
        let mut i: usize = 0;
        while i < self.escrows.len()
            invariant
                0 <= i <= self.escrows@.len(),
                forall|j: int|
                    0 <= j < i ==> !(is_open(#[trigger] self.escrows@[j])
                        && self.escrows@[j].address@ == k@),
            decreases self.escrows@.len() - i,
        {
            let e = &self.escrows[i];
            if e.state == EscrowState::Open && e.address.same(k) {
                return true;
            }
            i = i + 1;
        }
        false
    }

    /// The seller `a.seller` locks `x_amount` of `a.x_mint` from its holding
    /// `a.seller_x_token` in a fresh vault controlled by its escrow authority,
    /// asking `y_amount` of `a.y_mint` in return. On success the vault is the
    /// new last holding and the offer the new last record.
    pub fn initialize(
        &mut self,
        a: &Initialize,
        x_amount: u64,
        y_amount: u64,
    ) -> (r: Result<(), EscrowError>)
        requires
            old(self).wf(),
        ensures
            final(self).wf(),
            final(self).program_id == old(self).program_id,
            initialize_post(*old(self), *final(self), *a, x_amount, y_amount, r),
    {
        let seller = &a.seller;
        let x_mint = &a.x_mint;
        let y_mint = &a.y_mint;
        let seller_x_token = a.seller_x_token;
        if self.find_open_offer(seller) {
            return Err(EscrowError::AlreadyExists);
        }
        if x_amount == 0 {
            return Err(EscrowError::ZeroAmount);
        }
        if seller_x_token >= self.holdings.len() || !self.holdings[seller_x_token].open {
            return Err(EscrowError::UnknownHolding);
        }
        if self.find_escrow_authority(seller) {
            return Err(EscrowError::Unauthorized);
        }
        let src = self.holdings[seller_x_token];
        if !src.owner.same(seller) {
            return Err(EscrowError::OwnerMismatch);
        }
        if !src.mint.same(x_mint) {
            return Err(EscrowError::MintMismatch);
        }
        if src.amount < x_amount {
            return Err(EscrowError::InsufficientFunds);
        }
        let derived = derive_escrow_authority(seller, &self.program_id);
        let (address, bump) = match derived {
            Some(d) => d,
            None => {
                return Err(EscrowError::DerivationFailed);
            },
        };
        let ghost hs0 = self.holdings@;
        let ghost es0 = self.escrows@;
        let vault = self.holdings.len();
        let debited = Holding { amount: src.amount - x_amount, ..src };
        self.holdings.set(seller_x_token, debited);
        let locked = Holding { mint: *x_mint, owner: address, amount: x_amount, open: true };
        self.holdings.push(locked);
        let e = Escrow {
            authority: *seller,
            bump,
            escrowed_x_tokens: vault,
            y_mint: *y_mint,
            y_amount,
            address,
            state: EscrowState::Open,
        };
        self.escrows.push(e);
        proof {
            assert forall|m: Seq<u8>| supply(self.holdings@, m) == #[trigger] supply(hs0, m) by {
                lemma_supply_update(hs0, seller_x_token as int, debited, m);
                lemma_supply_push(hs0.update(seller_x_token as int, debited), locked, m);
                assert(share(debited, m) + share(locked, m) == share(src, m));
            }
            assert forall|i: int|
                0 <= i < self.escrows@.len() && is_open(#[trigger] self.escrows@[i])
                implies self.vault_controlled(self.escrows@[i]) by {
                if i < es0.len() {
                    assert(is_open(es0[i]));
                }
            }
            assert forall|i: int, j: int|
                0 <= i < self.escrows@.len() && 0 <= j < self.escrows@.len() && i != j
                && is_open(#[trigger] self.escrows@[i]) && is_open(#[trigger] self.escrows@[j])
                implies self.escrows@[i].authority@ != self.escrows@[j].authority@
                && self.escrows@[i].escrowed_x_tokens != self.escrows@[j].escrowed_x_tokens by {
                if i < es0.len() {
                    assert(is_open(es0[i]));
                }
                if j < es0.len() {
                    assert(is_open(es0[j]));
                }
            }
        }
        Ok(())
    }

    /// Whether vault `v` belongs to an open offer.
    fn vault_in_use(&self, v: usize) -> (r: bool)
        ensures
            r == exists|i: int|
                0 <= i < self.escrows@.len() && is_open(#[trigger] self.escrows@[i])
                    && self.escrows@[i].escrowed_x_tokens == v,
    {
        let mut i: usize = 0;
        while i < self.escrows.len()
            invariant
                0 <= i <= self.escrows@.len(),
                forall|j: int|
                    0 <= j < i ==> !(is_open(#[trigger] self.escrows@[j])
                        && self.escrows@[j].escrowed_x_tokens == v),
            decreases self.escrows@.len() - i,
        {
            if self.escrows[i].state == EscrowState::Open && self.escrows[i].escrowed_x_tokens == v {
                return true;
            }
            i = i + 1;
        }
        false
    }

    /// Brings an offer that was stored elsewhere back into this ledger, after
    /// checking what every open offer must satisfy: its vault is an open
    /// holding of no other offer, controlled by the authority re-derived from
    /// its seller, and the seller has no other open offer. A resolved offer is
    /// taken as it is.
    pub fn restore_offer(&mut self, e: Escrow) -> (r: Result<(), EscrowError>)
        requires
            old(self).wf(),
        ensures
            final(self).wf(),
            final(self).program_id == old(self).program_id,
            final(self).holdings@ == old(self).holdings@,
            r == (if !is_open(e) {
                Ok::<(), EscrowError>(())
            } else if has_open_offer(old(self).escrows@, e.authority@) {
                Err(EscrowError::AlreadyExists)
            } else if !live(old(self).holdings@, e.escrowed_x_tokens as int) {
                Err(EscrowError::UnknownHolding)
            } else if exists|i: int|
                0 <= i < old(self).escrows@.len() && is_open(#[trigger] old(self).escrows@[i])
                    && old(self).escrows@[i].escrowed_x_tokens == e.escrowed_x_tokens {
                Err(EscrowError::VaultMismatch)
            } else if escrow_authority_of(e.authority@, old(self).program_id@) != Some(
                (e.address@, e.bump),
            ) {
                Err(EscrowError::AuthorityMismatch)
            } else if old(self).holdings@[e.escrowed_x_tokens as int].owner@ != e.address@ {
                Err(EscrowError::OwnerMismatch)
            } else {
                Ok(())
            }),
            r is Ok ==> final(self).escrows@ == old(self).escrows@.push(e),
            r is Err ==> final(self).escrows@ == old(self).escrows@,
    {
        if e.state == EscrowState::Open {
            if self.find_open_offer(&e.authority) {
                return Err(EscrowError::AlreadyExists);
            }
            let v = e.escrowed_x_tokens;
            if v >= self.holdings.len() || !self.holdings[v].open {
                return Err(EscrowError::UnknownHolding);
            }
            if self.vault_in_use(v) {
                return Err(EscrowError::VaultMismatch);
            }
            if !self.rederives(&e) {
                return Err(EscrowError::AuthorityMismatch);
            }
            if !self.holdings[v].owner.same(&e.address) {
                return Err(EscrowError::OwnerMismatch);
            }
        }
        let ghost es0 = self.escrows@;
        self.escrows.push(e);
        proof {
            assert forall|i: int|
                0 <= i < self.escrows@.len() && is_open(#[trigger] self.escrows@[i])
                implies self.vault_controlled(self.escrows@[i]) by {
                if i < es0.len() {
                    assert(is_open(es0[i]));
                }
            }
            assert forall|i: int, j: int|
                0 <= i < self.escrows@.len() && 0 <= j < self.escrows@.len() && i != j
                && is_open(#[trigger] self.escrows@[i]) && is_open(#[trigger] self.escrows@[j])
                implies self.escrows@[i].authority@ != self.escrows@[j].authority@
                && self.escrows@[i].escrowed_x_tokens != self.escrows@[j].escrowed_x_tokens by {
                if i < es0.len() {
                    assert(is_open(es0[i]));
                }
                if j < es0.len() {
                    assert(is_open(es0[j]));
                }
            }
        }
        Ok(())
    }

    /// Whether re-deriving the escrow authority of `e`'s seller reproduces the
    /// stored address and bump.
    fn rederives(&self, e: &Escrow) -> (r: bool)
        ensures
            r == (escrow_authority_of(e.authority@, self.program_id@) == Some((e.address@, e.bump))),
    {
        match derive_escrow_authority(&e.authority, &self.program_id) {
            Some((a, b)) => a.same(&e.address) && b == e.bump,
            None => false,
        }
    }

    /// The buyer `a.buyer` takes offer `a.escrow`: the whole balance of its
    /// vault goes to `a.buyer_x_tokens`, moved by the re-derived escrow
    /// authority, and the asked amount goes from `a.buyer_y_tokens` to the
    /// seller's `a.sellers_y_tokens`, moved by the buyer. Both transfers happen or
    /// neither, and the offer is settled.
    pub fn accept(&mut self, a: &Accept) -> (r: Result<(), EscrowError>)
        requires
            old(self).wf(),
        ensures
            final(self).wf(),
            final(self).program_id == old(self).program_id,
            accept_post(*old(self), *final(self), *a, r),
    {
        let buyer = &a.buyer;
        let escrow = a.escrow;
        let escrowed_x_tokens = a.escrowed_x_tokens;
        let sellers_y_tokens = a.sellers_y_tokens;
        let buyer_x_tokens = a.buyer_x_tokens;
        let buyer_y_tokens = a.buyer_y_tokens;
        if escrow >= self.escrows.len() || self.escrows[escrow].state != EscrowState::Open {
            return Err(EscrowError::NotOpen);
        }
        let e = self.escrows[escrow];
        if !self.rederives(&e) {
            return Err(EscrowError::AuthorityMismatch);
        }
        let vault = escrowed_x_tokens;
        if vault != e.escrowed_x_tokens {
            return Err(EscrowError::VaultMismatch);
        }
        let n = self.holdings.len();
        if vault >= n || !self.holdings[vault].open || sellers_y_tokens >= n
            || !self.holdings[sellers_y_tokens].open || buyer_x_tokens >= n
            || !self.holdings[buyer_x_tokens].open || buyer_y_tokens >= n
            || !self.holdings[buyer_y_tokens].open {
            return Err(EscrowError::UnknownHolding);
        }
        if self.find_escrow_authority(buyer) {
            return Err(EscrowError::Unauthorized);
        }
        let hv = self.holdings[vault];
        let hsy = self.holdings[sellers_y_tokens];
        let hbx = self.holdings[buyer_x_tokens];
        let hby = self.holdings[buyer_y_tokens];
        if !hsy.mint.same(&e.y_mint) || !hby.mint.same(&e.y_mint) || !hbx.mint.same(&hv.mint) {
            return Err(EscrowError::MintMismatch);
        }
        if !hsy.owner.same(&e.authority) || !hbx.owner.same(buyer) || !hby.owner.same(buyer) {
            return Err(EscrowError::OwnerMismatch);
        }
        if vault == sellers_y_tokens || vault == buyer_x_tokens || vault == buyer_y_tokens
            || sellers_y_tokens == buyer_x_tokens || sellers_y_tokens == buyer_y_tokens
            || buyer_x_tokens == buyer_y_tokens {
            return Err(EscrowError::SameHolding);
        }
        if hby.amount < e.y_amount {
            return Err(EscrowError::InsufficientFunds);
        }
        if hv.amount > u64::MAX - hbx.amount || e.y_amount > u64::MAX - hsy.amount {
            return Err(EscrowError::Overflow);
        }
        let ghost old_self = *self;
        let ghost h0 = self.holdings@;
        let emptied = Holding { amount: 0, ..hv };
        let received = Holding { amount: hbx.amount + hv.amount, ..hbx };
        let paid = Holding { amount: hby.amount - e.y_amount, ..hby };
        let earned = Holding { amount: hsy.amount + e.y_amount, ..hsy };
        self.holdings.set(vault, emptied);
        let ghost h1 = self.holdings@;
        self.holdings.set(buyer_x_tokens, received);
        let ghost h2 = self.holdings@;
        self.holdings.set(buyer_y_tokens, paid);
        let ghost h3 = self.holdings@;
        self.holdings.set(sellers_y_tokens, earned);
        let settled = Escrow { state: EscrowState::Settled, ..e };
        self.escrows.set(escrow, settled);
        proof {
            assert forall|m: Seq<u8>| supply(self.holdings@, m) == #[trigger] supply(h0, m) by {
                lemma_supply_update(h0, vault as int, emptied, m);
                lemma_supply_update(h1, buyer_x_tokens as int, received, m);
                lemma_supply_update(h2, buyer_y_tokens as int, paid, m);
                lemma_supply_update(h3, sellers_y_tokens as int, earned, m);
            }
            self.lemma_settle_keeps_wf(old_self, escrow as int);
        }
        Ok(())
    }

    /// Cancels offer `a.escrow` at its seller's request: the vault's whole
    /// balance returns to `a.seller_x_token`, moved by the re-derived escrow
    /// authority, the vault is closed and the offer is cancelled.
    pub fn cancel(&mut self, a: &Cancel) -> (r: Result<(), EscrowError>)
        requires
            old(self).wf(),
        ensures
            final(self).wf(),
            final(self).program_id == old(self).program_id,
            cancel_post(*old(self), *final(self), *a, r),
    {
        let seller = &a.seller;
        let escrow = a.escrow;
        let escrowed_x_tokens = a.escrowed_x_tokens;
        let seller_x_token = a.seller_x_token;
        if escrow >= self.escrows.len() || self.escrows[escrow].state != EscrowState::Open {
            return Err(EscrowError::NotOpen);
        }
        let e = self.escrows[escrow];
        if !e.authority.same(seller) {
            return Err(EscrowError::Unauthorized);
        }
        if !self.rederives(&e) {
            return Err(EscrowError::AuthorityMismatch);
        }
        let vault = escrowed_x_tokens;
        if vault != e.escrowed_x_tokens {
            return Err(EscrowError::VaultMismatch);
        }
        let n = self.holdings.len();
        if vault >= n || !self.holdings[vault].open || seller_x_token >= n
            || !self.holdings[seller_x_token].open {
            return Err(EscrowError::UnknownHolding);
        }
        let hv = self.holdings[vault];
        let hsx = self.holdings[seller_x_token];
        if !hsx.mint.same(&hv.mint) {
            return Err(EscrowError::MintMismatch);
        }
        if !hsx.owner.same(seller) {
            return Err(EscrowError::OwnerMismatch);
        }
        if seller_x_token == vault {
            return Err(EscrowError::SameHolding);
        }
        if hv.amount > u64::MAX - hsx.amount {
            return Err(EscrowError::Overflow);
        }
        let ghost old_self = *self;
        let ghost h0 = self.holdings@;
        let returned = Holding { amount: hsx.amount + hv.amount, ..hsx };
        let closed = Holding { amount: 0, open: false, ..hv };
        self.holdings.set(seller_x_token, returned);
        let ghost h1 = self.holdings@;
        self.holdings.set(vault, closed);
        let cancelled = Escrow { state: EscrowState::Cancelled, ..e };
        self.escrows.set(escrow, cancelled);
        proof {
            assert forall|m: Seq<u8>| supply(self.holdings@, m) == #[trigger] supply(h0, m) by {
                lemma_supply_update(h0, seller_x_token as int, returned, m);
                lemma_supply_update(h1, vault as int, closed, m);
            }
            self.lemma_settle_keeps_wf(old_self, escrow as int);
        }
        Ok(())
    }

    /// Runs one instruction.
    pub fn process(&mut self, ix: &Instruction) -> (r: Result<(), EscrowError>)
        requires
            old(self).wf(),
        ensures
            final(self).wf(),
            final(self).program_id == old(self).program_id,
            match *ix {
                Instruction::Initialize { accounts, x_amount, y_amount } => initialize_post(
                    *old(self),
                    *final(self),
                    accounts,
                    x_amount,
                    y_amount,
                    r,
                ),
                Instruction::Accept { accounts } => accept_post(*old(self), *final(self), accounts, r),
                Instruction::Cancel { accounts } => cancel_post(*old(self), *final(self), accounts, r),
            },
    {
        match ix {
            Instruction::Initialize { accounts, x_amount, y_amount } => self.initialize(
                accounts,
                *x_amount,
                *y_amount,
            ),
            Instruction::Accept { accounts } => self.accept(accounts),
            Instruction::Cancel { accounts } => self.cancel(accounts),
        }
    }

    /// Resolving open offer `k` keeps the ledger well formed, when no other
    /// open offer's vault was closed or changed hands.
    proof fn lemma_settle_keeps_wf(&self, prev: Ledger, k: int)
        requires
            prev.wf(),
            0 <= k < prev.escrows@.len(),
            is_open(prev.escrows@[k]),
            self.program_id == prev.program_id,
            self.holdings@.len() == prev.holdings@.len(),
            self.escrows@.len() == prev.escrows@.len(),
            !is_open(self.escrows@[k]),
            forall|i: int|
                0 <= i < self.escrows@.len() && i != k ==> self.escrows@[i] == #[trigger] prev.escrows@[i],
            forall|i: int|
                0 <= i < self.holdings@.len() && i != prev.escrows@[k].escrowed_x_tokens
                    ==> (#[trigger] self.holdings@[i]).open == prev.holdings@[i].open
                    && self.holdings@[i].owner == prev.holdings@[i].owner,
        ensures
            self.wf(),
    {
        assert forall|i: int|
            0 <= i < self.escrows@.len() && is_open(#[trigger] self.escrows@[i])
            implies self.vault_controlled(self.escrows@[i]) by {
            assert(is_open(prev.escrows@[i]));
            assert(i != k);
            let v = prev.escrows@[i].escrowed_x_tokens as int;
            assert(self.holdings@[v].open == prev.holdings@[v].open);
        }
        assert forall|i: int, j: int|
            0 <= i < self.escrows@.len() && 0 <= j < self.escrows@.len() && i != j
            && is_open(#[trigger] self.escrows@[i]) && is_open(#[trigger] self.escrows@[j])
            implies self.escrows@[i].authority@ != self.escrows@[j].authority@
            && self.escrows@[i].escrowed_x_tokens != self.escrows@[j].escrowed_x_tokens by {
            assert(is_open(prev.escrows@[i]));
            assert(is_open(prev.escrows@[j]));
        }
    }
}

} // verus!
