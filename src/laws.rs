use vstd::prelude::*;
use crate::escrow::{Ledger, EscrowError, EscrowState, is_open, has_open_offer, is_escrow_authority};
use crate::authority::escrow_authority_of;

verus! {

/// A successful Accept pays the buyer the vault's whole balance and the seller
/// exactly the asked amount, taken from the buyer's payment holding; nothing
/// else changes.
pub proof fn lemma_accept_swaps(
    l: Ledger,
    buyer: Seq<u8>,
    escrow: int,
    vault: int,
    sellers_y_tokens: int,
    buyer_x_tokens: int,
    buyer_y_tokens: int,
)
    requires
        l.wf(),
        l.accept_outcome(buyer, escrow, vault, sellers_y_tokens, buyer_x_tokens, buyer_y_tokens) is Ok,
    ensures
        ({
            let hs = l.holdings@;
            let after = l.accepted_holdings(escrow, vault, sellers_y_tokens, buyer_x_tokens, buyer_y_tokens);
            let y = l.escrows@[escrow].y_amount;
            &&& after.len() == hs.len()
            &&& after[buyer_x_tokens].amount == hs[buyer_x_tokens].amount + hs[vault].amount
            &&& after[vault].amount == 0
            &&& after[sellers_y_tokens].amount == hs[sellers_y_tokens].amount + y
            &&& after[buyer_y_tokens].amount == hs[buyer_y_tokens].amount - y
            &&& after[sellers_y_tokens].owner@ == l.escrows@[escrow].authority@
            &&& after[buyer_x_tokens].owner@ == buyer
            &&& after[buyer_y_tokens].owner@ == buyer
            &&& forall|i: int|
                0 <= i < hs.len() && i != vault && i != sellers_y_tokens && i != buyer_x_tokens
                    && i != buyer_y_tokens ==> #[trigger] after[i] == hs[i]
        }),
{
}

/// A successful Cancel returns the vault's whole balance to the seller and
/// closes the vault; nothing else changes.
pub proof fn lemma_cancel_reclaims(l: Ledger, seller: Seq<u8>, escrow: int, vault: int, seller_x_token: int)
    requires
        l.wf(),
        l.cancel_outcome(seller, escrow, vault, seller_x_token) is Ok,
    ensures
        ({
            let hs = l.holdings@;
            let after = l.cancelled_holdings(vault, seller_x_token);
            &&& after.len() == hs.len()
            &&& after[seller_x_token].amount == hs[seller_x_token].amount + hs[vault].amount
            &&& after[seller_x_token].owner@ == seller
            &&& !after[vault].open
            &&& after[vault].amount == 0
            &&& forall|i: int|
                0 <= i < hs.len() && i != vault && i != seller_x_token ==> #[trigger] after[i] == hs[i]
        }),
{
}

/// A seller has at most one open offer, and Initialize by a seller with an
/// open offer fails with `AlreadyExists`.
pub proof fn lemma_one_offer_per_seller(
    l: Ledger,
    i: int,
    j: int,
    x_mint: Seq<u8>,
    seller_x_token: int,
    x_amount: u64,
)
    requires
        l.wf(),
        0 <= i < l.escrows@.len(),
        0 <= j < l.escrows@.len(),
        is_open(l.escrows@[i]),
        is_open(l.escrows@[j]),
    ensures
        l.escrows@[i].authority@ == l.escrows@[j].authority@ ==> i == j,
        l.initialize_outcome(l.escrows@[i].authority@, x_mint, seller_x_token, x_amount)
            == Err::<(), EscrowError>(EscrowError::AlreadyExists),
{
    assert(has_open_offer(l.escrows@, l.escrows@[i].authority@));
}

/// The vault of every open offer is controlled by the authority re-derived
/// from that offer's seller, and no successful instruction takes funds out of
/// it except Accept or Cancel of that very offer.
pub proof fn lemma_authority_containment(
    l: Ledger,
    j: int,
    signer: Seq<u8>,
    x_mint: Seq<u8>,
    x_amount: u64,
    escrow: int,
    vault: int,
    h1: int,
    h2: int,
    h3: int,
)
    requires
        l.wf(),
        0 <= j < l.escrows@.len(),
        is_open(l.escrows@[j]),
    ensures
        ({
            let e = l.escrows@[j];
            let v = e.escrowed_x_tokens as int;
            &&& escrow_authority_of(e.authority@, l.program_id@) == Some((l.holdings@[v].owner@, e.bump))
            &&& l.initialize_outcome(signer, x_mint, h1, x_amount) is Ok ==> h1 != v
            &&& l.accept_outcome(signer, escrow, vault, h1, h2, h3) is Ok
                && l.accepted_holdings(escrow, vault, h1, h2, h3)[v].amount < l.holdings@[v].amount
                ==> escrow == j
            &&& l.cancel_outcome(signer, escrow, vault, h1) is Ok && l.cancelled_holdings(vault, h1)[v].amount
                < l.holdings@[v].amount ==> escrow == j
        }),
{
    let e = l.escrows@[j];
    let v = e.escrowed_x_tokens as int;
    if l.initialize_outcome(signer, x_mint, h1, x_amount) is Ok && h1 == v {
        assert(is_escrow_authority(l.escrows@, signer));
    }
    if l.accept_outcome(signer, escrow, vault, h1, h2, h3) is Ok
        && l.accepted_holdings(escrow, vault, h1, h2, h3)[v].amount < l.holdings@[v].amount {
        if v == h3 {
            assert(is_escrow_authority(l.escrows@, signer));
        }
        assert(v == vault);
        if escrow != j {
            assert(is_open(l.escrows@[escrow]));
        }
    }
    if l.cancel_outcome(signer, escrow, vault, h1) is Ok && l.cancelled_holdings(vault, h1)[v].amount
        < l.holdings@[v].amount {
        if escrow != j {
            assert(is_open(l.escrows@[escrow]));
        }
    }
}

/// Once an offer is settled or cancelled, every further Accept or Cancel of it
/// fails with `NotOpen`.
pub proof fn lemma_no_replay(
    l: Ledger,
    escrow: int,
    signer: Seq<u8>,
    vault: int,
    h1: int,
    h2: int,
    h3: int,
)
    requires
        0 <= escrow < l.escrows@.len(),
        l.escrows@[escrow].state == EscrowState::Settled || l.escrows@[escrow].state
            == EscrowState::Cancelled,
    ensures
        l.accept_outcome(signer, escrow, vault, h1, h2, h3) == Err::<(), EscrowError>(EscrowError::NotOpen),
        l.cancel_outcome(signer, escrow, vault, h1) == Err::<(), EscrowError>(EscrowError::NotOpen),
{
}

} // verus!
