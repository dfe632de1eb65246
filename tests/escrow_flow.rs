use escrow_swap::escrow::{Accept, Cancel, Escrow, EscrowError, EscrowState, Initialize, Instruction, Ledger};
use escrow_swap::key::Key;
use escrow_swap::authority::derive_escrow_authority;

fn key(b: u8) -> Key {
    Key::new([b; 32])
}

struct Setup {
    ledger: Ledger,
    seller: Key,
    buyer: Key,
    mint_a: Key,
    mint_b: Key,
    seller_a: usize,
    seller_b: usize,
    buyer_a: usize,
    buyer_b: usize,
}

fn setup(seller_a_amount: u64, buyer_b_amount: u64) -> Setup {
    let mut ledger = Ledger::new(key(9));
    let seller = key(1);
    let buyer = key(2);
    let mint_a = key(10);
    let mint_b = key(11);
    let seller_a = ledger.create_holding(mint_a, seller, seller_a_amount);
    let seller_b = ledger.create_holding(mint_b, seller, 0);
    let buyer_a = ledger.create_holding(mint_a, buyer, 0);
    let buyer_b = ledger.create_holding(mint_b, buyer, buyer_b_amount);
    Setup { ledger, seller, buyer, mint_a, mint_b, seller_a, seller_b, buyer_a, buyer_b }
}

fn amount(l: &Ledger, h: usize) -> u64 {
    l.holdings[h].amount
}

#[test]
fn accept_swaps_and_cannot_be_replayed() {
    let mut s = setup(1000, 500);
    let vault = s.ledger.holdings.len();
    assert_eq!(s.ledger.initialize(&Initialize { seller: s.seller, x_mint: s.mint_a, y_mint: s.mint_b, seller_x_token: s.seller_a }, 1000, 500), Ok(()));
    assert_eq!(amount(&s.ledger, s.seller_a), 0);
    assert_eq!(amount(&s.ledger, vault), 1000);
    assert_eq!(s.ledger.accept(&Accept { buyer: s.buyer, escrow: 0, escrowed_x_tokens: vault, sellers_y_tokens: s.seller_b, buyer_x_tokens: s.buyer_a, buyer_y_tokens: s.buyer_b }), Ok(()));
    assert_eq!(amount(&s.ledger, s.buyer_a), 1000);
    assert_eq!(amount(&s.ledger, s.buyer_b), 0);
    assert_eq!(amount(&s.ledger, s.seller_b), 500);
    assert_eq!(amount(&s.ledger, s.seller_a), 0);
    assert_eq!(amount(&s.ledger, vault), 0);
    assert_eq!(s.ledger.escrows[0].state, EscrowState::Settled);
    assert_eq!(
        s.ledger.accept(&Accept { buyer: s.buyer, escrow: 0, escrowed_x_tokens: vault, sellers_y_tokens: s.seller_b, buyer_x_tokens: s.buyer_a, buyer_y_tokens: s.buyer_b }),
        Err(EscrowError::NotOpen)
    );
    assert_eq!(s.ledger.cancel(&Cancel { seller: s.seller, escrow: 0, escrowed_x_tokens: vault, seller_x_token: s.seller_a }), Err(EscrowError::NotOpen));
}

#[test]
fn cancel_returns_the_deposit() {
    let mut s = setup(1000, 500);
    let vault = s.ledger.holdings.len();
    assert_eq!(s.ledger.initialize(&Initialize { seller: s.seller, x_mint: s.mint_a, y_mint: s.mint_b, seller_x_token: s.seller_a }, 1000, 500), Ok(()));
    assert_eq!(s.ledger.cancel(&Cancel { seller: s.seller, escrow: 0, escrowed_x_tokens: vault, seller_x_token: s.seller_a }), Ok(()));
    assert_eq!(amount(&s.ledger, s.seller_a), 1000);
    assert!(!s.ledger.holdings[vault].open);
    assert_eq!(s.ledger.escrows[0].state, EscrowState::Cancelled);
    assert_eq!(
        s.ledger.accept(&Accept { buyer: s.buyer, escrow: 0, escrowed_x_tokens: vault, sellers_y_tokens: s.seller_b, buyer_x_tokens: s.buyer_a, buyer_y_tokens: s.buyer_b }),
        Err(EscrowError::NotOpen)
    );
    assert_eq!(s.ledger.cancel(&Cancel { seller: s.seller, escrow: 0, escrowed_x_tokens: vault, seller_x_token: s.seller_a }), Err(EscrowError::NotOpen));
}

#[test]
fn initialize_records_the_offer() {
    let mut s = setup(1000, 500);
    let vault = s.ledger.holdings.len();
    assert_eq!(s.ledger.initialize(&Initialize { seller: s.seller, x_mint: s.mint_a, y_mint: s.mint_b, seller_x_token: s.seller_a }, 300, 700), Ok(()));
    assert_eq!(amount(&s.ledger, s.seller_a), 700);
    assert_eq!(amount(&s.ledger, vault), 300);
    let e = s.ledger.escrows[0];
    assert_eq!(e.authority.to_bytes(), [1u8; 32]);
    assert_eq!(e.escrowed_x_tokens, vault);
    assert_eq!(e.y_mint.to_bytes(), [11u8; 32]);
    assert_eq!(e.y_amount, 700);
    assert_eq!(e.state, EscrowState::Open);
    let (address, bump) = derive_escrow_authority(&s.seller, &key(9)).unwrap();
    assert_eq!(e.address.to_bytes(), address.to_bytes());
    assert_eq!(e.bump, bump);
    assert_eq!(s.ledger.holdings[vault].owner.to_bytes(), address.to_bytes());
    assert_eq!(s.ledger.holdings[vault].mint.to_bytes(), [10u8; 32]);
}

#[test]
fn derived_authority_is_deterministic_and_seller_specific() {
    let a = derive_escrow_authority(&key(1), &key(9)).unwrap();
    let b = derive_escrow_authority(&key(1), &key(9)).unwrap();
    let c = derive_escrow_authority(&key(2), &key(9)).unwrap();
    assert_eq!(a.0.to_bytes(), b.0.to_bytes());
    assert_eq!(a.1, b.1);
    assert_ne!(a.0.to_bytes(), c.0.to_bytes());
    assert_ne!(a.0.to_bytes(), [1u8; 32]);
}

#[test]
fn second_offer_by_same_seller_fails() {
    let mut s = setup(1000, 500);
    assert_eq!(s.ledger.initialize(&Initialize { seller: s.seller, x_mint: s.mint_a, y_mint: s.mint_b, seller_x_token: s.seller_a }, 400, 1), Ok(()));
    assert_eq!(
        s.ledger.initialize(&Initialize { seller: s.seller, x_mint: s.mint_a, y_mint: s.mint_b, seller_x_token: s.seller_a }, 400, 1),
        Err(EscrowError::AlreadyExists)
    );
    assert_eq!(amount(&s.ledger, s.seller_a), 600);
    assert_eq!(s.ledger.escrows.len(), 1);
}

#[test]
fn seller_may_offer_again_after_cancel() {
    let mut s = setup(1000, 500);
    let vault = s.ledger.holdings.len();
    assert_eq!(s.ledger.initialize(&Initialize { seller: s.seller, x_mint: s.mint_a, y_mint: s.mint_b, seller_x_token: s.seller_a }, 400, 1), Ok(()));
    assert_eq!(s.ledger.cancel(&Cancel { seller: s.seller, escrow: 0, escrowed_x_tokens: vault, seller_x_token: s.seller_a }), Ok(()));
    assert_eq!(s.ledger.initialize(&Initialize { seller: s.seller, x_mint: s.mint_a, y_mint: s.mint_b, seller_x_token: s.seller_a }, 1000, 1), Ok(()));
    assert_eq!(amount(&s.ledger, s.seller_a), 0);
}

#[test]
fn initialize_errors() {
    let mut s = setup(1000, 500);
    let (seller, ma, mb, sa) = (s.seller, s.mint_a, s.mint_b, s.seller_a);
    assert_eq!(s.ledger.initialize(&Initialize { seller: seller, x_mint: ma, y_mint: mb, seller_x_token: sa }, 0, 1), Err(EscrowError::ZeroAmount));
    assert_eq!(s.ledger.initialize(&Initialize { seller: seller, x_mint: ma, y_mint: mb, seller_x_token: 99 }, 1, 1), Err(EscrowError::UnknownHolding));
    assert_eq!(s.ledger.initialize(&Initialize { seller: s.buyer, x_mint: ma, y_mint: mb, seller_x_token: sa }, 1, 1), Err(EscrowError::OwnerMismatch));
    assert_eq!(s.ledger.initialize(&Initialize { seller: seller, x_mint: mb, y_mint: mb, seller_x_token: sa }, 1, 1), Err(EscrowError::MintMismatch));
    assert_eq!(s.ledger.initialize(&Initialize { seller: seller, x_mint: ma, y_mint: mb, seller_x_token: sa }, 1001, 1), Err(EscrowError::InsufficientFunds));
    assert_eq!(s.ledger.escrows.len(), 0);
    assert_eq!(amount(&s.ledger, sa), 1000);
}

#[test]
fn derived_authority_cannot_sign() {
    let mut s = setup(1000, 500);
    assert_eq!(s.ledger.initialize(&Initialize { seller: s.seller, x_mint: s.mint_a, y_mint: s.mint_b, seller_x_token: s.seller_a }, 1000, 500), Ok(()));
    let pda = s.ledger.escrows[0].address;
    let fake = s.ledger.create_holding(s.mint_b, pda, 500);
    let pda_a = s.ledger.create_holding(s.mint_a, pda, 0);
    assert_eq!(
        s.ledger.accept(&Accept { buyer: pda, escrow: 0, escrowed_x_tokens: 4, sellers_y_tokens: s.seller_b, buyer_x_tokens: pda_a, buyer_y_tokens: fake }),
        Err(EscrowError::Unauthorized)
    );
    assert_eq!(s.ledger.initialize(&Initialize { seller: pda, x_mint: s.mint_a, y_mint: s.mint_b, seller_x_token: 4 }, 1, 1), Err(EscrowError::Unauthorized));
}

#[test]
fn accept_errors() {
    let mut s = setup(1000, 499);
    let vault = s.ledger.holdings.len();
    assert_eq!(s.ledger.initialize(&Initialize { seller: s.seller, x_mint: s.mint_a, y_mint: s.mint_b, seller_x_token: s.seller_a }, 1000, 500), Ok(()));
    let (b, sb, ba, bb) = (s.buyer, s.seller_b, s.buyer_a, s.buyer_b);
    assert_eq!(s.ledger.accept(&Accept { buyer: b, escrow: 1, escrowed_x_tokens: vault, sellers_y_tokens: sb, buyer_x_tokens: ba, buyer_y_tokens: bb }), Err(EscrowError::NotOpen));
    assert_eq!(s.ledger.accept(&Accept { buyer: b, escrow: 0, escrowed_x_tokens: s.seller_a, sellers_y_tokens: sb, buyer_x_tokens: ba, buyer_y_tokens: bb }), Err(EscrowError::VaultMismatch));
    assert_eq!(s.ledger.accept(&Accept { buyer: b, escrow: 0, escrowed_x_tokens: vault, sellers_y_tokens: 99, buyer_x_tokens: ba, buyer_y_tokens: bb }), Err(EscrowError::UnknownHolding));
    assert_eq!(s.ledger.accept(&Accept { buyer: b, escrow: 0, escrowed_x_tokens: vault, sellers_y_tokens: s.seller_a, buyer_x_tokens: ba, buyer_y_tokens: bb }), Err(EscrowError::MintMismatch));
    assert_eq!(s.ledger.accept(&Accept { buyer: b, escrow: 0, escrowed_x_tokens: vault, sellers_y_tokens: bb, buyer_x_tokens: ba, buyer_y_tokens: bb }), Err(EscrowError::OwnerMismatch));
    assert_eq!(s.ledger.accept(&Accept { buyer: s.seller, escrow: 0, escrowed_x_tokens: vault, sellers_y_tokens: sb, buyer_x_tokens: ba, buyer_y_tokens: bb }), Err(EscrowError::OwnerMismatch));
    assert_eq!(s.ledger.accept(&Accept { buyer: b, escrow: 0, escrowed_x_tokens: vault, sellers_y_tokens: sb, buyer_x_tokens: ba, buyer_y_tokens: bb }), Err(EscrowError::InsufficientFunds));
    assert_eq!(s.ledger.escrows[0].state, EscrowState::Open);
    assert_eq!(amount(&s.ledger, vault), 1000);
    assert_eq!(amount(&s.ledger, bb), 499);
}

#[test]
fn accept_rejects_paying_oneself() {
    let mut s = setup(1000, 500);
    let vault = s.ledger.holdings.len();
    let seller = s.seller;
    assert_eq!(s.ledger.initialize(&Initialize { seller: seller, x_mint: s.mint_a, y_mint: s.mint_b, seller_x_token: s.seller_a }, 1000, 500), Ok(()));
    let own_b = s.ledger.create_holding(s.mint_b, seller, 500);
    assert_eq!(
        s.ledger.accept(&Accept { buyer: seller, escrow: 0, escrowed_x_tokens: vault, sellers_y_tokens: own_b, buyer_x_tokens: s.seller_a, buyer_y_tokens: own_b }),
        Err(EscrowError::SameHolding)
    );
}

#[test]
fn accept_overflow_is_rejected() {
    let mut s = setup(1000, 500);
    let vault = s.ledger.holdings.len();
    assert_eq!(s.ledger.initialize(&Initialize { seller: s.seller, x_mint: s.mint_a, y_mint: s.mint_b, seller_x_token: s.seller_a }, 1000, 500), Ok(()));
    let full_a = s.ledger.create_holding(s.mint_a, s.buyer, u64::MAX - 999);
    assert_eq!(
        s.ledger.accept(&Accept { buyer: s.buyer, escrow: 0, escrowed_x_tokens: vault, sellers_y_tokens: s.seller_b, buyer_x_tokens: full_a, buyer_y_tokens: s.buyer_b }),
        Err(EscrowError::Overflow)
    );
    assert_eq!(amount(&s.ledger, full_a), u64::MAX - 999);
}

#[test]
fn cancel_errors() {
    let mut s = setup(1000, 500);
    let vault = s.ledger.holdings.len();
    assert_eq!(s.ledger.initialize(&Initialize { seller: s.seller, x_mint: s.mint_a, y_mint: s.mint_b, seller_x_token: s.seller_a }, 1000, 500), Ok(()));
    let seller = s.seller;
    assert_eq!(s.ledger.cancel(&Cancel { seller: seller, escrow: 3, escrowed_x_tokens: vault, seller_x_token: s.seller_a }), Err(EscrowError::NotOpen));
    assert_eq!(s.ledger.cancel(&Cancel { seller: s.buyer, escrow: 0, escrowed_x_tokens: vault, seller_x_token: s.buyer_a }), Err(EscrowError::Unauthorized));
    assert_eq!(s.ledger.cancel(&Cancel { seller: seller, escrow: 0, escrowed_x_tokens: s.seller_a, seller_x_token: s.seller_a }), Err(EscrowError::VaultMismatch));
    assert_eq!(s.ledger.cancel(&Cancel { seller: seller, escrow: 0, escrowed_x_tokens: vault, seller_x_token: 99 }), Err(EscrowError::UnknownHolding));
    assert_eq!(s.ledger.cancel(&Cancel { seller: seller, escrow: 0, escrowed_x_tokens: vault, seller_x_token: s.seller_b }), Err(EscrowError::MintMismatch));
    assert_eq!(s.ledger.cancel(&Cancel { seller: seller, escrow: 0, escrowed_x_tokens: vault, seller_x_token: s.buyer_a }), Err(EscrowError::OwnerMismatch));
    assert_eq!(s.ledger.cancel(&Cancel { seller: seller, escrow: 0, escrowed_x_tokens: vault, seller_x_token: vault }), Err(EscrowError::OwnerMismatch));
    let full_a = s.ledger.create_holding(s.mint_a, seller, u64::MAX);
    assert_eq!(s.ledger.cancel(&Cancel { seller: seller, escrow: 0, escrowed_x_tokens: vault, seller_x_token: full_a }), Err(EscrowError::Overflow));
    assert_eq!(s.ledger.escrows[0].state, EscrowState::Open);
    assert_eq!(amount(&s.ledger, vault), 1000);
}

#[test]
fn key_comparison() {
    assert!(key(3).same(&key(3)));
    let mut b = [3u8; 32];
    b[31] = 4;
    assert!(!key(3).same(&Key::new(b)));
}

#[test]
fn process_dispatches_each_instruction() {
    let mut s = setup(1000, 500);
    let vault = s.ledger.holdings.len();
    let init = Instruction::Initialize {
        accounts: Initialize { seller: s.seller, x_mint: s.mint_a, y_mint: s.mint_b, seller_x_token: s.seller_a },
        x_amount: 1000,
        y_amount: 500,
    };
    assert_eq!(s.ledger.process(&init), Ok(()));
    assert_eq!(s.ledger.process(&init), Err(EscrowError::AlreadyExists));
    let accept = Instruction::Accept {
        accounts: Accept {
            buyer: s.buyer,
            escrow: 0,
            escrowed_x_tokens: vault,
            sellers_y_tokens: s.seller_b,
            buyer_x_tokens: s.buyer_a,
            buyer_y_tokens: s.buyer_b,
        },
    };
    assert_eq!(s.ledger.process(&accept), Ok(()));
    assert_eq!(amount(&s.ledger, s.buyer_a), 1000);
    assert_eq!(amount(&s.ledger, s.seller_b), 500);
    assert_eq!(s.ledger.process(&accept), Err(EscrowError::NotOpen));
    let cancel = Instruction::Cancel {
        accounts: Cancel { seller: s.seller, escrow: 0, escrowed_x_tokens: vault, seller_x_token: s.seller_a },
    };
    assert_eq!(s.ledger.process(&cancel), Err(EscrowError::NotOpen));
}

fn stored(l: &Ledger, seller: Key, vault: usize) -> Escrow {
    let (address, bump) = derive_escrow_authority(&seller, &l.program_id).unwrap();
    Escrow {
        authority: seller,
        bump,
        escrowed_x_tokens: vault,
        y_mint: key(11),
        y_amount: 500,
        address,
        state: EscrowState::Open,
    }
}

#[test]
fn restored_offer_can_be_accepted() {
    let mut s = setup(0, 500);
    let (address, _) = derive_escrow_authority(&s.seller, &key(9)).unwrap();
    let vault = s.ledger.create_holding(s.mint_a, address, 1000);
    let e = stored(&s.ledger, s.seller, vault);
    assert_eq!(s.ledger.restore_offer(e), Ok(()));
    assert_eq!(s.ledger.restore_offer(e), Err(EscrowError::AlreadyExists));
    let accept = Accept {
        buyer: s.buyer,
        escrow: 0,
        escrowed_x_tokens: vault,
        sellers_y_tokens: s.seller_b,
        buyer_x_tokens: s.buyer_a,
        buyer_y_tokens: s.buyer_b,
    };
    assert_eq!(s.ledger.accept(&accept), Ok(()));
    assert_eq!(amount(&s.ledger, s.buyer_a), 1000);
    assert_eq!(amount(&s.ledger, s.seller_b), 500);
}

#[test]
fn restore_offer_errors() {
    let mut s = setup(0, 500);
    let (address, _) = derive_escrow_authority(&s.seller, &key(9)).unwrap();
    let vault = s.ledger.create_holding(s.mint_a, address, 1000);
    assert_eq!(s.ledger.restore_offer(stored(&s.ledger, s.seller, 99)), Err(EscrowError::UnknownHolding));
    assert_eq!(s.ledger.restore_offer(stored(&s.ledger, s.seller, s.seller_a)), Err(EscrowError::OwnerMismatch));
    let mut forged = stored(&s.ledger, s.seller, vault);
    forged.address = s.seller;
    assert_eq!(s.ledger.restore_offer(forged), Err(EscrowError::AuthorityMismatch));
    let mut closed = stored(&s.ledger, s.seller, 99);
    closed.state = EscrowState::Settled;
    assert_eq!(s.ledger.restore_offer(closed), Ok(()));
    assert_eq!(s.ledger.restore_offer(stored(&s.ledger, s.seller, vault)), Ok(()));
    assert_eq!(s.ledger.restore_offer(stored(&s.ledger, s.buyer, vault)), Err(EscrowError::VaultMismatch));
    assert_eq!(s.ledger.escrows.len(), 2);
}
