use vstd::prelude::*;

verus! {

/// A public tally of "GM" and "GN" votes.
#[derive(Clone, Copy, Debug, PartialEq, Eq, Structural)]
pub struct VoteBank {
    pub is_open_to_vote: bool,
    pub gm: u64,
    pub gn: u64,
}

#[derive(Clone, Copy, Debug, PartialEq, Eq, Structural)]
pub enum VoteType {
    GM,
    GN,
}

#[derive(Clone, Copy, Debug, PartialEq, Eq, Structural)]
pub enum VoteError {
    /// The tally of the chosen kind is at its largest value.
    Overflow,
}

/// A new vote bank, open to votes, with both tallies at zero.
pub fn init_vote_bank() -> (r: VoteBank)
    ensures
        r == (VoteBank { is_open_to_vote: true, gm: 0, gn: 0 }),
{
    VoteBank { is_open_to_vote: true, gm: 0, gn: 0 }
}

/// Counts one vote of kind `vote_type`; the other tally is untouched. A tally
/// that cannot grow any more rejects the vote and stays as it was.
pub fn gib_vote(bank: &mut VoteBank, vote_type: VoteType) -> (r: Result<(), VoteError>)
    ensures
        match vote_type {
            VoteType::GM => if old(bank).gm == u64::MAX {
                r == Err::<(), VoteError>(VoteError::Overflow) && *final(bank) == *old(bank)
            } else {
                r is Ok && *final(bank) == (VoteBank { gm: (old(bank).gm + 1) as u64, ..*old(bank) })
            },
            VoteType::GN => if old(bank).gn == u64::MAX {
                r == Err::<(), VoteError>(VoteError::Overflow) && *final(bank) == *old(bank)
            } else {
                r is Ok && *final(bank) == (VoteBank { gn: (old(bank).gn + 1) as u64, ..*old(bank) })
            },
        },
{
    match vote_type {
        VoteType::GM => {
            if bank.gm == u64::MAX {
                return Err(VoteError::Overflow);
            }
            bank.gm = bank.gm + 1;
        },
        VoteType::GN => {
            if bank.gn == u64::MAX {
                return Err(VoteError::Overflow);
            }
            bank.gn = bank.gn + 1;
        },
    }
    Ok(())
}

} // verus!
