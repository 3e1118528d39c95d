use vstd::prelude::*;
use anchor_spl::token_2022::spl_token_2022::extension::transfer_fee::TransferFee;

verus! {

/// Terms of a mint that withholds a fee from every transfer.
#[derive(Clone, Copy, Debug, PartialEq, Eq, Structural)]
pub struct TransferFeeTerms {
    /// Fee in hundredths of a percent of the amount sent.
    pub transfer_fee_basis_points: u16,
    /// Largest fee withheld from one transfer.
    pub maximum_fee: u64,
}

/// The amount to send so that `post_fee_amount` arrives once a mint with these
/// terms has withheld its fee, as spl-token-2022 computes it; `None` where it
/// finds no such amount within 64 bits.
pub uninterp spec fn pre_fee_amount(
    transfer_fee_basis_points: u16,
    maximum_fee: u64,
    post_fee_amount: u64,
) -> Option<u64>;

/// Calls `TransferFee::calculate_pre_fee_amount` of spl-token-2022 on a fee
/// with the given basis points and maximum. Not proved: that the result is a
/// function of these three values alone (the method reads nothing else and
/// uses checked arithmetic throughout), and that at zero basis points it is
/// the amount itself, which is the method's first branch.
#[verifier::external_body]
fn calculate_pre_fee_amount(transfer_fee_basis_points: u16, maximum_fee: u64, post_fee_amount: u64) -> (r:
    Option<u64>)
    ensures
        r == pre_fee_amount(transfer_fee_basis_points, maximum_fee, post_fee_amount),
        transfer_fee_basis_points == 0 ==> r == Some(post_fee_amount),
{
    let fee = TransferFee {
        epoch: 0u64.into(),
        maximum_fee: maximum_fee.into(),
        transfer_fee_basis_points: transfer_fee_basis_points.into(),
    };
    fee.calculate_pre_fee_amount(post_fee_amount)
}

/// The amount to ask of the sender so that `amount` arrives: with no fee terms
/// the amount itself, else what the terms call for.
pub open spec fn grossed_up(amount: u64, terms: Option<TransferFeeTerms>) -> Option<u64> {
    match terms {
        None => Some(amount),
        Some(t) => pre_fee_amount(t.transfer_fee_basis_points, t.maximum_fee, amount),
    }
}

/// Grosses `amount` up by the transfer fee of the mint, if it charges one.
pub fn amount_with_fee(amount: u64, terms: Option<TransferFeeTerms>) -> (r: Option<u64>)
    ensures
        r == grossed_up(amount, terms),
        terms is None ==> r == Some(amount),
        terms matches Some(t) ==> t.transfer_fee_basis_points == 0 ==> r == Some(amount),
{
    match terms {
        None => Some(amount),
        Some(t) => calculate_pre_fee_amount(t.transfer_fee_basis_points, t.maximum_fee, amount),
    }
}

} // verus!
