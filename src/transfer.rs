//! Transfer instructions, one per payment rail.

use vstd::prelude::*;

use crate::denom::{Denom, DenomKey};

verus! {

/// An instruction to move funds out of escrow, on the asset's own rail.
#[derive(Clone, Debug, PartialEq, Eq)]
pub enum TransferMsg {
    /// A direct transfer of a native currency.
    BankSend { to_address: String, denom: String, amount: u128 },
    /// A call of a token contract's transfer entry point.
    Cw20Transfer { contract_addr: String, recipient: String, amount: u128 },
}

/// A transfer as plain values: which asset, to whom, how much.
pub struct TransferView {
    pub denom: DenomKey,
    pub recipient: Seq<char>,
    pub amount: u128,
}

impl View for TransferMsg {
    type V = TransferView;

    open spec fn view(&self) -> TransferView {
        match self {
            TransferMsg::BankSend { to_address, denom, amount } => TransferView {
                denom: DenomKey::Native(denom@),
                recipient: to_address@,
                amount: *amount,
            },
            TransferMsg::Cw20Transfer { contract_addr, recipient, amount } => TransferView {
                denom: DenomKey::Cw20(contract_addr@),
                recipient: recipient@,
                amount: *amount,
            },
        }
    }
}

pub open spec fn transfer_view(denom: DenomKey, recipient: Seq<char>, amount: u128) -> TransferView {
    TransferView { denom, recipient, amount }
}

/// The transfer of `amount` of `asset` to `recipient`, on the asset's rail.
pub fn build_transfer_instruction(asset: &Denom, amount: u128, recipient: &String) -> (r:
    TransferMsg)
    ensures
        r@ == transfer_view(asset@, recipient@, amount),
{
    match asset {
        Denom::Native(denom) => TransferMsg::BankSend {
            to_address: recipient.clone(),
            denom: denom.clone(),
            amount,
        },
        Denom::Cw20(contract_addr) => TransferMsg::Cw20Transfer {
            contract_addr: contract_addr.clone(),
            recipient: recipient.clone(),
            amount,
        },
    }
}

} // verus!
