use vstd::prelude::*;
use crate::domain::account::AccountId;
use crate::domain::money::{Money, MoneyView};
use crate::domain::time::{ZonedTime, ZonedTimeView};
use crate::text::{trim, trimmed};

verus! {

/// Identifies a transfer.
#[derive(Debug, Clone, Copy, PartialEq, Eq, Structural)]
pub struct TransferId(u64);

impl View for TransferId {
    type V = u64;

    closed spec fn view(&self) -> u64 {
        self.0
    }
}

impl TransferId {
    /// The identifier with a given value.
    pub closed spec fn from_value(value: u64) -> TransferId {
        TransferId(value)
    }

    /// The identifier made from a value holds that value.
    pub broadcast proof fn lemma_from_value(value: u64)
        ensures
            #[trigger] TransferId::from_value(value)@ == value,
    {
    }

    pub fn new(value: u64) -> (r: Self)
        ensures
            r@ == value,
            r == TransferId::from_value(value),
    {
        Self(value)
    }

    pub fn value(self) -> (r: u64)
        ensures
            r == self@,
    {
        self.0
    }

    /// Two identifiers are equal exactly when their values are.
    pub proof fn lemma_view_injective(a: TransferId, b: TransferId)
        ensures
            (a@ == b@) == (a == b),
    {
    }
}

/// Why a transfer was refused.
#[derive(Debug, Clone, Copy, PartialEq, Eq, Structural)]
pub enum TransferError {
    SameAccount,
    InvalidAmount,
    SameCurrencyAmountMismatch,
    EmptyDescription,
}

pub struct NewTransferView {
    pub source_account_id: AccountId,
    pub destination_account_id: AccountId,
    pub source_amount: MoneyView,
    pub destination_amount: MoneyView,
    pub occurred_at: ZonedTimeView,
    pub description: Seq<char>,
}

pub struct TransferView {
    pub id: TransferId,
    pub source_account_id: AccountId,
    pub destination_account_id: AccountId,
    pub source_amount: MoneyView,
    pub destination_amount: MoneyView,
    pub occurred_at: ZonedTimeView,
    pub description: Seq<char>,
}

impl NewTransferView {
    pub open spec fn valid(self) -> bool {
        &&& self.source_account_id != self.destination_account_id
        &&& self.source_amount.minor > 0
        &&& self.destination_amount.minor > 0
        &&& (self.source_amount.currency == self.destination_amount.currency
            ==> self.source_amount.minor == self.destination_amount.minor)
        &&& self.description.len() > 0
    }
}

impl TransferView {
    pub open spec fn from_new(id: TransferId, value: NewTransferView) -> TransferView {
        TransferView {
            id,
            source_account_id: value.source_account_id,
            destination_account_id: value.destination_account_id,
            source_amount: value.source_amount,
            destination_amount: value.destination_amount,
            occurred_at: value.occurred_at,
            description: value.description,
        }
    }

    pub open spec fn contents(self) -> NewTransferView {
        NewTransferView {
            source_account_id: self.source_account_id,
            destination_account_id: self.destination_account_id,
            source_amount: self.source_amount,
            destination_amount: self.destination_amount,
            occurred_at: self.occurred_at,
            description: self.description,
        }
    }

    pub open spec fn valid(self) -> bool {
        self.contents().valid()
    }

    /// Whether the transfer moves money out of or into the account.
    pub open spec fn involves(self, account: AccountId) -> bool {
        self.source_account_id == account || self.destination_account_id == account
    }
}

/// What `NewTransfer::new` gives.
pub open spec fn new_transfer_outcome(
    source_account_id: AccountId,
    destination_account_id: AccountId,
    source_amount: MoneyView,
    destination_amount: MoneyView,
    occurred_at: ZonedTimeView,
    description: Seq<char>,
) -> Result<NewTransferView, TransferError> {
    if source_account_id == destination_account_id {
        Err(TransferError::SameAccount)
    } else if source_amount.minor <= 0 || destination_amount.minor <= 0 {
        Err(TransferError::InvalidAmount)
    } else if source_amount.currency == destination_amount.currency && source_amount.minor
        != destination_amount.minor {
        Err(TransferError::SameCurrencyAmountMismatch)
    } else if trimmed(description).len() == 0 {
        Err(TransferError::EmptyDescription)
    } else {
        Ok(
            NewTransferView {
                source_account_id,
                destination_account_id,
                source_amount,
                destination_amount,
                occurred_at,
                description: trimmed(description),
            },
        )
    }
}

/// A validated transfer that the repository has not stored yet.
#[derive(Debug, PartialEq, Eq)]
pub struct NewTransfer {
    source_account_id: AccountId,
    destination_account_id: AccountId,
    source_amount: Money,
    destination_amount: Money,
    occurred_at: ZonedTime,
    description: String,
}

impl View for NewTransfer {
    type V = NewTransferView;

    closed spec fn view(&self) -> NewTransferView {
        NewTransferView {
            source_account_id: self.source_account_id,
            destination_account_id: self.destination_account_id,
            source_amount: self.source_amount@,
            destination_amount: self.destination_amount@,
            occurred_at: self.occurred_at@,
            description: self.description@,
        }
    }
}

pub open spec fn new_transfer_result_view(r: Result<NewTransfer, TransferError>) -> Result<
    NewTransferView,
    TransferError,
> {
    match r {
        Ok(value) => Ok(value@),
        Err(error) => Err(error),
    }
}

impl NewTransfer {
    #[verifier::type_invariant]
    spec fn inv(self) -> bool {
        self@.valid()
    }

    pub fn new(
        source_account_id: AccountId,
        destination_account_id: AccountId,
        source_amount: Money,
        destination_amount: Money,
        occurred_at: ZonedTime,
        description: String,
    ) -> (r: Result<Self, TransferError>)
        ensures
            new_transfer_result_view(r) == new_transfer_outcome(
                source_account_id,
                destination_account_id,
                source_amount@,
                destination_amount@,
                occurred_at@,
                description@,
            ),
    {
        if source_account_id == destination_account_id {
            return Err(TransferError::SameAccount);
        }
        if source_amount.minor_units() <= 0 || destination_amount.minor_units() <= 0 {
            return Err(TransferError::InvalidAmount);
        }
        if source_amount.currency() == destination_amount.currency()
            && source_amount.minor_units() != destination_amount.minor_units() {
            return Err(TransferError::SameCurrencyAmountMismatch);
        }
        let description = trim(description.as_str());
        if description.as_str().is_empty() {
            return Err(TransferError::EmptyDescription);
        }
        Ok(
            Self {
                source_account_id,
                destination_account_id,
                source_amount,
                destination_amount,
                occurred_at,
                description,
            },
        )
    }

    pub fn source_account_id(&self) -> (r: AccountId)
        ensures
            r == self@.source_account_id,
            self@.valid(),
    {
        proof {
            use_type_invariant(self);
        }
        self.source_account_id
    }

    pub fn destination_account_id(&self) -> (r: AccountId)
        ensures
            r == self@.destination_account_id,
    {
        self.destination_account_id
    }

    pub fn source_amount(&self) -> (r: &Money)
        ensures
            r@ == self@.source_amount,
    {
        &self.source_amount
    }

    pub fn destination_amount(&self) -> (r: &Money)
        ensures
            r@ == self@.destination_amount,
    {
        &self.destination_amount
    }

    pub fn occurred_at(&self) -> (r: &ZonedTime)
        ensures
            r@ == self@.occurred_at,
    {
        &self.occurred_at
    }

    pub fn description(&self) -> (r: &str)
        ensures
            r@ == self@.description,
    {
        self.description.as_str()
    }
}

/// A stored transfer between two accounts.
#[derive(Debug, PartialEq, Eq)]
pub struct Transfer {
    id: TransferId,
    source_account_id: AccountId,
    destination_account_id: AccountId,
    source_amount: Money,
    destination_amount: Money,
    occurred_at: ZonedTime,
    description: String,
}

impl View for Transfer {
    type V = TransferView;

    closed spec fn view(&self) -> TransferView {
        TransferView {
            id: self.id,
            source_account_id: self.source_account_id,
            destination_account_id: self.destination_account_id,
            source_amount: self.source_amount@,
            destination_amount: self.destination_amount@,
            occurred_at: self.occurred_at@,
            description: self.description@,
        }
    }
}

pub open spec fn transfer_result_view(r: Result<Transfer, TransferError>) -> Result<
    TransferView,
    TransferError,
> {
    match r {
        Ok(value) => Ok(value@),
        Err(error) => Err(error),
    }
}

/// The views of a list of transfers.
pub open spec fn transfers_view(values: Seq<Transfer>) -> Seq<TransferView> {
    values.map_values(|value: Transfer| value@)
}

impl Transfer {
    #[verifier::type_invariant]
    spec fn inv(self) -> bool {
        self@.valid()
    }

    pub fn new(
        id: TransferId,
        source_account_id: AccountId,
        destination_account_id: AccountId,
        source_amount: Money,
        destination_amount: Money,
        occurred_at: ZonedTime,
        description: String,
    ) -> (r: Result<Self, TransferError>)
        ensures
            transfer_result_view(r) == match new_transfer_outcome(
                source_account_id,
                destination_account_id,
                source_amount@,
                destination_amount@,
                occurred_at@,
                description@,
            ) {
                Ok(value) => Ok(TransferView::from_new(id, value)),
                Err(error) => Err(error),
            },
    {
        let value = NewTransfer::new(
            source_account_id,
            destination_account_id,
            source_amount,
            destination_amount,
            occurred_at,
            description,
        )?;
        Ok(Self::from_new(id, value))
    }

    pub fn from_new(id: TransferId, transfer: NewTransfer) -> (r: Self)
        ensures
            r@ == TransferView::from_new(id, transfer@),
    {
        proof {
            use_type_invariant(&transfer);
        }
        Self {
            id,
            source_account_id: transfer.source_account_id,
            destination_account_id: transfer.destination_account_id,
            source_amount: transfer.source_amount,
            destination_amount: transfer.destination_amount,
            occurred_at: transfer.occurred_at,
            description: transfer.description,
        }
    }

    pub fn id(&self) -> (r: TransferId)
        ensures
            r == self@.id,
            self@.valid(),
    {
        proof {
            use_type_invariant(self);
        }
        self.id
    }

    pub fn source_account_id(&self) -> (r: AccountId)
        ensures
            r == self@.source_account_id,
    {
        self.source_account_id
    }

    pub fn destination_account_id(&self) -> (r: AccountId)
        ensures
            r == self@.destination_account_id,
    {
        self.destination_account_id
    }

    pub fn source_amount(&self) -> (r: &Money)
        ensures
            r@ == self@.source_amount,
    {
        &self.source_amount
    }

    pub fn destination_amount(&self) -> (r: &Money)
        ensures
            r@ == self@.destination_amount,
    {
        &self.destination_amount
    }

    pub fn occurred_at(&self) -> (r: &ZonedTime)
        ensures
            r@ == self@.occurred_at,
    {
        &self.occurred_at
    }

    pub fn description(&self) -> (r: &str)
        ensures
            r@ == self@.description,
    {
        self.description.as_str()
    }

    /// A copy of this transfer.
    pub fn duplicate(&self) -> (r: Transfer)
        ensures
            r@ == self@,
    {
        proof {
            use_type_invariant(self);
        }
        Transfer {
            id: self.id,
            source_account_id: self.source_account_id,
            destination_account_id: self.destination_account_id,
            source_amount: self.source_amount,
            destination_amount: self.destination_amount,
            occurred_at: self.occurred_at.duplicate(),
            description: self.description.clone(),
        }
    }
}

impl Clone for Transfer {
    fn clone(&self) -> (r: Self)
        ensures
            r@ == self@,
    {
        self.duplicate()
    }
}

/// How an `TransferError` is written in messages, as its `Debug` form.
pub open spec fn transfer_error_text(error: TransferError) -> Seq<char> {
    match error {
        TransferError::SameAccount => "SameAccount"@,
        TransferError::InvalidAmount => "InvalidAmount"@,
        TransferError::SameCurrencyAmountMismatch => "SameCurrencyAmountMismatch"@,
        TransferError::EmptyDescription => "EmptyDescription"@,
    }
}

impl TransferError {
    /// This error's name, as its `Debug` form writes it.
    pub fn debug_text(&self) -> (r: &'static str)
        ensures
            r@ == transfer_error_text(*self),
    {
        match self {
            TransferError::SameAccount => "SameAccount",
            TransferError::InvalidAmount => "InvalidAmount",
            TransferError::SameCurrencyAmountMismatch => "SameCurrencyAmountMismatch",
            TransferError::EmptyDescription => "EmptyDescription",
        }
    }
}

} // verus!
