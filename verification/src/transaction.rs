use vstd::prelude::*;

pub mod validator;

verus! {

/// The five kinds of event that the input boundary can produce.
#[derive(Debug, Clone, Copy, PartialEq, Eq, Structural)]
pub enum TransactionType {
    Deposit,
    Withdrawal,
    Dispute,
    Resolve,
    Chargeback,
}

impl TransactionType {
    /// The name under which this kind appears in the input.
    pub open spec fn spec_name(&self) -> Seq<char> {
        match *self {
            TransactionType::Deposit => "deposit"@,
            TransactionType::Withdrawal => "withdrawal"@,
            TransactionType::Dispute => "dispute"@,
            TransactionType::Resolve => "resolve"@,
            TransactionType::Chargeback => "chargeback"@,
        }
    }

    /// Every kind, in the order the input documentation lists them.
    pub open spec fn spec_all() -> Seq<TransactionType> {
        seq![
            TransactionType::Deposit,
            TransactionType::Withdrawal,
            TransactionType::Dispute,
            TransactionType::Resolve,
            TransactionType::Chargeback,
        ]
    }

    pub fn as_str(&self) -> (r: &'static str)
        ensures
            r@ == self.spec_name(),
    {
        match *self {
            TransactionType::Deposit => "deposit",
            TransactionType::Withdrawal => "withdrawal",
            TransactionType::Dispute => "dispute",
            TransactionType::Resolve => "resolve",
            TransactionType::Chargeback => "chargeback",
        }
    }

    /// Every kind, for iteration.
    pub fn iterator() -> (r: Vec<TransactionType>)
        ensures
            r@ == TransactionType::spec_all(),
    {
        let mut r: Vec<TransactionType> = Vec::new();
        r.push(TransactionType::Deposit);
        r.push(TransactionType::Withdrawal);
        r.push(TransactionType::Dispute);
        r.push(TransactionType::Resolve);
        r.push(TransactionType::Chargeback);
        proof {
            assert(r@ =~= TransactionType::spec_all());
        }
        r
    }
}

/// One ledger event. Monetary amounts are fixed-point values scaled by
/// [`crate::AMOUNT_SCALE`] (four decimal places).
///
/// `Deposit` and `Withdrawal` are the primary records: they carry an amount
/// and can later be disputed. `Dispute`, `Resolve` and `Chargeback` refer to
/// a prior primary record by `transaction_id` and carry no amount of their
/// own. The two `Disputed*` forms are storage states only: the engine
/// rewrites a stored primary record into its disputed form while a dispute
/// is open; the input boundary never produces them.
#[derive(Debug, Clone, Copy, PartialEq, Eq, Structural)]
pub enum Transaction {
    Deposit { client_id: u16, transaction_id: u32, amount: u64 },
    Withdrawal { client_id: u16, transaction_id: u32, amount: u64 },
    DisputedDeposit { client_id: u16, transaction_id: u32, amount: u64 },
    DisputedWithdrawal { client_id: u16, transaction_id: u32, amount: u64 },
    Dispute { client_id: u16, transaction_id: u32 },
    Resolve { client_id: u16, transaction_id: u32 },
    Chargeback { client_id: u16, transaction_id: u32 },
}

/// The record a valid input line denotes: ids and amount read from the
/// fields, the amount scaled to fixed point. A trailing field after a
/// reference record's ids is ignored.
pub open spec fn spec_parse_record(s: Seq<char>) -> Transaction {
    let ts = validator::spec_tokens(s);
    let client_id = validator::spec_uint_val(ts[1]) as u16;
    let transaction_id = validator::spec_uint_val(ts[2]) as u32;
    if ts[0] == "deposit"@ {
        Transaction::Deposit {
            client_id,
            transaction_id,
            amount: validator::spec_amount_val(ts[3]) as u64,
        }
    } else if ts[0] == "withdrawal"@ {
        Transaction::Withdrawal {
            client_id,
            transaction_id,
            amount: validator::spec_amount_val(ts[3]) as u64,
        }
    } else if ts[0] == "dispute"@ {
        Transaction::Dispute { client_id, transaction_id }
    } else if ts[0] == "resolve"@ {
        Transaction::Resolve { client_id, transaction_id }
    } else {
        Transaction::Chargeback { client_id, transaction_id }
    }
}

impl Transaction {
    /// Builds the record a valid input line denotes. The line must have
    /// passed [`validator::is_valid_input`] first.
    pub fn new(input: &str) -> (t: Transaction)
        requires
            validator::spec_valid_input(input@),
        ensures
            t == spec_parse_record(input@),
    {
        let splitted: Vec<&str> = validator::split_fields(input);
        let trans_type = splitted[0];
        let client_id = validator::parse_uint_field(splitted[1], 65535) as u16;
        let transaction_id = validator::parse_uint_field(splitted[2], 4294967295) as u32;
        if validator::str_eq(trans_type, TransactionType::Deposit.as_str()) {
            let amount = validator::parse_amount_field(splitted[3]);
            Transaction::Deposit { client_id, transaction_id, amount }
        } else if validator::str_eq(trans_type, TransactionType::Withdrawal.as_str()) {
            let amount = validator::parse_amount_field(splitted[3]);
            Transaction::Withdrawal { client_id, transaction_id, amount }
        } else if validator::str_eq(trans_type, TransactionType::Dispute.as_str()) {
            Transaction::Dispute { client_id, transaction_id }
        } else if validator::str_eq(trans_type, TransactionType::Resolve.as_str()) {
            Transaction::Resolve { client_id, transaction_id }
        } else {
            Transaction::Chargeback { client_id, transaction_id }
        }
    }

    /// The client this record addresses, whatever its kind.
    pub open spec fn spec_client_id(&self) -> u16 {
        match *self {
            Transaction::Deposit { client_id, .. } => client_id,
            Transaction::Withdrawal { client_id, .. } => client_id,
            Transaction::DisputedDeposit { client_id, .. } => client_id,
            Transaction::DisputedWithdrawal { client_id, .. } => client_id,
            Transaction::Dispute { client_id, .. } => client_id,
            Transaction::Resolve { client_id, .. } => client_id,
            Transaction::Chargeback { client_id, .. } => client_id,
        }
    }

    /// The transaction id this record carries or refers to.
    pub open spec fn spec_transaction_id(&self) -> u32 {
        match *self {
            Transaction::Deposit { transaction_id, .. } => transaction_id,
            Transaction::Withdrawal { transaction_id, .. } => transaction_id,
            Transaction::DisputedDeposit { transaction_id, .. } => transaction_id,
            Transaction::DisputedWithdrawal { transaction_id, .. } => transaction_id,
            Transaction::Dispute { transaction_id, .. } => transaction_id,
            Transaction::Resolve { transaction_id, .. } => transaction_id,
            Transaction::Chargeback { transaction_id, .. } => transaction_id,
        }
    }

    /// The amount stored on a primary or disputed-primary record; reference
    /// records carry none.
    pub open spec fn spec_amount(&self) -> u64 {
        match *self {
            Transaction::Deposit { amount, .. } => amount,
            Transaction::Withdrawal { amount, .. } => amount,
            Transaction::DisputedDeposit { amount, .. } => amount,
            Transaction::DisputedWithdrawal { amount, .. } => amount,
            _ => 0,
        }
    }

    /// A primary record: a `Deposit` or `Withdrawal`, not under dispute.
    pub open spec fn spec_is_primary(&self) -> bool {
        self is Deposit || self is Withdrawal
    }

    /// A primary record currently under dispute.
    pub open spec fn spec_is_disputed(&self) -> bool {
        self is DisputedDeposit || self is DisputedWithdrawal
    }

    /// The disputed form of a primary record (same ids, same amount).
    pub open spec fn spec_disputed_form(self) -> Transaction {
        match self {
            Transaction::Deposit { client_id, transaction_id, amount } =>
                Transaction::DisputedDeposit { client_id, transaction_id, amount },
            Transaction::Withdrawal { client_id, transaction_id, amount } =>
                Transaction::DisputedWithdrawal { client_id, transaction_id, amount },
            _ => self,
        }
    }

    /// The primary form of a disputed record (same ids, same amount).
    pub open spec fn spec_primary_form(self) -> Transaction {
        match self {
            Transaction::DisputedDeposit { client_id, transaction_id, amount } =>
                Transaction::Deposit { client_id, transaction_id, amount },
            Transaction::DisputedWithdrawal { client_id, transaction_id, amount } =>
                Transaction::Withdrawal { client_id, transaction_id, amount },
            _ => self,
        }
    }

    #[verifier::when_used_as_spec(spec_client_id)]
    pub fn client_id(&self) -> (c: u16)
        ensures
            c == self.spec_client_id(),
    {
        match self {
            Transaction::Deposit { client_id, .. } => *client_id,
            Transaction::Withdrawal { client_id, .. } => *client_id,
            Transaction::DisputedDeposit { client_id, .. } => *client_id,
            Transaction::DisputedWithdrawal { client_id, .. } => *client_id,
            Transaction::Dispute { client_id, .. } => *client_id,
            Transaction::Resolve { client_id, .. } => *client_id,
            Transaction::Chargeback { client_id, .. } => *client_id,
        }
    }

    /// True on the two disputed storage forms.
    pub fn is_disputed(&self) -> (r: bool)
        ensures
            r == self.spec_is_disputed(),
    {
        match self {
            Transaction::DisputedDeposit { .. } | Transaction::DisputedWithdrawal { .. } => true,
            _ => false,
        }
    }

    /// True on the two primary record kinds, the only ones that can be
    /// disputed.
    pub fn is_non_refering(&self) -> (r: bool)
        ensures
            r == self.spec_is_primary(),
    {
        match self {
            Transaction::Deposit { .. } | Transaction::Withdrawal { .. } => true,
            _ => false,
        }
    }

    /// Rewrites a primary record into its disputed form, handing back the
    /// disputed amount; anything else is returned unchanged as the error.
    pub fn make_disputed_transaction(self) -> (r: Result<(Transaction, u64), Transaction>)
        ensures
            self.spec_is_primary() ==> r == Result::<(Transaction, u64), Transaction>::Ok(
                (self.spec_disputed_form(), self.spec_amount()),
            ),
            !self.spec_is_primary() ==> r == Result::<(Transaction, u64), Transaction>::Err(self),
    {
        match self {
            Transaction::Deposit { client_id, transaction_id, amount } => Ok(
                (Transaction::DisputedDeposit { client_id, transaction_id, amount }, amount),
            ),
            Transaction::Withdrawal { client_id, transaction_id, amount } => Ok(
                (Transaction::DisputedWithdrawal { client_id, transaction_id, amount }, amount),
            ),
            _ => Err(self),
        }
    }

    /// Converts a disputed record back to its primary form, handing back the
    /// disputed amount; anything else is returned unchanged as the error.
    pub fn get_disputed_transaction(self) -> (r: Result<(Transaction, u64), Transaction>)
        ensures
            self.spec_is_disputed() ==> r == Result::<(Transaction, u64), Transaction>::Ok(
                (self.spec_primary_form(), self.spec_amount()),
            ),
            !self.spec_is_disputed() ==> r == Result::<(Transaction, u64), Transaction>::Err(self),
    {
        match self {
            Transaction::DisputedDeposit { client_id, transaction_id, amount } => Ok(
                (Transaction::Deposit { client_id, transaction_id, amount }, amount),
            ),
            Transaction::DisputedWithdrawal { client_id, transaction_id, amount } => Ok(
                (Transaction::Withdrawal { client_id, transaction_id, amount }, amount),
            ),
            _ => Err(self),
        }
    }
}

} // verus!
