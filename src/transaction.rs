use vstd::prelude::*;
use crate::amount::{parse_amount, parsed_amount, Amount};

verus! {

/// Client identifiers are 16-bit.
pub type ClientId = u16;

/// Transaction identifiers are 32-bit.
pub type TransactionId = u32;

#[derive(Debug, Clone, Copy, PartialEq, Eq, Structural)]
pub enum TransactionStatus {
    OK,
    Disputed,
    Chargedback,
}

#[derive(Debug, Clone, Copy, PartialEq, Eq, Structural)]
pub enum TransactionType {
    Deposit,
    Withdrawal,
    Dispute,
    Resolve,
    Chargeback,
}

/// One record of the transaction log.
#[derive(Debug, Clone, Copy, PartialEq, Eq)]
pub struct Transaction {
    pub tx_type: TransactionType,
    pub client_id: ClientId,
    pub tx_id: TransactionId,
    pub amount: Option<Amount>,
    pub status: TransactionStatus,
}

/// Why a log record could not be read as a transaction.
#[derive(Debug, Clone, Copy, PartialEq, Eq, Structural)]
pub enum RecordError {
    FieldCount,
    UnknownType,
    BadClient,
    BadTransactionId,
    BadAmount,
    MissingAmount,
}

impl TransactionType {
    /// Deposits and withdrawals move money and so carry an amount.
    pub open spec fn moves_funds(self) -> bool {
        self == TransactionType::Deposit || self == TransactionType::Withdrawal
    }
}

impl Transaction {
    /// A transaction that moves funds has an amount.
    pub open spec fn well_formed(self) -> bool {
        self.tx_type.moves_funds() ==> self.amount is Some
    }
}

/// The transaction type a record's first field names.
pub open spec fn type_named(s: Seq<char>) -> Option<TransactionType> {
    if s == "deposit"@ {
        Some(TransactionType::Deposit)
    } else if s == "withdrawal"@ {
        Some(TransactionType::Withdrawal)
    } else if s == "dispute"@ {
        Some(TransactionType::Dispute)
    } else if s == "resolve"@ {
        Some(TransactionType::Resolve)
    } else if s == "chargeback"@ {
        Some(TransactionType::Chargeback)
    } else {
        None
    }
}

pub open spec fn is_digit(c: char) -> bool {
    '0' <= c <= '9'
}

/// The number a nonempty run of decimal digits writes.
pub open spec fn digits_value(s: Seq<char>) -> int
    decreases s.len(),
{
    if s.len() == 0 {
        0
    } else {
        digits_value(s.drop_last()) * 10 + (s.last() as int - '0' as int)
    }
}

/// An unsigned integer written as an optional `+` followed by decimal digits only,
/// when its value is at most `max`.
pub open spec fn unsigned_of(s: Seq<char>, max: int) -> Option<int> {
    let d = if s.len() > 0 && s[0] == '+' {
        s.drop_first()
    } else {
        s
    };
    if d.len() > 0 && (forall|i: int| 0 <= i < d.len() ==> is_digit(#[trigger] d[i]))
        && digits_value(d) <= max {
        Some(digits_value(d))
    } else {
        None
    }
}

/// The string with its leading and trailing whitespace removed.
pub uninterp spec fn trimmed(s: Seq<char>) -> Seq<char>;

/// The fields of a CSV record, in order.
pub uninterp spec fn record_fields(r: csv::StringRecord) -> Seq<Seq<char>>;

#[verifier::external_type_specification]
#[verifier::external_body]
pub struct ExStringRecord(csv::StringRecord);

/// Relies on `csv::StringRecord::get`: the field at index `i`, or `None` past the end.
#[verifier::external_body]
fn record_field(r: &csv::StringRecord, i: usize) -> (f: Option<&str>)
    ensures
        match f {
            Some(s) => i < record_fields(*r).len() && s@ == record_fields(*r)[i as int],
            None => i >= record_fields(*r).len(),
        },
{
    r.get(i)
}

/// Relies on `str::trim`: the string without leading and trailing whitespace.
#[verifier::external_body]
fn trim_field(s: &str) -> (r: &str)
    ensures
        r@ == trimmed(s@),
{
    s.trim()
}

/// Relies on `u16::from_str`: an optional `+` and decimal digits whose value fits.
#[verifier::external_body]
fn parse_u16(s: &str) -> (r: Option<u16>)
    ensures
        r == match unsigned_of(s@, u16::MAX as int) {
            Some(v) => Some(v as u16),
            None => None,
        },
{
    s.parse::<u16>().ok()
}

/// Relies on `u32::from_str`: an optional `+` and decimal digits whose value fits.
#[verifier::external_body]
fn parse_u32(s: &str) -> (r: Option<u32>)
    ensures
        r == match unsigned_of(s@, u32::MAX as int) {
            Some(v) => Some(v as u32),
            None => None,
        },
{
    s.parse::<u32>().ok()
}

/// Whether two strings hold the same characters.
fn same_chars(a: &str, b: &str) -> (r: bool)
    ensures
        r == (a@ == b@),
{
    let n = a.unicode_len();
    if n != b.unicode_len() {
        return false;
    }
    let mut i: usize = 0;
    while i < n
        invariant
            n == a@.len() == b@.len(),
            i <= n,
            forall|j: int| 0 <= j < i ==> a@[j] == b@[j],
        decreases n - i,
    {
        if a.get_char(i) != b.get_char(i) {
            return false;
        }
        i = i + 1;
    }
    assert(a@ == b@);
    true
}

/// Reads the transaction type from its lower-case name.
pub fn parse_type(s: &str) -> (r: Option<TransactionType>)
    ensures
        r == type_named(s@),
{
    proof {
        reveal_strlit("deposit");
        reveal_strlit("withdrawal");
        reveal_strlit("dispute");
        reveal_strlit("resolve");
        reveal_strlit("chargeback");
    }
    if same_chars(s, "deposit") {
        Some(TransactionType::Deposit)
    } else if same_chars(s, "withdrawal") {
        Some(TransactionType::Withdrawal)
    } else if same_chars(s, "dispute") {
        Some(TransactionType::Dispute)
    } else if same_chars(s, "resolve") {
        Some(TransactionType::Resolve)
    } else if same_chars(s, "chargeback") {
        Some(TransactionType::Chargeback)
    } else {
        None
    }
}

/// The amount column: absent or empty gives no amount, otherwise a decimal.
pub open spec fn amount_field(f: Seq<Seq<char>>) -> Result<Option<Amount>, RecordError> {
    if f.len() < 4 || f[3].len() == 0 {
        Ok(None)
    } else {
        match parsed_amount(trimmed(f[3])) {
            Some(a) => Ok(Some(a)),
            None => Err(RecordError::BadAmount),
        }
    }
}

/// The transaction a record with fields `type, client, tx[, amount]` describes.
pub open spec fn transaction_of(f: Seq<Seq<char>>) -> Result<Transaction, RecordError> {
    if f.len() < 3 || f.len() > 4 {
        Err(RecordError::FieldCount)
    } else {
        match type_named(f[0]) {
            None => Err(RecordError::UnknownType),
            Some(t) => match unsigned_of(trimmed(f[1]), u16::MAX as int) {
                None => Err(RecordError::BadClient),
                Some(c) => match unsigned_of(trimmed(f[2]), u32::MAX as int) {
                    None => Err(RecordError::BadTransactionId),
                    Some(id) => match amount_field(f) {
                        Err(e) => Err(e),
                        Ok(a) => if t.moves_funds() && a is None {
                            Err(RecordError::MissingAmount)
                        } else {
                            Ok(
                                Transaction {
                                    tx_type: t,
                                    client_id: c as u16,
                                    tx_id: id as u32,
                                    amount: a,
                                    status: TransactionStatus::OK,
                                },
                            )
                        },
                    },
                },
            },
        }
    }
}

impl Transaction {
    /// Reads a transaction from a CSV record of three or four fields.
    pub fn from_record(record: &csv::StringRecord) -> (r: Result<Transaction, RecordError>)
        ensures
            r == transaction_of(record_fields(*record)),
            r matches Ok(t) ==> t.well_formed(),
    {
        let ghost f = record_fields(*record);
        let f0 = record_field(record, 0);
        let f1 = record_field(record, 1);
        let f2 = record_field(record, 2);
        let f3 = record_field(record, 3);
        let f4 = record_field(record, 4);
        if f2.is_none() || f4.is_some() {
            return Err(RecordError::FieldCount);
        }
        let tx_type = match parse_type(f0.unwrap()) {
            Some(t) => t,
            None => return Err(RecordError::UnknownType),
        };
        let client_id = match parse_u16(trim_field(f1.unwrap())) {
            Some(c) => c,
            None => return Err(RecordError::BadClient),
        };
        let tx_id = match parse_u32(trim_field(f2.unwrap())) {
            Some(id) => id,
            None => return Err(RecordError::BadTransactionId),
        };
        let amount = match f3 {
            None => None,
            Some(s) => if s.unicode_len() == 0 {
                None
            } else {
                match parse_amount(trim_field(s)) {
                    Some(a) => Some(a),
                    None => return Err(RecordError::BadAmount),
                }
            },
        };
        let moves = match tx_type {
            TransactionType::Deposit | TransactionType::Withdrawal => true,
            _ => false,
        };
        if moves && amount.is_none() {
            return Err(RecordError::MissingAmount);
        }
        Ok(Transaction { tx_type, client_id, tx_id, amount, status: TransactionStatus::OK })
    }
}

impl TryFrom<csv::StringRecord> for Transaction {
    type Error = RecordError;

    fn try_from(record: csv::StringRecord) -> (r: Result<Transaction, RecordError>) {
        Transaction::from_record(&record)
    }
}

impl vstd::std_specs::convert::TryFromSpecImpl<csv::StringRecord> for Transaction {
    open spec fn obeys_try_from_spec() -> bool {
        true
    }

    open spec fn try_from_spec(v: csv::StringRecord) -> Result<Transaction, RecordError> {
        transaction_of(record_fields(v))
    }
}

} // verus!
