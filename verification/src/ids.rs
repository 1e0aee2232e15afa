//! Identifiers of the stored records. Each wraps the 128 bits of a UUID.
use vstd::prelude::*;
use vstd::arithmetic::power::pow;

verus! {

/// Makes a fresh random UUID.
///
/// Calls `uuid::Uuid::new_v4` and hands back its 128 bits. The value is drawn
/// at random, so nothing is promised of it.
#[verifier::external_body]
fn random_uuid() -> (r: u128) {
    uuid::Uuid::new_v4().as_u128()
}

/// The lower-case hexadecimal digit of a number below sixteen.
pub open spec fn hex_char(n: int) -> char {
    if n < 10 {
        ('0' as int + n) as char
    } else {
        ('a' as int + n - 10) as char
    }
}

/// The `k`-th hexadecimal digit of `v`, counting from the most significant.
pub open spec fn nibble(v: u128, k: int) -> int {
    (v as int / pow(16, (31 - k) as nat)) % 16
}

/// How many hyphens stand before position `p` of the hyphenated text.
pub open spec fn hyphens_before(p: int) -> int {
    if p < 8 {
        0
    } else if p < 13 {
        1
    } else if p < 18 {
        2
    } else if p < 23 {
        3
    } else {
        4
    }
}

/// The hyphenated lower-case text of a UUID, such as
/// `67e55044-10b1-426f-9247-bb680e5fe0c8`.
pub open spec fn uuid_text(v: u128) -> Seq<char> {
    Seq::new(
        36,
        |p: int|
            if p == 8 || p == 13 || p == 18 || p == 23 {
                '-'
            } else {
                hex_char(nibble(v, p - hyphens_before(p)))
            },
    )
}

/// The text of a UUID given by its 128 bits.
///
/// Calls the `Display` of `uuid::Uuid`, which writes the hyphenated
/// lower-case form: 32 hexadecimal digits, most significant first, in groups
/// of 8, 4, 4, 4 and 12 separated by hyphens.
#[verifier::external_body]
pub(crate) fn uuid_to_string(value: u128) -> (r: String)
    ensures
        r@ == uuid_text(value),
{
    uuid::Uuid::from_u128(value).to_string()
}

/// What `uuid::Uuid::parse_str` makes of a text: the 128 bits, or the text
/// of its error.
pub uninterp spec fn parsed_uuid(text: Seq<char>) -> Result<u128, Seq<char>>;

/// Reads a UUID from a text.
///
/// Calls `uuid::Uuid::parse_str`, which accepts the simple, hyphenated,
/// braced and URN forms; on failure the error's `Display` text is handed back.
#[verifier::external_body]
pub(crate) fn parse_uuid(text: &str) -> (r: Result<u128, String>)
    ensures
        match r {
            Ok(v) => parsed_uuid(text@) == Ok::<u128, Seq<char>>(v),
            Err(e) => parsed_uuid(text@) == Err::<u128, Seq<char>>(e@),
        },
{
    match uuid::Uuid::parse_str(text) {
        Ok(u) => Ok(u.as_u128()),
        Err(e) => Err(e.to_string()),
    }
}

/// The identifier of a ledger account.
#[derive(Clone, Copy, Debug, PartialEq, Eq, Structural, Hash)]
pub struct AccountId {
    pub value: u128,
}

/// The identifier of a general ledger.
#[derive(Clone, Copy, Debug, PartialEq, Eq, Structural, Hash)]
pub struct GeneralLedgerId {
    pub value: u128,
}

/// The identifier of an accounting period.
#[derive(Clone, Copy, Debug, PartialEq, Eq, Structural, Hash)]
pub struct PeriodId {
    pub value: u128,
}

/// The identifier of an interim accounting period.
#[derive(Clone, Copy, Debug, PartialEq, Eq, Structural, Hash)]
pub struct InterimPeriodId {
    pub value: u128,
}

/// The identifier of a journal.
#[derive(Clone, Copy, Debug, PartialEq, Eq, Structural, Hash)]
pub struct JournalId {
    pub value: u128,
}

/// The identifier of a column of a special journal template.
#[derive(Clone, Copy, Debug, PartialEq, Eq, Structural, Hash)]
pub struct TemplateColumnId {
    pub value: u128,
}

/// The identifier of a special journal column total.
#[derive(Clone, Copy, Debug, PartialEq, Eq, Structural, Hash)]
pub struct ColumnTotalId {
    pub value: u128,
}

impl AccountId {
    /// A fresh random identifier.
    pub fn new() -> (r: Self) {
        AccountId { value: random_uuid() }
    }

    /// The hyphenated text of the identifier.
    pub fn to_string(&self) -> (r: String)
        ensures
            r@ == uuid_text(self.value),
    {
        uuid_to_string(self.value)
    }
}

impl GeneralLedgerId {
    /// A fresh random identifier.
    pub fn new() -> (r: Self) {
        GeneralLedgerId { value: random_uuid() }
    }
}

impl PeriodId {
    /// A fresh random identifier.
    pub fn new() -> (r: Self) {
        PeriodId { value: random_uuid() }
    }
}

impl InterimPeriodId {
    /// A fresh random identifier.
    pub fn new() -> (r: Self) {
        InterimPeriodId { value: random_uuid() }
    }
}

impl JournalId {
    /// A fresh random identifier.
    pub fn new() -> (r: Self) {
        JournalId { value: random_uuid() }
    }

    /// Reads the identifier from its text; the error is the text of the
    /// parser's complaint.
    pub fn parse_str(text: &str) -> (r: Result<Self, String>)
        ensures
            match r {
                Ok(id) => parsed_uuid(text@) == Ok::<u128, Seq<char>>(id.value),
                Err(e) => parsed_uuid(text@) == Err::<u128, Seq<char>>(e@),
            },
    {
        match parse_uuid(text) {
            Ok(v) => Ok(JournalId { value: v }),
            Err(e) => Err(e),
        }
    }
}

impl TemplateColumnId {
    /// A fresh random identifier.
    pub fn new() -> (r: Self) {
        TemplateColumnId { value: random_uuid() }
    }

    /// Reads the identifier from its text; the error is the text of the
    /// parser's complaint.
    pub fn parse_str(text: &str) -> (r: Result<Self, String>)
        ensures
            match r {
                Ok(id) => parsed_uuid(text@) == Ok::<u128, Seq<char>>(id.value),
                Err(e) => parsed_uuid(text@) == Err::<u128, Seq<char>>(e@),
            },
    {
        match parse_uuid(text) {
            Ok(v) => Ok(TemplateColumnId { value: v }),
            Err(e) => Err(e),
        }
    }
}

impl ColumnTotalId {
    /// A fresh random identifier.
    pub fn new() -> (r: Self) {
        ColumnTotalId { value: random_uuid() }
    }
}

} // verus!
