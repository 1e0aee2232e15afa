use vstd::prelude::*;
use vstd::string::StringExecFns;

verus! {

/// The errors that a storage operation reports.
#[derive(Clone, Debug, PartialEq, Eq)]
pub enum OrmError {
    Constraint(String),
    DuplicateRecord(String),
    Internal(String),
    RecordNotFound(String),
    Validation(String),
    NotImplemented(String),
}

/// The kinds of error.
#[derive(Clone, Copy, Debug, PartialEq, Eq, Structural)]
pub enum ErrorKind {
    Constraint,
    DuplicateRecord,
    Internal,
    RecordNotFound,
    Validation,
    NotImplemented,
}

/// The kind of an error.
pub open spec fn kind_of(e: OrmError) -> ErrorKind {
    match e {
        OrmError::Constraint(_) => ErrorKind::Constraint,
        OrmError::DuplicateRecord(_) => ErrorKind::DuplicateRecord,
        OrmError::Internal(_) => ErrorKind::Internal,
        OrmError::RecordNotFound(_) => ErrorKind::RecordNotFound,
        OrmError::Validation(_) => ErrorKind::Validation,
        OrmError::NotImplemented(_) => ErrorKind::NotImplemented,
    }
}

/// The error is of the given kind and carries the given detail.
pub open spec fn error_matches(e: OrmError, kind: ErrorKind, text: Seq<char>) -> bool {
    kind_of(e) == kind && detail(e) == text
}

/// The text that names each kind of error, ahead of its detail.
pub open spec fn kind_text(e: OrmError) -> Seq<char> {
    match e {
        OrmError::Constraint(_) => "constraint violation: "@,
        OrmError::DuplicateRecord(_) => "duplicate record: "@,
        OrmError::Internal(_) => "internal error: "@,
        OrmError::RecordNotFound(_) => "record not found: "@,
        OrmError::Validation(_) => "validation error: "@,
        OrmError::NotImplemented(_) => "not implemented: "@,
    }
}

/// The detail that an error carries.
pub open spec fn detail(e: OrmError) -> Seq<char> {
    match e {
        OrmError::Constraint(s) => s@,
        OrmError::DuplicateRecord(s) => s@,
        OrmError::Internal(s) => s@,
        OrmError::RecordNotFound(s) => s@,
        OrmError::Validation(s) => s@,
        OrmError::NotImplemented(s) => s@,
    }
}

/// The full text of an error: a fixed prefix, the kind, then the detail.
pub open spec fn message(e: OrmError) -> Seq<char> {
    "Orm Error: "@ + kind_text(e) + detail(e)
}

/// Two errors with the same text are of the same kind and carry the same
/// detail: the text names the kind right after its fixed prefix, each kind by
/// a different first letter, and the detail is all that follows the kind.
pub proof fn law_message_determines_error(e1: OrmError, e2: OrmError)
    requires
        message(e1) == message(e2),
    ensures
        kind_of(e1) == kind_of(e2),
        detail(e1) == detail(e2),
{
    reveal_strlit("Orm Error: ");
    reveal_strlit("constraint violation: ");
    reveal_strlit("duplicate record: ");
    reveal_strlit("internal error: ");
    reveal_strlit("record not found: ");
    reveal_strlit("validation error: ");
    reveal_strlit("not implemented: ");
    let m1 = message(e1);
    let m2 = message(e2);
    assert(m1[11] == kind_text(e1)[0]);
    assert(m2[11] == kind_text(e2)[0]);
    assert(kind_of(e1) == kind_of(e2));
    assert(kind_text(e1) == kind_text(e2));
    let n: int = 11 + kind_text(e1).len() as int;
    assert(detail(e1) =~= m1.skip(n));
    assert(detail(e2) =~= m2.skip(n));
}

impl OrmError {
    /// The human-readable text of the error.
    pub fn to_string(&self) -> (r: String)
        ensures
            r@ == message(*self),
    {
        let (kind, s) = match self {
            OrmError::Constraint(s) => ("constraint violation: ", s),
            OrmError::DuplicateRecord(s) => ("duplicate record: ", s),
            OrmError::Internal(s) => ("internal error: ", s),
            OrmError::RecordNotFound(s) => ("record not found: ", s),
            OrmError::Validation(s) => ("validation error: ", s),
            OrmError::NotImplemented(s) => ("not implemented: ", s),
        };
        let head = String::from_str("Orm Error: ");
        let with_kind = head.concat(kind);
        with_kind.concat(s.as_str())
    }
}

} // verus!
