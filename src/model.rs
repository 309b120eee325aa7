//! The records the ledger keeps and the errors its operations report.

use vstd::prelude::*;
use crate::text::same_text;

verus! {

/// The outcome of a booking.
#[derive(Clone, Copy, Debug, PartialEq, Eq, Structural)]
pub enum Status {
    Pending,
    Attended,
    Missed,
}

/// The role of a staff account.
#[derive(Clone, Copy, Debug, PartialEq, Eq, Structural)]
pub enum Role {
    Worker,
    Admin,
}

/// The status named by a text, if it names one of the three.
pub open spec fn status_named(s: Seq<char>) -> Option<Status> {
    if s == seq!['p', 'e', 'n', 'd', 'i', 'n', 'g'] {
        Some(Status::Pending)
    } else if s == seq!['a', 't', 't', 'e', 'n', 'd', 'e', 'd'] {
        Some(Status::Attended)
    } else if s == seq!['m', 'i', 's', 's', 'e', 'd'] {
        Some(Status::Missed)
    } else {
        None
    }
}

pub open spec fn status_text(st: Status) -> Seq<char> {
    match st {
        Status::Pending => seq!['p', 'e', 'n', 'd', 'i', 'n', 'g'],
        Status::Attended => seq!['a', 't', 't', 'e', 'n', 'd', 'e', 'd'],
        Status::Missed => seq!['m', 'i', 's', 's', 'e', 'd'],
    }
}

pub open spec fn role_text(r: Role) -> Seq<char> {
    match r {
        Role::Worker => seq!['w', 'o', 'r', 'k', 'e', 'r'],
        Role::Admin => seq!['a', 'd', 'm', 'i', 'n'],
    }
}

impl Status {
    /// Reads one of `pending`, `attended`, `missed`.
    pub fn parse(s: &str) -> (r: Option<Status>)
        ensures
            r == status_named(s@),
    {
        let pending = "pending";
        let attended = "attended";
        let missed = "missed";
        proof {
            reveal_strlit("pending");
            reveal_strlit("attended");
            reveal_strlit("missed");
        }
        if same_text(s, pending) {
            assert(pending@ =~= seq!['p', 'e', 'n', 'd', 'i', 'n', 'g']);
            Some(Status::Pending)
        } else if same_text(s, attended) {
            assert(pending@ =~= seq!['p', 'e', 'n', 'd', 'i', 'n', 'g']);
            assert(attended@ =~= seq!['a', 't', 't', 'e', 'n', 'd', 'e', 'd']);
            Some(Status::Attended)
        } else if same_text(s, missed) {
            assert(pending@ =~= seq!['p', 'e', 'n', 'd', 'i', 'n', 'g']);
            assert(attended@ =~= seq!['a', 't', 't', 'e', 'n', 'd', 'e', 'd']);
            assert(missed@ =~= seq!['m', 'i', 's', 's', 'e', 'd']);
            Some(Status::Missed)
        } else {
            assert(pending@ =~= seq!['p', 'e', 'n', 'd', 'i', 'n', 'g']);
            assert(attended@ =~= seq!['a', 't', 't', 'e', 'n', 'd', 'e', 'd']);
            assert(missed@ =~= seq!['m', 'i', 's', 's', 'e', 'd']);
            None
        }
    }

    /// The stored name of the status.
    pub fn as_text(&self) -> (r: String)
        ensures
            r@ == status_text(*self),
    {
        let s = match self {
            Status::Pending => "pending",
            Status::Attended => "attended",
            Status::Missed => "missed",
        };
        proof {
            reveal_strlit("pending");
            reveal_strlit("attended");
            reveal_strlit("missed");
        }
        let r = s.to_owned();
        assert(r@ =~= status_text(*self));
        r
    }
}

impl Role {
    /// The stored name of the role.
    pub fn as_text(&self) -> (r: String)
        ensures
            r@ == role_text(*self),
    {
        let s = match self {
            Role::Worker => "worker",
            Role::Admin => "admin",
        };
        proof {
            reveal_strlit("worker");
            reveal_strlit("admin");
        }
        let r = s.to_owned();
        assert(r@ =~= role_text(*self));
        r
    }
}

/// One scheduled or completed client visit.
#[derive(Clone, Debug)]
pub struct Booking {
    pub id: i32,
    pub name: String,
    pub phone: String,
    pub date: String,
    pub bought: i32,
    pub status: Status,
    pub created_by: Option<i32>,
}

impl Booking {
    /// A field-for-field copy.
    pub fn duplicate(&self) -> (r: Booking)
        ensures
            r == *self,
    {
        Booking {
            id: self.id,
            name: self.name.clone(),
            phone: self.phone.clone(),
            date: self.date.clone(),
            bought: self.bought,
            status: self.status,
            created_by: self.created_by,
        }
    }
}

/// A staff account as stored, credential included.
#[derive(Clone, Debug)]
pub struct StaffAccount {
    pub id: i32,
    pub name: String,
    pub phone: String,
    pub password_hash: String,
    pub role: Role,
    pub registered_at: String,
}

/// A staff account as shown to callers: never the credential.
#[derive(Clone, Debug)]
pub struct User {
    pub id: i32,
    pub name: String,
    pub phone: String,
    pub role: Role,
    pub registered_at: String,
}

/// The public part of a stored account.
pub open spec fn public_view(a: StaffAccount) -> User {
    User { id: a.id, name: a.name, phone: a.phone, role: a.role, registered_at: a.registered_at }
}

impl StaffAccount {
    /// The account without its credential.
    pub fn to_user(&self) -> (r: User)
        ensures
            r == public_view(*self),
    {
        User {
            id: self.id,
            name: self.name.clone(),
            phone: self.phone.clone(),
            role: self.role,
            registered_at: self.registered_at.clone(),
        }
    }

    /// A field-for-field copy.
    pub fn duplicate(&self) -> (r: StaffAccount)
        ensures
            r == *self,
    {
        StaffAccount {
            id: self.id,
            name: self.name.clone(),
            phone: self.phone.clone(),
            password_hash: self.password_hash.clone(),
            role: self.role,
            registered_at: self.registered_at.clone(),
        }
    }
}

/// What is known of one client, by phone.
#[derive(Clone, Debug)]
pub struct ClientHistory {
    pub attended: u64,
    pub missed: u64,
    /// The lexicographically largest name booked under the phone.
    pub last_name: String,
}

/// Counts over all bookings.
#[derive(Clone, Copy, Debug, PartialEq, Eq, Structural)]
pub struct Statistics {
    pub total: u64,
    pub attended: u64,
    pub missed: u64,
    pub pending: u64,
    /// Bookings whose purchase flag is exactly 1.
    pub bought: u64,
}

/// The broad class of a failure.
#[derive(Clone, Copy, Debug, PartialEq, Eq, Structural)]
pub enum ErrorKind {
    Validation,
    Conflict,
    NotFound,
    Authentication,
    Internal,
}

/// Why an operation of the ledger failed.
#[derive(Clone, Copy, Debug, PartialEq, Eq, Structural)]
pub enum LedgerError {
    EmptyName,
    EmptyPhone,
    EmptyDate,
    PasswordTooShort,
    MissingCredentials,
    UnknownStatus,
    DuplicatePending,
    PhoneTaken,
    UserNotFound,
    BookingNotFound,
    InvalidCredentials,
    HashFailure,
    VerifyFailure,
    IdsExhausted,
}

pub open spec fn kind_of(e: LedgerError) -> ErrorKind {
    match e {
        LedgerError::EmptyName | LedgerError::EmptyPhone | LedgerError::EmptyDate
        | LedgerError::PasswordTooShort | LedgerError::MissingCredentials
        | LedgerError::UnknownStatus => ErrorKind::Validation,
        LedgerError::DuplicatePending | LedgerError::PhoneTaken => ErrorKind::Conflict,
        LedgerError::UserNotFound | LedgerError::BookingNotFound => ErrorKind::NotFound,
        LedgerError::InvalidCredentials => ErrorKind::Authentication,
        LedgerError::HashFailure | LedgerError::VerifyFailure | LedgerError::IdsExhausted => {
            ErrorKind::Internal
        },
    }
}

impl LedgerError {
    pub fn kind(&self) -> (r: ErrorKind)
        ensures
            r == kind_of(*self),
    {
        match self {
            LedgerError::EmptyName | LedgerError::EmptyPhone | LedgerError::EmptyDate
            | LedgerError::PasswordTooShort | LedgerError::MissingCredentials
            | LedgerError::UnknownStatus => ErrorKind::Validation,
            LedgerError::DuplicatePending | LedgerError::PhoneTaken => ErrorKind::Conflict,
            LedgerError::UserNotFound | LedgerError::BookingNotFound => ErrorKind::NotFound,
            LedgerError::InvalidCredentials => ErrorKind::Authentication,
            LedgerError::HashFailure | LedgerError::VerifyFailure | LedgerError::IdsExhausted => {
            ErrorKind::Internal
        },
        }
    }

    /// A message for the person at the desk.
    pub fn message(&self) -> String {
        let s = match self {
            LedgerError::EmptyName => "name must not be empty",
            LedgerError::EmptyPhone => "phone must not be empty",
            LedgerError::EmptyDate => "date must not be empty",
            LedgerError::PasswordTooShort => "password is too short",
            LedgerError::MissingCredentials => "fill in phone and password",
            LedgerError::UnknownStatus => "unknown status",
            LedgerError::DuplicatePending => "a pending booking already exists for this time",
            LedgerError::PhoneTaken => "an account with this phone already exists",
            LedgerError::UserNotFound => "user not found",
            LedgerError::BookingNotFound => "booking not found",
            LedgerError::InvalidCredentials => "invalid phone or password",
            LedgerError::HashFailure => "password hashing failed",
            LedgerError::VerifyFailure => "stored password hash cannot be checked",
            LedgerError::IdsExhausted => "no identifiers left",
        };
        s.to_owned()
    }
}

} // verus!
