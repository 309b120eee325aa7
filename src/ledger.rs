//! The ledger: bookings and staff accounts held together under one owner,
//! with the uniqueness rules that every operation keeps.

use vstd::prelude::*;
use crate::credential::{
    bcrypt_verdict, classify_credential, hash_password, scheme_of, sha256_hex, verify_legacy_sha256,
    verify_password, CredentialScheme,
};
use crate::model::{public_view, status_named, Booking, LedgerError, Role, StaffAccount, Status, User};
use crate::text::{is_blank, same_text, trim_text, trimmed};

verus! {

/// Whether the privileged admin command may run: always in a development
/// build, elsewhere only when the opt-in flag reads exactly `1`.
pub fn admin_command_allowed(debug_build: bool, opt_in: Option<&str>) -> (r: bool)
    ensures
        r == (debug_build || (opt_in is Some && opt_in->0@ == seq!['1'])),
{
    let one = "1";
    proof {
        reveal_strlit("1");
    }
    assert(one@ =~= seq!['1']);
    debug_build || match opt_in {
        Some(v) => same_text(v, one),
        None => false,
    }
}

/// The booking with its outcome replaced.
pub open spec fn with_status(b: Booking, st: Status) -> Booking {
    Booking { status: st, ..b }
}

/// The account with its role replaced.
pub open spec fn with_role(a: StaffAccount, role: Role) -> StaffAccount {
    StaffAccount { role, ..a }
}

/// Where the account registered under `phone` stands.
pub open spec fn account_index(accounts: Seq<StaffAccount>, phone: Seq<char>) -> int {
    choose|i: int| 0 <= i < accounts.len() && #[trigger] accounts[i].phone@ == phone
}

/// `b` is `a` with a fresh modern credential that accepts `password`.
pub open spec fn rehashed(a: StaffAccount, b: StaffAccount, password: Seq<char>) -> bool {
    &&& b.id == a.id
    &&& b.name == a.name
    &&& b.phone == a.phone
    &&& b.role == a.role
    &&& b.registered_at == a.registered_at
    &&& scheme_of(b.password_hash@) == CredentialScheme::Modern
    &&& bcrypt_verdict(password, b.password_hash@) == Some(true)
}

/// A pending booking other than the one with id `except` holds the slot
/// `(phone, date)`.
pub open spec fn slot_taken(rows: Seq<Booking>, phone: Seq<char>, date: Seq<char>, except: Option<i32>) -> bool {
    exists|i: int|
        0 <= i < rows.len() && (except is None || rows[i].id != except->0)
            && rows[i].status == Status::Pending && #[trigger] rows[i].phone@ == phone
            && rows[i].date@ == date
}

pub open spec fn has_booking(rows: Seq<Booking>, id: i32) -> bool {
    exists|i: int| 0 <= i < rows.len() && #[trigger] rows[i].id == id
}

pub open spec fn has_account(accounts: Seq<StaffAccount>, id: i32) -> bool {
    exists|i: int| 0 <= i < accounts.len() && #[trigger] accounts[i].id == id
}

pub open spec fn phone_registered(accounts: Seq<StaffAccount>, phone: Seq<char>) -> bool {
    exists|i: int| 0 <= i < accounts.len() && #[trigger] accounts[i].phone@ == phone
}

/// No two pending bookings share a phone and a date.
pub open spec fn pending_slots_unique(rows: Seq<Booking>) -> bool {
    forall|i: int, j: int|
        0 <= i < rows.len() && 0 <= j < rows.len() && i != j && rows[i].status == Status::Pending
            && rows[j].status == Status::Pending && #[trigger] rows[i].phone@ == #[trigger] rows[j].phone@
            ==> rows[i].date@ != rows[j].date@
}

pub open spec fn booking_ids_fresh(rows: Seq<Booking>, next: i32) -> bool {
    &&& forall|i: int| 0 <= i < rows.len() ==> 0 < #[trigger] rows[i].id < next
    &&& forall|i: int, j: int|
        0 <= i < rows.len() && 0 <= j < rows.len() && i != j ==> #[trigger] rows[i].id != #[trigger] rows[j].id
}

pub open spec fn account_ids_fresh(accounts: Seq<StaffAccount>, next: i32) -> bool {
    &&& forall|i: int| 0 <= i < accounts.len() ==> 0 < #[trigger] accounts[i].id < next
    &&& forall|i: int, j: int|
        0 <= i < accounts.len() && 0 <= j < accounts.len() && i != j
            ==> #[trigger] accounts[i].id != #[trigger] accounts[j].id
}

pub open spec fn phones_unique(accounts: Seq<StaffAccount>) -> bool {
    forall|i: int, j: int|
        0 <= i < accounts.len() && 0 <= j < accounts.len() && i != j
            ==> #[trigger] accounts[i].phone@ != #[trigger] accounts[j].phone@
}

/// Bookings and staff accounts, with the counters that hand out their ids.
pub struct Ledger {
    bookings: Vec<Booking>,
    accounts: Vec<StaffAccount>,
    next_booking_id: i32,
    next_account_id: i32,
    min_password_len: usize,
}

impl Ledger {
    pub closed spec fn bookings(&self) -> Seq<Booking> {
        self.bookings@
    }

    pub closed spec fn accounts(&self) -> Seq<StaffAccount> {
        self.accounts@
    }

    pub closed spec fn next_booking_id(&self) -> i32 {
        self.next_booking_id
    }

    pub closed spec fn next_account_id(&self) -> i32 {
        self.next_account_id
    }

    /// The least number of characters a new password must have.
    pub closed spec fn min_password_len(&self) -> nat {
        self.min_password_len as nat
    }

    pub open spec fn wf(&self) -> bool {
        &&& 0 < self.next_booking_id()
        &&& 0 < self.next_account_id()
        &&& booking_ids_fresh(self.bookings(), self.next_booking_id())
        &&& account_ids_fresh(self.accounts(), self.next_account_id())
        &&& pending_slots_unique(self.bookings())
        &&& phones_unique(self.accounts())
    }

    /// The accounts, their ids and the password policy are as they were.
    pub open spec fn same_accounts(&self, other: Ledger) -> bool {
        &&& self.accounts() == other.accounts()
        &&& self.next_account_id() == other.next_account_id()
        &&& self.min_password_len() == other.min_password_len()
    }

    /// The bookings and their ids are as they were.
    pub open spec fn same_bookings(&self, other: Ledger) -> bool {
        &&& self.bookings() == other.bookings()
        &&& self.next_booking_id() == other.next_booking_id()
    }

    /// Why a booking cannot be created, checked in this order.
    pub open spec fn save_refusal(
        &self,
        name: Seq<char>,
        phone: Seq<char>,
        date: Seq<char>,
        created_by: Option<i32>,
    ) -> Option<LedgerError> {
        if is_blank(name) {
            Some(LedgerError::EmptyName)
        } else if is_blank(phone) {
            Some(LedgerError::EmptyPhone)
        } else if is_blank(date) {
            Some(LedgerError::EmptyDate)
        } else if created_by is Some && !has_account(self.accounts(), created_by->0) {
            Some(LedgerError::UserNotFound)
        } else if slot_taken(self.bookings(), trimmed(phone), date, None) {
            Some(LedgerError::DuplicatePending)
        } else if self.next_booking_id() == i32::MAX {
            Some(LedgerError::IdsExhausted)
        } else {
            None
        }
    }

    /// `new` is `self` with one pending booking appended under the next id.
    pub open spec fn booking_appended(
        &self,
        new: Ledger,
        name: Seq<char>,
        phone: Seq<char>,
        date: Seq<char>,
        bought: i32,
        created_by: Option<i32>,
    ) -> bool {
        let b = new.bookings().last();
        &&& new.bookings().len() == self.bookings().len() + 1
        &&& new.bookings().drop_last() == self.bookings()
        &&& b.id == self.next_booking_id()
        &&& b.name@ == trimmed(name)
        &&& b.phone@ == trimmed(phone)
        &&& b.date@ == date
        &&& b.bought == bought
        &&& b.status == Status::Pending
        &&& b.created_by == created_by
        &&& new.next_booking_id() == self.next_booking_id() + 1
        &&& new.same_accounts(*self)
    }

    /// An empty ledger whose passwords need at least `min_password_len`
    /// characters.
    pub fn new(min_password_len: usize) -> (r: Ledger)
        ensures
            r.wf(),
            r.bookings().len() == 0,
            r.accounts().len() == 0,
            r.min_password_len() == min_password_len,
    {
        Ledger {
            bookings: Vec::new(),
            accounts: Vec::new(),
            next_booking_id: 1,
            next_account_id: 1,
            min_password_len,
        }
    }

    fn account_exists(&self, id: i32) -> (r: bool)
        ensures
            r == has_account(self.accounts(), id),
    {
        let mut i: usize = 0;
        while i < self.accounts.len()
            invariant
                i <= self.accounts@.len(),
                forall|k: int| 0 <= k < i ==> #[trigger] self.accounts@[k].id != id,
            decreases self.accounts@.len() - i,
        {
            if self.accounts[i].id == id {
                return true;
            }
            i = i + 1;
        }
        false
    }

    fn slot_is_taken(&self, phone: &str, date: &str, except: Option<i32>) -> (r: bool)
        ensures
            r == slot_taken(self.bookings(), phone@, date@, except),
    {
        let mut i: usize = 0;
        while i < self.bookings.len()
            invariant
                i <= self.bookings@.len(),
                forall|k: int|
                    0 <= k < i ==> !((except is None || self.bookings@[k].id != except->0)
                        && self.bookings@[k].status == Status::Pending
                        && #[trigger] self.bookings@[k].phone@ == phone@
                        && self.bookings@[k].date@ == date@),
            decreases self.bookings@.len() - i,
        {
            let b = &self.bookings[i];
            let other = match except {
                None => true,
                Some(x) => b.id != x,
            };
            if other && b.status == Status::Pending && same_text(b.phone.as_str(), phone)
                && same_text(b.date.as_str(), date) {
                return true;
            }
            i = i + 1;
        }
        false
    }

    /// Records a new pending booking and returns its id.
    pub fn save_booking(
        &mut self,
        name: &str,
        phone: &str,
        date: &str,
        bought: i32,
        created_by: Option<i32>,
    ) -> (r: Result<i32, LedgerError>)
        requires
            old(self).wf(),
        ensures
            final(self).wf(),
            match old(self).save_refusal(name@, phone@, date@, created_by) {
                Some(e) => r == Err::<i32, LedgerError>(e) && *final(self) == *old(self),
                None => r == Ok::<i32, LedgerError>(old(self).next_booking_id())
                    && old(self).booking_appended(*final(self), name@, phone@, date@, bought, created_by),
            },
    {
        let name_t = trim_text(name);
        let phone_t = trim_text(phone);
        let date_t = trim_text(date);
        if name_t.as_str().is_empty() {
            return Err(LedgerError::EmptyName);
        }
        if phone_t.as_str().is_empty() {
            return Err(LedgerError::EmptyPhone);
        }
        if date_t.as_str().is_empty() {
            return Err(LedgerError::EmptyDate);
        }
        if let Some(user_id) = created_by {
            if !self.account_exists(user_id) {
                return Err(LedgerError::UserNotFound);
            }
        }
        if self.slot_is_taken(phone_t.as_str(), date, None) {
            return Err(LedgerError::DuplicatePending);
        }
        if self.next_booking_id == i32::MAX {
            return Err(LedgerError::IdsExhausted);
        }
        let id = self.next_booking_id;
        let booking = Booking {
            id,
            name: name_t,
            phone: phone_t,
            date: date.to_owned(),
            bought,
            status: Status::Pending,
            created_by,
        };
        self.bookings.push(booking);
        self.next_booking_id = id + 1;
        assert(self.bookings@.drop_last() =~= old(self).bookings@);
        Ok(id)
    }

    /// Why a booking's status cannot be set, checked in this order.
    pub open spec fn status_refusal(&self, id: i32, status: Seq<char>) -> Option<LedgerError> {
        if status_named(status) is None {
            Some(LedgerError::UnknownStatus)
        } else if !has_booking(self.bookings(), id) {
            Some(LedgerError::BookingNotFound)
        } else if status_named(status) == Some(Status::Pending) && exists|i: int|
            0 <= i < self.bookings().len() && #[trigger] self.bookings()[i].id == id
                && slot_taken(self.bookings(), self.bookings()[i].phone@, self.bookings()[i].date@, Some(id)) {
            Some(LedgerError::DuplicatePending)
        } else {
            None
        }
    }

    /// Why a booking cannot be edited, checked in this order.
    pub open spec fn edit_refusal(
        &self,
        id: i32,
        name: Seq<char>,
        phone: Seq<char>,
        date: Seq<char>,
        status: Seq<char>,
    ) -> Option<LedgerError> {
        if is_blank(name) {
            Some(LedgerError::EmptyName)
        } else if is_blank(phone) {
            Some(LedgerError::EmptyPhone)
        } else if is_blank(date) {
            Some(LedgerError::EmptyDate)
        } else if status_named(status) is None {
            Some(LedgerError::UnknownStatus)
        } else if !has_booking(self.bookings(), id) {
            Some(LedgerError::BookingNotFound)
        } else if status_named(status) == Some(Status::Pending) && slot_taken(
            self.bookings(),
            trimmed(phone),
            date,
            Some(id),
        ) {
            Some(LedgerError::DuplicatePending)
        } else {
            None
        }
    }

    /// `new` is `self` with the booking `id` rewritten by `change`, every
    /// other booking kept in place.
    pub open spec fn booking_rewritten(
        &self,
        new: Ledger,
        id: i32,
        change: spec_fn(Booking, Booking) -> bool,
    ) -> bool {
        &&& new.bookings().len() == self.bookings().len()
        &&& forall|j: int|
            0 <= j < self.bookings().len() ==> if #[trigger] self.bookings()[j].id == id {
                change(self.bookings()[j], new.bookings()[j])
            } else {
                new.bookings()[j] == self.bookings()[j]
            }
        &&& new.next_booking_id() == self.next_booking_id()
        &&& new.same_accounts(*self)
    }

    /// Sets the outcome of a booking; any of the three values may follow any
    /// other.
    pub fn update_status(&mut self, id: i32, status: &str) -> (r: Result<(), LedgerError>)
        requires
            old(self).wf(),
        ensures
            final(self).wf(),
            match old(self).status_refusal(id, status@) {
                Some(e) => r == Err::<(), LedgerError>(e) && *final(self) == *old(self),
                None => r is Ok && old(self).booking_rewritten(
                    *final(self),
                    id,
                    |b: Booking, c: Booking| c == with_status(b, status_named(status@)->0),
                ),
            },
    {
        let st = match Status::parse(status) {
            Some(st) => st,
            None => return Err(LedgerError::UnknownStatus),
        };
        let i = match self.position_of(id) {
            Some(i) => i,
            None => return Err(LedgerError::BookingNotFound),
        };
        if st == Status::Pending {
            let taken = self.slot_is_taken(
                self.bookings[i].phone.as_str(),
                self.bookings[i].date.as_str(),
                Some(id),
            );
            if taken {
                return Err(LedgerError::DuplicatePending);
            }
        }
        self.bookings[i].status = st;
        proof {
            assert forall|j: int| 0 <= j < self.bookings@.len() && j != i implies
                #[trigger] old(self).bookings@[j].id != id by {}
        }
        assert(self.bookings@[i as int] == with_status(old(self).bookings@[i as int], st));
        Ok(())
    }

    /// Rewrites every field of a booking but its id and its creator.
    pub fn edit_booking(
        &mut self,
        id: i32,
        name: &str,
        phone: &str,
        date: &str,
        bought: i32,
        status: &str,
    ) -> (r: Result<(), LedgerError>)
        requires
            old(self).wf(),
        ensures
            final(self).wf(),
            match old(self).edit_refusal(id, name@, phone@, date@, status@) {
                Some(e) => r == Err::<(), LedgerError>(e) && *final(self) == *old(self),
                None => r is Ok && old(self).booking_rewritten(
                    *final(self),
                    id,
                    |b: Booking, c: Booking|
                        c.id == b.id && c.name@ == trimmed(name@) && c.phone@ == trimmed(phone@)
                            && c.date@ == date@ && c.bought == bought && c.status == status_named(
                            status@,
                        )->0 && c.created_by == b.created_by,
                ),
            },
    {
        let name_t = trim_text(name);
        let phone_t = trim_text(phone);
        let date_t = trim_text(date);
        if name_t.as_str().is_empty() {
            return Err(LedgerError::EmptyName);
        }
        if phone_t.as_str().is_empty() {
            return Err(LedgerError::EmptyPhone);
        }
        if date_t.as_str().is_empty() {
            return Err(LedgerError::EmptyDate);
        }
        let st = match Status::parse(status) {
            Some(st) => st,
            None => return Err(LedgerError::UnknownStatus),
        };
        let i = match self.position_of(id) {
            Some(i) => i,
            None => return Err(LedgerError::BookingNotFound),
        };
        if st == Status::Pending && self.slot_is_taken(phone_t.as_str(), date, Some(id)) {
            return Err(LedgerError::DuplicatePending);
        }
        let created_by = self.bookings[i].created_by;
        self.bookings[i] = Booking {
            id,
            name: name_t,
            phone: phone_t,
            date: date.to_owned(),
            bought,
            status: st,
            created_by,
        };
        proof {
            assert forall|j: int| 0 <= j < self.bookings@.len() && j != i implies
                #[trigger] old(self).bookings@[j].id != id by {}
        }
        Ok(())
    }

    /// Removes a booking.
    pub fn delete_booking(&mut self, id: i32) -> (r: Result<(), LedgerError>)
        requires
            old(self).wf(),
        ensures
            final(self).wf(),
            has_booking(old(self).bookings(), id) ==> r is Ok && (exists|i: int|
                0 <= i < old(self).bookings().len() && #[trigger] old(self).bookings()[i].id == id
                    && final(self).bookings() == old(self).bookings().remove(i))
                && final(self).next_booking_id() == old(self).next_booking_id()
                && final(self).same_accounts(*old(self)),
            !has_booking(old(self).bookings(), id) ==> r == Err::<(), LedgerError>(
                LedgerError::BookingNotFound,
            ) && *final(self) == *old(self),
    {
        let i = match self.position_of(id) {
            Some(i) => i,
            None => return Err(LedgerError::BookingNotFound),
        };
        self.bookings.remove(i);
        assert(self.bookings() == old(self).bookings().remove(i as int));
        Ok(())
    }

    /// Where the booking with the given id stands.
    fn position_of(&self, id: i32) -> (r: Option<usize>)
        ensures
            match r {
                Some(i) => i < self.bookings().len() && self.bookings()[i as int].id == id,
                None => !has_booking(self.bookings(), id),
            },
    {
        let mut i: usize = 0;
        while i < self.bookings.len()
            invariant
                i <= self.bookings@.len(),
                forall|k: int| 0 <= k < i ==> #[trigger] self.bookings@[k].id != id,
            decreases self.bookings@.len() - i,
        {
            if self.bookings[i].id == id {
                return Some(i);
            }
            i = i + 1;
        }
        None
    }

    /// Why an account cannot be registered, checked in this order.
    pub open spec fn register_refusal(
        &self,
        name: Seq<char>,
        phone: Seq<char>,
        password: Seq<char>,
    ) -> Option<LedgerError> {
        if is_blank(name) {
            Some(LedgerError::EmptyName)
        } else if is_blank(phone) {
            Some(LedgerError::EmptyPhone)
        } else if password.len() < self.min_password_len() {
            Some(LedgerError::PasswordTooShort)
        } else if phone_registered(self.accounts(), trimmed(phone)) {
            Some(LedgerError::PhoneTaken)
        } else if self.next_account_id() == i32::MAX {
            Some(LedgerError::IdsExhausted)
        } else {
            None
        }
    }

    /// `new` is `self` with one worker account appended under the next id,
    /// whose credential is modern and accepts `password`.
    pub open spec fn account_appended(
        &self,
        new: Ledger,
        name: Seq<char>,
        phone: Seq<char>,
        password: Seq<char>,
        registered_at: Seq<char>,
    ) -> bool {
        let a = new.accounts().last();
        &&& new.accounts().len() == self.accounts().len() + 1
        &&& new.accounts().drop_last() == self.accounts()
        &&& a.id == self.next_account_id()
        &&& a.name@ == trimmed(name)
        &&& a.phone@ == trimmed(phone)
        &&& a.role == Role::Worker
        &&& a.registered_at@ == registered_at
        &&& scheme_of(a.password_hash@) == CredentialScheme::Modern
        &&& bcrypt_verdict(password, a.password_hash@) == Some(true)
        &&& new.next_account_id() == self.next_account_id() + 1
        &&& new.min_password_len() == self.min_password_len()
        &&& new.same_bookings(*self)
    }

    /// Creates a worker account. Only the hashing of the password, which
    /// draws a random salt, can fail once the checks pass.
    pub fn register_user(
        &mut self,
        name: &str,
        phone: &str,
        password: &str,
        registered_at: &str,
    ) -> (r: Result<(), LedgerError>)
        requires
            old(self).wf(),
        ensures
            final(self).wf(),
            match old(self).register_refusal(name@, phone@, password@) {
                Some(e) => r == Err::<(), LedgerError>(e) && *final(self) == *old(self),
                None => (r is Ok && old(self).account_appended(
                    *final(self),
                    name@,
                    phone@,
                    password@,
                    registered_at@,
                )) || (r == Err::<(), LedgerError>(LedgerError::HashFailure) && *final(self)
                    == *old(self)),
            },
    {
        let name_t = trim_text(name);
        let phone_t = trim_text(phone);
        if name_t.as_str().is_empty() {
            return Err(LedgerError::EmptyName);
        }
        if phone_t.as_str().is_empty() {
            return Err(LedgerError::EmptyPhone);
        }
        if password.unicode_len() < self.min_password_len {
            return Err(LedgerError::PasswordTooShort);
        }
        if self.account_by_phone(phone_t.as_str()).is_some() {
            return Err(LedgerError::PhoneTaken);
        }
        if self.next_account_id == i32::MAX {
            return Err(LedgerError::IdsExhausted);
        }
        let password_hash = match hash_password(password) {
            Ok(h) => h,
            Err(_) => return Err(LedgerError::HashFailure),
        };
        let id = self.next_account_id;
        self.accounts.push(
            StaffAccount {
                id,
                name: name_t,
                phone: phone_t,
                password_hash,
                role: Role::Worker,
                registered_at: registered_at.to_owned(),
            },
        );
        self.next_account_id = id + 1;
        assert(self.accounts@.drop_last() =~= old(self).accounts@);
        Ok(())
    }

    /// Why a login is refused, checked in this order. A refusal never tells
    /// an unknown phone from a wrong password.
    pub open spec fn login_refusal(&self, phone: Seq<char>, password: Seq<char>) -> Option<LedgerError> {
        let accounts = self.accounts();
        let h = accounts[account_index(accounts, trimmed(phone))].password_hash@;
        if is_blank(phone) || password.len() == 0 {
            Some(LedgerError::MissingCredentials)
        } else if !phone_registered(accounts, trimmed(phone)) {
            Some(LedgerError::InvalidCredentials)
        } else {
            match scheme_of(h) {
                CredentialScheme::Modern => match bcrypt_verdict(password, h) {
                    None => Some(LedgerError::VerifyFailure),
                    Some(false) => Some(LedgerError::InvalidCredentials),
                    Some(true) => None,
                },
                CredentialScheme::Legacy => if sha256_hex(password) == h {
                    None
                } else {
                    Some(LedgerError::InvalidCredentials)
                },
                CredentialScheme::Unrecognized => Some(LedgerError::InvalidCredentials),
            }
        }
    }

    /// Checks a phone and password. A legacy credential that matches is
    /// replaced by a modern one for the same password before the login
    /// succeeds; where that rehash fails, nothing changes and the login fails.
    pub fn login_user(&mut self, phone: &str, password: &str) -> (r: Result<User, LedgerError>)
        requires
            old(self).wf(),
        ensures
            final(self).wf(),
            ({
                let accounts = old(self).accounts();
                let i = account_index(accounts, trimmed(phone@));
                match old(self).login_refusal(phone@, password@) {
                    Some(e) => r == Err::<User, LedgerError>(e) && *final(self) == *old(self),
                    None => if scheme_of(accounts[i].password_hash@) == CredentialScheme::Legacy {
                        (r == Ok::<User, LedgerError>(public_view(accounts[i]))
                            && final(self).accounts().len() == accounts.len()
                            && final(self).accounts() == accounts.update(i, final(self).accounts()[i])
                            && rehashed(accounts[i], final(self).accounts()[i], password@)
                            && final(self).next_account_id() == old(self).next_account_id()
                            && final(self).min_password_len() == old(self).min_password_len()
                            && final(self).same_bookings(*old(self))) || (r == Err::<User, LedgerError>(
                            LedgerError::HashFailure,
                        ) && *final(self) == *old(self))
                    } else {
                        r == Ok::<User, LedgerError>(public_view(accounts[i])) && *final(self)
                            == *old(self)
                    },
                }
            }),
    {
        let phone_t = trim_text(phone);
        if phone_t.as_str().is_empty() || password.is_empty() {
            return Err(LedgerError::MissingCredentials);
        }
        let i = match self.account_by_phone(phone_t.as_str()) {
            Some(i) => i,
            None => return Err(LedgerError::InvalidCredentials),
        };
        proof {
            let j = account_index(self.accounts@, phone_t@);
            assert(self.accounts@[i as int].phone@ == phone_t@);
            assert(j == i);
        }
        match classify_credential(self.accounts[i].password_hash.as_str()) {
            CredentialScheme::Modern => {
                match verify_password(password, self.accounts[i].password_hash.as_str()) {
                    Ok(true) => Ok(self.accounts[i].to_user()),
                    Ok(false) => Err(LedgerError::InvalidCredentials),
                    Err(_) => Err(LedgerError::VerifyFailure),
                }
            },
            CredentialScheme::Legacy => {
                if !verify_legacy_sha256(password, self.accounts[i].password_hash.as_str()) {
                    return Err(LedgerError::InvalidCredentials);
                }
                let new_hash = match hash_password(password) {
                    Ok(h) => h,
                    Err(_) => return Err(LedgerError::HashFailure),
                };
                self.accounts[i].password_hash = new_hash;
                assert(self.accounts@ =~= old(self).accounts@.update(i as int, self.accounts@[i as int]));
                Ok(self.accounts[i].to_user())
            },
            CredentialScheme::Unrecognized => Err(LedgerError::InvalidCredentials),
        }
    }

    /// `new` is `self` with every account under `phone` made an admin.
    pub open spec fn admin_granted(&self, new: Ledger, phone: Seq<char>) -> bool {
        &&& new.accounts().len() == self.accounts().len()
        &&& forall|j: int|
            0 <= j < self.accounts().len() ==> #[trigger] new.accounts()[j] == if self.accounts()[j].phone@
                == phone {
                with_role(self.accounts()[j], Role::Admin)
            } else {
                self.accounts()[j]
            }
        &&& new.next_account_id() == self.next_account_id()
        &&& new.min_password_len() == self.min_password_len()
        &&& new.same_bookings(*self)
    }

    /// Gives the account registered under `phone` the admin role. Doing it
    /// again changes nothing and succeeds again. Whether the caller may do
    /// this at all is decided by the caller.
    pub fn make_admin(&mut self, phone: &str) -> (r: Result<(), LedgerError>)
        requires
            old(self).wf(),
        ensures
            final(self).wf(),
            !phone_registered(old(self).accounts(), trimmed(phone@)) ==> r == Err::<(), LedgerError>(
                LedgerError::UserNotFound,
            ) && *final(self) == *old(self),
            phone_registered(old(self).accounts(), trimmed(phone@)) ==> r is Ok
                && old(self).admin_granted(*final(self), trimmed(phone@)),
    {
        let phone_t = trim_text(phone);
        let i = match self.account_by_phone(phone_t.as_str()) {
            Some(i) => i,
            None => return Err(LedgerError::UserNotFound),
        };
        self.accounts[i].role = Role::Admin;
        proof {
            assert forall|j: int| 0 <= j < self.accounts@.len() && j != i implies
                #[trigger] old(self).accounts@[j].phone@ != phone_t@ by {}
        }
        Ok(())
    }

    /// Where the account registered under `phone` stands.
    fn account_by_phone(&self, phone: &str) -> (r: Option<usize>)
        ensures
            match r {
                Some(i) => i < self.accounts().len() && self.accounts()[i as int].phone@ == phone@,
                None => !phone_registered(self.accounts(), phone@),
            },
    {
        let mut i: usize = 0;
        while i < self.accounts.len()
            invariant
                i <= self.accounts@.len(),
                forall|k: int| 0 <= k < i ==> #[trigger] self.accounts@[k].phone@ != phone@,
            decreases self.accounts@.len() - i,
        {
            if same_text(self.accounts[i].phone.as_str(), phone) {
                return Some(i);
            }
            i = i + 1;
        }
        None
    }

    /// All bookings, in the order they were recorded.
    pub fn booking_rows(&self) -> (r: &Vec<Booking>)
        ensures
            r@ == self.bookings(),
    {
        &self.bookings
    }

    /// All staff accounts, in the order they were registered.
    pub fn account_rows(&self) -> (r: &Vec<StaffAccount>)
        ensures
            r@ == self.accounts(),
    {
        &self.accounts
    }

    /// Whether stored rows can make up a ledger: ids positive and below
    /// `i32::MAX` and distinct, no two pending bookings in one slot, and no two
    /// accounts under one phone.
    pub open spec fn restorable(bookings: Seq<Booking>, accounts: Seq<StaffAccount>) -> bool {
        &&& booking_ids_fresh(bookings, i32::MAX)
        &&& account_ids_fresh(accounts, i32::MAX)
        &&& pending_slots_unique(bookings)
        &&& phones_unique(accounts)
    }

    /// A ledger holding rows read back from storage, or `None` where they
    /// break one of its rules.
    pub fn restore(bookings: Vec<Booking>, accounts: Vec<StaffAccount>, min_password_len: usize) -> (r: Option<Ledger>)
        ensures
            r is Some <==> Self::restorable(bookings@, accounts@),
            r matches Some(l) ==> l.wf() && l.bookings() == bookings@ && l.accounts() == accounts@
                && l.min_password_len() == min_password_len,
    {
        let mut next_booking_id: i32 = 1;
        let mut i: usize = 0;
        while i < bookings.len()
            invariant
                i <= bookings@.len(),
                0 < next_booking_id,
                forall|k: int| 0 <= k < i ==> 0 < #[trigger] bookings@[k].id < next_booking_id,
                forall|k: int, m: int| 0 <= k < i && 0 <= m < i && k != m ==> #[trigger] bookings@[k].id != #[trigger] bookings@[m].id,
                forall|k: int, m: int| 0 <= k < i && 0 <= m < i && k != m && bookings@[k].status == Status::Pending
                    && bookings@[m].status == Status::Pending && #[trigger] bookings@[k].phone@ == #[trigger] bookings@[m].phone@
                    ==> bookings@[k].date@ != bookings@[m].date@,
            decreases bookings@.len() - i,
        {
            let b = &bookings[i];
            if b.id <= 0 || b.id == i32::MAX {
                assert(!(0 < bookings@[i as int].id < i32::MAX));
                return None;
            }
            let mut j: usize = 0;
            while j < i
                invariant
                    i < bookings@.len(),
                    j <= i,
                    *b == bookings@[i as int],
                    forall|m: int| 0 <= m < j ==> #[trigger] bookings@[m].id != bookings@[i as int].id,
                    forall|m: int| 0 <= m < j && bookings@[i as int].status == Status::Pending
                        && bookings@[m].status == Status::Pending
                        && #[trigger] bookings@[m].phone@ == bookings@[i as int].phone@
                        ==> bookings@[m].date@ != bookings@[i as int].date@,
                decreases i - j,
            {
                let c = &bookings[j];
                if c.id == b.id {
                    assert(bookings@[j as int].id == bookings@[i as int].id);
                    return None;
                }
                if b.status == Status::Pending && c.status == Status::Pending && same_text(b.phone.as_str(), c.phone.as_str())
                    && same_text(b.date.as_str(), c.date.as_str()) {
                    assert(bookings@[j as int].phone@ == bookings@[i as int].phone@);
                    assert(!pending_slots_unique(bookings@));
                    return None;
                }
                j = j + 1;
            }
            if b.id >= next_booking_id {
                next_booking_id = b.id + 1;
            }
            i = i + 1;
        }
        let mut next_account_id: i32 = 1;
        let mut i: usize = 0;
        while i < accounts.len()
            invariant
                i <= accounts@.len(),
                0 < next_account_id,
                forall|k: int| 0 <= k < i ==> 0 < #[trigger] accounts@[k].id < next_account_id,
                forall|k: int, m: int| 0 <= k < i && 0 <= m < i && k != m ==> #[trigger] accounts@[k].id != #[trigger] accounts@[m].id,
                forall|k: int, m: int| 0 <= k < i && 0 <= m < i && k != m ==> #[trigger] accounts@[k].phone@ != #[trigger] accounts@[m].phone@,
                booking_ids_fresh(bookings@, next_booking_id),
                pending_slots_unique(bookings@),
            decreases accounts@.len() - i,
        {
            let a = &accounts[i];
            if a.id <= 0 || a.id == i32::MAX {
                assert(!(0 < accounts@[i as int].id < i32::MAX));
                return None;
            }
            let mut j: usize = 0;
            while j < i
                invariant
                    i < accounts@.len(),
                    j <= i,
                    *a == accounts@[i as int],
                    forall|m: int| 0 <= m < j ==> #[trigger] accounts@[m].id != accounts@[i as int].id,
                    forall|m: int| 0 <= m < j ==> #[trigger] accounts@[m].phone@ != accounts@[i as int].phone@,
                decreases i - j,
            {
                let c = &accounts[j];
                if c.id == a.id {
                    assert(accounts@[j as int].id == accounts@[i as int].id);
                    return None;
                }
                if same_text(a.phone.as_str(), c.phone.as_str()) {
                    assert(accounts@[j as int].phone@ == accounts@[i as int].phone@);
                    return None;
                }
                assert(accounts@[j as int].phone@ != accounts@[i as int].phone@);
                j = j + 1;
            }
            if a.id >= next_account_id {
                next_account_id = a.id + 1;
            }
            i = i + 1;
        }
        Some(Ledger { bookings, accounts, next_booking_id, next_account_id, min_password_len })
    }

    /// The booking with the given id, if there is one.
    pub fn find_booking(&self, id: i32) -> (r: Option<Booking>)
        requires
            self.wf(),
        ensures
            match r {
                Some(b) => b.id == id && self.bookings().contains(b),
                None => !has_booking(self.bookings(), id),
            },
    {
        let mut i: usize = 0;
        while i < self.bookings.len()
            invariant
                i <= self.bookings@.len(),
                forall|k: int| 0 <= k < i ==> #[trigger] self.bookings@[k].id != id,
            decreases self.bookings@.len() - i,
        {
            if self.bookings[i].id == id {
                let b = self.bookings[i].duplicate();
                assert(self.bookings@[i as int] == b);
                return Some(b);
            }
            i = i + 1;
        }
        None
    }
}

} // verus!
