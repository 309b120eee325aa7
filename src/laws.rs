//! Properties that hold across operations of the ledger, stated over the
//! same terms as the operations' own contracts.

use vstd::prelude::*;
use crate::credential::{bcrypt_verdict, is_legacy_encoding, scheme_of, sha256_hex, CredentialScheme};
use crate::ledger::{
    account_index, has_booking, pending_slots_unique, phone_registered, rehashed, has_account,
    with_status, Ledger,
};
use crate::model::{kind_of, status_named, status_text, Booking, ErrorKind, LedgerError, Role, Status};
use crate::report::count_where;
use crate::text::{is_blank, trimmed};

verus! {

/// A booking just created is found under the id it was given, and it is
/// pending.
pub proof fn lemma_created_booking_is_pending_and_found(
    before: Ledger,
    after: Ledger,
    name: Seq<char>,
    phone: Seq<char>,
    date: Seq<char>,
    bought: i32,
    created_by: Option<i32>,
)
    requires
        before.wf(),
        after.wf(),
        before.save_refusal(name, phone, date, created_by) is None,
        before.booking_appended(after, name, phone, date, bought, created_by),
    ensures
        has_booking(after.bookings(), before.next_booking_id()),
        forall|i: int|
            0 <= i < after.bookings().len() && #[trigger] after.bookings()[i].id == before.next_booking_id()
                ==> after.bookings()[i].status == Status::Pending,
{
    let last = after.bookings().len() - 1;
    assert(after.bookings()[last].id == before.next_booking_id());
    assert forall|i: int|
        0 <= i < after.bookings().len() && #[trigger] after.bookings()[i].id == before.next_booking_id()
            implies after.bookings()[i].status == Status::Pending by {
        if i != last {
            assert(after.bookings()[i].id != after.bookings()[last].id);
        }
    }
}

/// In every well-formed ledger no two pending bookings share a phone and a
/// date.
pub proof fn lemma_pending_slots_unique(l: Ledger)
    requires
        l.wf(),
    ensures
        pending_slots_unique(l.bookings()),
{
}

/// Of two bookings for the same phone and date, the second is refused as a
/// conflict once the first has been created.
pub proof fn lemma_second_pending_booking_refused(
    before: Ledger,
    after: Ledger,
    name: Seq<char>,
    phone: Seq<char>,
    date: Seq<char>,
    bought: i32,
    created_by: Option<i32>,
    other_name: Seq<char>,
    other_created_by: Option<i32>,
)
    requires
        before.wf(),
        before.save_refusal(name, phone, date, created_by) is None,
        before.booking_appended(after, name, phone, date, bought, created_by),
        !is_blank(other_name),
        other_created_by is None || has_account(after.accounts(), other_created_by->0),
    ensures
        after.save_refusal(other_name, phone, date, other_created_by) == Some(LedgerError::DuplicatePending),
        kind_of(LedgerError::DuplicatePending) == ErrorKind::Conflict,
{
    let last = after.bookings().len() - 1;
    assert(after.bookings()[last].phone@ == trimmed(phone));
}

pub proof fn lemma_status_text_named(st: Status)
    ensures
        status_named(status_text(st)) == Some(st),
{
    let p = seq!['p', 'e', 'n', 'd', 'i', 'n', 'g'];
    let a = seq!['a', 't', 't', 'e', 'n', 'd', 'e', 'd'];
    let m = seq!['m', 'i', 's', 's', 'e', 'd'];
    assert(p[0] != a[0]);
    assert(p.len() != m.len());
    assert(a.len() != m.len());
}

/// Setting an outcome is accepted whatever the outcome was before: a booking
/// marked attended may then be marked missed, and the other way round.
pub proof fn lemma_outcome_may_change(before: Ledger, after: Ledger, id: i32, first: Status, second: Status)
    requires
        before.wf(),
        has_booking(before.bookings(), id),
        first != Status::Pending,
        second != Status::Pending,
    ensures
        before.status_refusal(id, status_text(first)) is None,
        before.booking_rewritten(
            after,
            id,
            |b: Booking, c: Booking| c == with_status(b, status_named(status_text(first))->0),
        ) ==> after.status_refusal(id, status_text(second)) is None,
{
    lemma_status_text_named(first);
    lemma_status_text_named(second);
    if before.booking_rewritten(
        after,
        id,
        |b: Booking, c: Booking| c == with_status(b, status_named(status_text(first))->0),
    ) {
        let i = choose|i: int| 0 <= i < before.bookings().len() && #[trigger] before.bookings()[i].id == id;
        assert(after.bookings()[i].id == id);
    }
}

/// A worker who has just registered can log in with the same phone and
/// password, on the modern scheme and without any migration.
pub proof fn lemma_registered_account_logs_in(
    before: Ledger,
    after: Ledger,
    name: Seq<char>,
    phone: Seq<char>,
    password: Seq<char>,
    registered_at: Seq<char>,
)
    requires
        before.wf(),
        after.wf(),
        password.len() > 0,
        before.register_refusal(name, phone, password) is None,
        before.account_appended(after, name, phone, password, registered_at),
    ensures
        after.login_refusal(phone, password) is None,
        after.accounts()[account_index(after.accounts(), trimmed(phone))].role == Role::Worker,
        scheme_of(after.accounts()[account_index(after.accounts(), trimmed(phone))].password_hash@)
            == CredentialScheme::Modern,
{
    let accounts = after.accounts();
    let last = accounts.len() - 1;
    assert(accounts[last].phone@ == trimmed(phone));
    let i = account_index(accounts, trimmed(phone));
    assert(i == last);
}

/// Registering under a phone that is already taken is refused as a conflict.
pub proof fn lemma_taken_phone_refused(l: Ledger, name: Seq<char>, phone: Seq<char>, password: Seq<char>)
    requires
        l.wf(),
        !is_blank(name),
        !is_blank(phone),
        password.len() >= l.min_password_len(),
        phone_registered(l.accounts(), trimmed(phone)),
    ensures
        l.register_refusal(name, phone, password) == Some(LedgerError::PhoneTaken),
        kind_of(LedgerError::PhoneTaken) == ErrorKind::Conflict,
{
}

/// An account still on the legacy digest logs in with the password that
/// digest was made from, and the credential that replaces it is modern, no
/// longer has the legacy shape, and accepts the same password.
pub proof fn lemma_legacy_credential_migrates(
    before: Ledger,
    after: Ledger,
    phone: Seq<char>,
    password: Seq<char>,
)
    requires
        before.wf(),
        !is_blank(phone),
        password.len() > 0,
        phone_registered(before.accounts(), trimmed(phone)),
        is_legacy_encoding(before.accounts()[account_index(before.accounts(), trimmed(phone))].password_hash@),
        before.accounts()[account_index(before.accounts(), trimmed(phone))].password_hash@ == sha256_hex(password),
    ensures
        before.login_refusal(phone, password) is None,
        scheme_of(before.accounts()[account_index(before.accounts(), trimmed(phone))].password_hash@)
            == CredentialScheme::Legacy,
        ({
            let i = account_index(before.accounts(), trimmed(phone));
            rehashed(before.accounts()[i], after.accounts()[i], password) ==> {
                &&& !is_legacy_encoding(after.accounts()[i].password_hash@)
                &&& scheme_of(after.accounts()[i].password_hash@) == CredentialScheme::Modern
                &&& bcrypt_verdict(password, after.accounts()[i].password_hash@) == Some(true)
            }
        }),
{
    let i = account_index(before.accounts(), trimmed(phone));
    let h = before.accounts()[i].password_hash@;
    assert(!(h[0] == '$')) by {
        assert(crate::credential::is_hex_digit(h[0]));
    }
    if rehashed(before.accounts()[i], after.accounts()[i], password) {
        let n = after.accounts()[i].password_hash@;
        assert(!crate::credential::is_hex_digit(n[0]));
    }
}

/// Over a ledger with no bookings every count is zero.
pub proof fn lemma_empty_counts(l: Ledger, p: spec_fn(Booking) -> bool)
    requires
        l.bookings().len() == 0,
    ensures
        count_where(l.bookings(), p) == 0,
{
}

/// Granting the admin role a second time leaves the accounts as the first
/// grant left them, and the phone is still registered so the second call
/// succeeds.
pub proof fn lemma_admin_grant_idempotent(first: Ledger, second: Ledger, third: Ledger, phone: Seq<char>)
    requires
        first.wf(),
        phone_registered(first.accounts(), trimmed(phone)),
        first.admin_granted(second, trimmed(phone)),
        second.admin_granted(third, trimmed(phone)),
    ensures
        phone_registered(second.accounts(), trimmed(phone)),
        third.accounts() == second.accounts(),
{
    let i = choose|i: int| 0 <= i < first.accounts().len() && #[trigger] first.accounts()[i].phone@ == trimmed(phone);
    assert(second.accounts()[i].phone@ == trimmed(phone));
    assert(third.accounts() =~= second.accounts());
}

} // verus!
