//! Read-only views over the ledger: counts, client history and listings
//! ordered newest first.

use vstd::prelude::*;
use vstd::seq_lib::{to_multiset_build, to_multiset_insert};
use crate::ledger::Ledger;
use crate::model::{public_view, Booking, ClientHistory, StaffAccount, Statistics, Status, User};
use crate::text::{lemma_text_lt_asymmetric, same_text, text_less, text_lt, text_max};

verus! {

/// How many rows satisfy `p`.
pub open spec fn count_where(rows: Seq<Booking>, p: spec_fn(Booking) -> bool) -> nat
    decreases rows.len(),
{
    if rows.len() == 0 {
        0
    } else {
        count_where(rows.drop_last(), p) + if p(rows.last()) {
            1nat
        } else {
            0nat
        }
    }
}

/// The lexicographically largest name booked under `phone`; empty if none.
pub open spec fn largest_name(rows: Seq<Booking>, phone: Seq<char>) -> Seq<char>
    decreases rows.len(),
{
    if rows.len() == 0 {
        Seq::empty()
    } else if rows.last().phone@ == phone {
        text_max(largest_name(rows.drop_last(), phone), rows.last().name@)
    } else {
        largest_name(rows.drop_last(), phone)
    }
}

/// Each booking's date is not before the next one's.
pub open spec fn newest_date_first(rows: Seq<Booking>) -> bool {
    forall|i: int| 0 <= i < rows.len() - 1 ==> !text_lt(#[trigger] rows[i].date@, rows[i + 1].date@)
}

/// Each user registered no earlier than the next one.
pub open spec fn newest_registration_first(users: Seq<User>) -> bool {
    forall|i: int|
        0 <= i < users.len() - 1 ==> !text_lt(
            #[trigger] users[i].registered_at@,
            users[i + 1].registered_at@,
        )
}

/// Counts the rows that satisfy `p`, given an executable test that agrees
/// with it.
fn count_rows(
    rows: &Vec<Booking>,
    p: Ghost<spec_fn(Booking) -> bool>,
    want: Status,
    on_phone: Option<&str>,
    bought_flag: bool,
) -> (r: u64)
    requires
        forall|b: Booking| #[trigger] (p@)(b) == if bought_flag {
            b.bought == 1
        } else {
            b.status == want && (on_phone is None || b.phone@ == on_phone->0@)
        },
    ensures
        r == count_where(rows@, p@),
{
    let mut n: u64 = 0;
    let mut i: usize = 0;
    while i < rows.len()
        invariant
            i <= rows@.len(),
            n == count_where(rows@.take(i as int), p@),
            n <= i,
            forall|b: Booking| #[trigger] (p@)(b) == if bought_flag {
                b.bought == 1
            } else {
                b.status == want && (on_phone is None || b.phone@ == on_phone->0@)
            },
        decreases rows@.len() - i,
    {
        let b = &rows[i];
        let hit = if bought_flag {
            b.bought == 1
        } else {
            b.status == want && match on_phone {
                None => true,
                Some(ph) => same_text(b.phone.as_str(), ph),
            }
        };
        assert(rows@.take(i + 1).drop_last() =~= rows@.take(i as int));
        if hit {
            n = n + 1;
        }
        i = i + 1;
    }
    assert(rows@.take(rows@.len() as int) =~= rows@);
    n
}

/// Puts `b` into a list kept newest date first.
fn insert_by_date(out: &mut Vec<Booking>, b: Booking)
    requires
        newest_date_first(old(out)@),
    ensures
        newest_date_first(final(out)@),
        final(out)@.to_multiset() == old(out)@.to_multiset().insert(b),
        final(out)@.len() == old(out)@.len() + 1,
{
    let mut p: usize = 0;
    while p < out.len() && !text_less(out[p].date.as_str(), b.date.as_str())
        invariant
            p <= out@.len(),
            forall|k: int| 0 <= k < p ==> !text_lt(#[trigger] out@[k].date@, b.date@),
        decreases out@.len() - p,
    {
        p = p + 1;
    }
    let ghost before = out@;
    proof {
        if p < before.len() {
            lemma_text_lt_asymmetric(before[p as int].date@, b.date@);
        }
        to_multiset_insert(before, p as int, b);
    }
    out.insert(p, b);
    assert forall|i: int| 0 <= i < out@.len() - 1 implies !text_lt(
        #[trigger] out@[i].date@,
        out@[i + 1].date@,
    ) by {
        if i + 1 < p {
            assert(out@[i] == before[i] && out@[i + 1] == before[i + 1]);
            assert(!text_lt(before[i].date@, before[i + 1].date@));
        } else if i + 1 == p {
            assert(out@[i] == before[i]);
            assert(!text_lt(before[i].date@, b.date@));
        } else if i == p {
        } else {
            assert(out@[i] == before[i - 1] && out@[i + 1] == before[i]);
            assert(!text_lt(before[i - 1].date@, before[i].date@));
        }
    }
}

/// Puts `u` into a list kept newest registration first.
fn insert_by_registration(out: &mut Vec<User>, u: User)
    requires
        newest_registration_first(old(out)@),
    ensures
        newest_registration_first(final(out)@),
        final(out)@.to_multiset() == old(out)@.to_multiset().insert(u),
        final(out)@.len() == old(out)@.len() + 1,
{
    let mut p: usize = 0;
    while p < out.len() && !text_less(out[p].registered_at.as_str(), u.registered_at.as_str())
        invariant
            p <= out@.len(),
            forall|k: int| 0 <= k < p ==> !text_lt(#[trigger] out@[k].registered_at@, u.registered_at@),
        decreases out@.len() - p,
    {
        p = p + 1;
    }
    let ghost before = out@;
    proof {
        if p < before.len() {
            lemma_text_lt_asymmetric(before[p as int].registered_at@, u.registered_at@);
        }
        to_multiset_insert(before, p as int, u);
    }
    out.insert(p, u);
    assert forall|i: int| 0 <= i < out@.len() - 1 implies !text_lt(
        #[trigger] out@[i].registered_at@,
        out@[i + 1].registered_at@,
    ) by {
        if i + 1 < p {
            assert(out@[i] == before[i] && out@[i + 1] == before[i + 1]);
            assert(!text_lt(before[i].registered_at@, before[i + 1].registered_at@));
        } else if i + 1 == p {
            assert(out@[i] == before[i]);
            assert(!text_lt(before[i].registered_at@, u.registered_at@));
        } else if i == p {
        } else {
            assert(out@[i] == before[i - 1] && out@[i + 1] == before[i]);
            assert(!text_lt(before[i - 1].registered_at@, before[i].registered_at@));
        }
    }
}

/// The rows made by `creator`, or every row when `creator` is `None`,
/// newest date first.
fn bookings_newest_first(rows: &Vec<Booking>, creator: Option<i32>) -> (r: Vec<Booking>)
    ensures
        newest_date_first(r@),
        r@.to_multiset() == rows@.filter(
            |b: Booking| creator is None || b.created_by == creator,
        ).to_multiset(),
{
    let ghost pred = |b: Booking| creator is None || b.created_by == creator;
    let mut out: Vec<Booking> = Vec::new();
    let mut i: usize = 0;
    assert(rows@.take(0).filter(pred) =~= Seq::<Booking>::empty());
    while i < rows.len()
        invariant
            i <= rows@.len(),
            newest_date_first(out@),
            out@.to_multiset() == rows@.take(i as int).filter(pred).to_multiset(),
            pred == (|b: Booking| creator is None || b.created_by == creator),
        decreases rows@.len() - i,
    {
        let b = &rows[i];
        let keep = match creator {
            None => true,
            Some(c) => b.created_by == Some(c),
        };
        let ghost prev = rows@.take(i as int).filter(pred);
        proof {
            reveal(Seq::filter);
        }
        assert(rows@.take(i + 1).drop_last() =~= rows@.take(i as int));
        assert(rows@.take(i + 1).last() == rows@[i as int]);
        assert(pred(rows@[i as int]) == keep);
        if keep {
            assert(rows@.take(i + 1).filter(pred) == prev.push(rows@[i as int]));
            proof {
                to_multiset_build(prev, rows@[i as int]);
            }
            insert_by_date(&mut out, b.duplicate());
        } else {
            assert(rows@.take(i + 1).filter(pred) == prev);
        }
        i = i + 1;
    }
    assert(rows@.take(rows@.len() as int) =~= rows@);
    out
}

impl Ledger {
    /// Counts over all bookings; all zero for an empty ledger.
    pub fn get_statistics(&self) -> (r: Statistics)
        ensures
            r.total == self.bookings().len(),
            r.attended == count_where(self.bookings(), |b: Booking| b.status == Status::Attended),
            r.missed == count_where(self.bookings(), |b: Booking| b.status == Status::Missed),
            r.pending == count_where(self.bookings(), |b: Booking| b.status == Status::Pending),
            r.bought == count_where(self.bookings(), |b: Booking| b.bought == 1),
    {
        let rows = self.booking_rows();
        Statistics {
            total: rows.len() as u64,
            attended: count_rows(rows, Ghost(|b: Booking| b.status == Status::Attended), Status::Attended, None, false),
            missed: count_rows(rows, Ghost(|b: Booking| b.status == Status::Missed), Status::Missed, None, false),
            pending: count_rows(rows, Ghost(|b: Booking| b.status == Status::Pending), Status::Pending, None, false),
            bought: count_rows(rows, Ghost(|b: Booking| b.bought == 1), Status::Pending, None, true),
        }
    }

    /// Outcomes and the largest name booked under exactly this phone.
    pub fn check_client_history(&self, phone: &str) -> (r: ClientHistory)
        ensures
            r.attended == count_where(
                self.bookings(),
                |b: Booking| b.status == Status::Attended && b.phone@ == phone@,
            ),
            r.missed == count_where(
                self.bookings(),
                |b: Booking| b.status == Status::Missed && b.phone@ == phone@,
            ),
            r.last_name@ == largest_name(self.bookings(), phone@),
    {
        let rows = self.booking_rows();
        let attended = count_rows(
            rows,
            Ghost(|b: Booking| b.status == Status::Attended && b.phone@ == phone@),
            Status::Attended,
            Some(phone),
            false,
        );
        let missed = count_rows(
            rows,
            Ghost(|b: Booking| b.status == Status::Missed && b.phone@ == phone@),
            Status::Missed,
            Some(phone),
            false,
        );
        let mut best = String::new();
        let mut i: usize = 0;
        while i < rows.len()
            invariant
                i <= rows@.len(),
                best@ == largest_name(rows@.take(i as int), phone@),
            decreases rows@.len() - i,
        {
            let b = &rows[i];
            assert(rows@.take(i + 1).drop_last() =~= rows@.take(i as int));
            if same_text(b.phone.as_str(), phone) && text_less(best.as_str(), b.name.as_str()) {
                best = b.name.clone();
            }
            i = i + 1;
        }
        assert(rows@.take(rows@.len() as int) =~= rows@);
        ClientHistory { attended, missed, last_name: best }
    }

    /// Every booking, newest date first.
    pub fn get_bookings(&self) -> (r: Vec<Booking>)
        ensures
            newest_date_first(r@),
            r@.to_multiset() == self.bookings().to_multiset(),
    {
        let r = bookings_newest_first(self.booking_rows(), None);
        proof {
            lemma_filter_keeps_all(
                self.bookings(),
                |b: Booking| None::<i32> is None || b.created_by == None::<i32>,
            );
        }
        r
    }

    /// The bookings made by one staff member, newest date first.
    pub fn get_worker_history(&self, worker_id: i32) -> (r: Vec<Booking>)
        ensures
            newest_date_first(r@),
            r@.to_multiset() == self.bookings().filter(
                |b: Booking| b.created_by == Some(worker_id),
            ).to_multiset(),
    {
        let r = bookings_newest_first(self.booking_rows(), Some(worker_id));
        let ghost p1 = |b: Booking| Some(worker_id) is None || b.created_by == Some(worker_id);
        let ghost p2 = |b: Booking| b.created_by == Some(worker_id);
        assert(p1 =~= p2);
        r
    }

    /// Every staff account without its credential, newest registration
    /// first.
    pub fn get_workers(&self) -> (r: Vec<User>)
        ensures
            newest_registration_first(r@),
            r@.to_multiset() == self.accounts().map_values(|a: StaffAccount| public_view(a)).to_multiset(),
    {
        let rows = self.account_rows();
        let ghost f = |a: StaffAccount| public_view(a);
        let mut out: Vec<User> = Vec::new();
        let mut i: usize = 0;
        assert(rows@.take(0).map_values(f) =~= Seq::<User>::empty());
        while i < rows.len()
            invariant
                i <= rows@.len(),
                newest_registration_first(out@),
                out@.to_multiset() == rows@.take(i as int).map_values(f).to_multiset(),
                f == (|a: StaffAccount| public_view(a)),
            decreases rows@.len() - i,
        {
            let u = rows[i].to_user();
            let ghost prev = rows@.take(i as int).map_values(f);
            assert(rows@.take(i + 1).map_values(f) =~= prev.push(u));
            proof {
                to_multiset_build(prev, u);
            }
            insert_by_registration(&mut out, u);
            i = i + 1;
        }
        assert(rows@.take(rows@.len() as int) =~= rows@);
        out
    }
}

proof fn lemma_filter_keeps_all(rows: Seq<Booking>, pred: spec_fn(Booking) -> bool)
    requires
        forall|b: Booking| #[trigger] pred(b),
    ensures
        rows.filter(pred) == rows,
    decreases rows.len(),
{
    reveal(Seq::filter);
    if rows.len() > 0 {
        lemma_filter_keeps_all(rows.drop_last(), pred);
        assert(rows.drop_last().push(rows.last()) =~= rows);
    } else {
        assert(rows.filter(pred) =~= rows);
    }
}

} // verus!
