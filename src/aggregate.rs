use vstd::prelude::*;

use crate::models::{Booking, Dog, FullBooking, Owner};

verus! {

/// Not cancelled, and starting at `now` or later.
pub open spec fn is_upcoming(b: Booking, now: i64) -> bool {
    !b.cancelled && b.start_time >= now
}

/// Some owner carries the identity that the booking refers to.
pub open spec fn owner_resolves(owners: Seq<Owner>, b: Booking) -> bool {
    exists|j: int| 0 <= j < owners.len() && (#[trigger] owners[j]).id@ == b.owner@
}

/// The dogs whose owner has the given identity, in their stored order.
pub open spec fn dogs_of(dogs: Seq<Dog>, owner: Seq<u8>) -> Seq<Dog>
    decreases dogs.len(),
{
    if dogs.len() == 0 {
        Seq::empty()
    } else {
        let rest = dogs_of(dogs.drop_last(), owner);
        if dogs.last().owner@ == owner {
            rest.push(dogs.last())
        } else {
            rest
        }
    }
}

/// The bookings that the upcoming view lists, in their stored order: those
/// upcoming at `now` whose owner resolves.
pub open spec fn selected(bookings: Seq<Booking>, owners: Seq<Owner>, now: i64) -> Seq<Booking>
    decreases bookings.len(),
{
    if bookings.len() == 0 {
        Seq::empty()
    } else {
        let rest = selected(bookings.drop_last(), owners, now);
        let b = bookings.last();
        if is_upcoming(b, now) && owner_resolves(owners, b) {
            rest.push(b)
        } else {
            rest
        }
    }
}

/// `f` is booking `b` joined with the dogs of its owner.
pub open spec fn joins(f: FullBooking, b: Booking, dogs: Seq<Dog>) -> bool {
    &&& f.id == b.id
    &&& f.owner == b.owner
    &&& f.dogs@ == dogs_of(dogs, b.owner@)
    &&& f.start_time == b.start_time
    &&& f.duration_in_minutes == b.duration_in_minutes
    &&& f.cancelled == b.cancelled
}

/// `r` is the upcoming view at `now`: one entry per selected booking, in order.
pub open spec fn lists_upcoming(
    r: Seq<FullBooking>,
    bookings: Seq<Booking>,
    owners: Seq<Owner>,
    dogs: Seq<Dog>,
    now: i64,
) -> bool {
    let sel = selected(bookings, owners, now);
    &&& r.len() == sel.len()
    &&& forall|i: int| 0 <= i < r.len() ==> joins(#[trigger] r[i], sel[i], dogs)
}

/// Whether some owner carries the identity `id`.
pub fn has_owner(owners: &Vec<Owner>, id: &crate::identity::RecordId) -> (r: bool)
    ensures
        r == exists|j: int| 0 <= j < owners@.len() && (#[trigger] owners@[j]).id@ == id@,
{
    let mut j: usize = 0;
    while j < owners.len()
        invariant
            0 <= j <= owners@.len(),
            forall|k: int| 0 <= k < j ==> (#[trigger] owners@[k]).id@ != id@,
        decreases owners@.len() - j,
    {
        if owners[j].id.same_as(id) {
            return true;
        }
        j = j + 1;
    }
    false
}

/// Copies of the dogs whose owner has the identity `owner`, in stored order.
pub fn collect_dogs(dogs: &Vec<Dog>, owner: &crate::identity::RecordId) -> (r: Vec<Dog>)
    ensures
        r@ == dogs_of(dogs@, owner@),
{
    let mut r: Vec<Dog> = Vec::new();
    let mut i: usize = 0;
    while i < dogs.len()
        invariant
            0 <= i <= dogs@.len(),
            r@ == dogs_of(dogs@.subrange(0, i as int), owner@),
        decreases dogs@.len() - i,
    {
        proof {
            assert(dogs@.subrange(0, i + 1).drop_last() =~= dogs@.subrange(0, i as int));
        }
        if dogs[i].owner.same_as(owner) {
            r.push(dogs[i].copy());
        }
        i = i + 1;
    }
    proof {
        assert(dogs@.subrange(0, dogs@.len() as int) =~= dogs@);
    }
    r
}

/// The upcoming view at `now`: each booking that is not cancelled, starts at
/// `now` or later and whose owner resolves, joined with all of that owner's
/// dogs. A booking whose owner does not resolve is left out; an owner with no
/// dogs gives an entry with no dogs.
pub fn upcoming_full_bookings(
    bookings: &Vec<Booking>,
    owners: &Vec<Owner>,
    dogs: &Vec<Dog>,
    now: i64,
) -> (r: Vec<FullBooking>)
    ensures
        lists_upcoming(r@, bookings@, owners@, dogs@, now),
{
    let mut r: Vec<FullBooking> = Vec::new();
    let mut i: usize = 0;
    while i < bookings.len()
        invariant
            0 <= i <= bookings@.len(),
            lists_upcoming(r@, bookings@.subrange(0, i as int), owners@, dogs@, now),
        decreases bookings@.len() - i,
    {
        let ghost prefix = bookings@.subrange(0, i as int);
        let ghost next = bookings@.subrange(0, i + 1);
        proof {
            assert(next.drop_last() =~= prefix);
        }
        let b = &bookings[i];
        if !b.cancelled && b.start_time >= now && has_owner(owners, &b.owner) {
            let full = FullBooking {
                id: b.id,
                owner: b.owner,
                dogs: collect_dogs(dogs, &b.owner),
                start_time: b.start_time,
                duration_in_minutes: b.duration_in_minutes,
                cancelled: b.cancelled,
            };
            r.push(full);
            proof {
                let sel = selected(next, owners@, now);
                assert(sel == selected(prefix, owners@, now).push(bookings@[i as int]));
            }
        }
        i = i + 1;
    }
    proof {
        assert(bookings@.subrange(0, bookings@.len() as int) =~= bookings@);
    }
    r
}

/// No two bookings share an identity.
pub open spec fn booking_ids_unique(bookings: Seq<Booking>) -> bool {
    forall|i: int, j: int|
        0 <= i < bookings.len() && 0 <= j < bookings.len() && (#[trigger] bookings[i]).id@
            == (#[trigger] bookings[j]).id@ ==> i == j
}

proof fn lemma_selected_members(bookings: Seq<Booking>, owners: Seq<Owner>, now: i64)
    ensures
        forall|k: int|
            0 <= k < selected(bookings, owners, now).len() ==> {
                let b = #[trigger] selected(bookings, owners, now)[k];
                &&& is_upcoming(b, now)
                &&& owner_resolves(owners, b)
                &&& exists|m: int| 0 <= m < bookings.len() && bookings[m] == b
            },
    decreases bookings.len(),
{
    if bookings.len() > 0 {
        let rest = bookings.drop_last();
        lemma_selected_members(rest, owners, now);
        let sel = selected(bookings, owners, now);
        assert forall|k: int| 0 <= k < sel.len() implies exists|m: int|
            0 <= m < bookings.len() && bookings[m] == #[trigger] sel[k] by {
            if k < selected(rest, owners, now).len() {
                let m = choose|m: int| 0 <= m < rest.len() && rest[m] == selected(rest, owners, now)[k];
                assert(bookings[m] == sel[k]);
            } else {
                assert(bookings[bookings.len() - 1] == sel[k]);
            }
        }
    }
}

proof fn lemma_selected_keeps(bookings: Seq<Booking>, owners: Seq<Owner>, now: i64, n: int)
    requires
        0 <= n < bookings.len(),
        is_upcoming(bookings[n], now),
        owner_resolves(owners, bookings[n]),
    ensures
        selected(bookings, owners, now).contains(bookings[n]),
    decreases bookings.len(),
{
    let sel = selected(bookings, owners, now);
    if n == bookings.len() - 1 {
        assert(sel[sel.len() - 1] == bookings[n]);
    } else {
        let rest = bookings.drop_last();
        lemma_selected_keeps(rest, owners, now, n);
        let k = choose|k: int| 0 <= k < selected(rest, owners, now).len() && selected(rest, owners, now)[k] == rest[n];
        assert(sel[k] == bookings[n]);
    }
}

proof fn lemma_no_dogs(dogs: Seq<Dog>, owner: Seq<u8>)
    requires
        forall|j: int| 0 <= j < dogs.len() ==> (#[trigger] dogs[j]).owner@ != owner,
    ensures
        dogs_of(dogs, owner).len() == 0,
    decreases dogs.len(),
{
    if dogs.len() > 0 {
        let rest = dogs.drop_last();
        assert forall|j: int| 0 <= j < rest.len() implies (#[trigger] rest[j]).owner@ != owner by {
            assert(rest[j] == dogs[j]);
        }
        lemma_no_dogs(rest, owner);
    }
}

/// Every entry of the upcoming view at `now` is a booking that is not
/// cancelled and starts at `now` or later: a booking that started before
/// `now` has no entry, even when it is not cancelled.
pub proof fn past_bookings_excluded(
    r: Seq<FullBooking>,
    bookings: Seq<Booking>,
    owners: Seq<Owner>,
    dogs: Seq<Dog>,
    now: i64,
    n: int,
)
    requires
        lists_upcoming(r, bookings, owners, dogs, now),
        booking_ids_unique(bookings),
        0 <= n < bookings.len(),
        bookings[n].start_time < now,
    ensures
        forall|i: int| 0 <= i < r.len() ==> (#[trigger] r[i]).id@ != bookings[n].id@,
        forall|i: int| 0 <= i < r.len() ==> !(#[trigger] r[i]).cancelled && r[i].start_time >= now,
{
    lemma_selected_members(bookings, owners, now);
    let sel = selected(bookings, owners, now);
    assert forall|i: int| 0 <= i < r.len() implies (#[trigger] r[i]).id@ != bookings[n].id@ by {
        assert(joins(r[i], sel[i], dogs));
        let m = choose|m: int| 0 <= m < bookings.len() && bookings[m] == sel[i];
        assert(is_upcoming(sel[i], now));
    }
    assert forall|i: int| 0 <= i < r.len() implies !(#[trigger] r[i]).cancelled && r[i].start_time >= now by {
        assert(joins(r[i], sel[i], dogs));
        assert(is_upcoming(sel[i], now));
    }
}

/// A booking whose owner no longer resolves has no entry in the upcoming view.
pub proof fn unresolved_owner_excluded(
    r: Seq<FullBooking>,
    bookings: Seq<Booking>,
    owners: Seq<Owner>,
    dogs: Seq<Dog>,
    now: i64,
    n: int,
)
    requires
        lists_upcoming(r, bookings, owners, dogs, now),
        booking_ids_unique(bookings),
        0 <= n < bookings.len(),
        forall|j: int| 0 <= j < owners.len() ==> (#[trigger] owners[j]).id@ != bookings[n].owner@,
    ensures
        forall|i: int| 0 <= i < r.len() ==> (#[trigger] r[i]).id@ != bookings[n].id@,
{
    lemma_selected_members(bookings, owners, now);
    let sel = selected(bookings, owners, now);
    assert forall|i: int| 0 <= i < r.len() implies (#[trigger] r[i]).id@ != bookings[n].id@ by {
        assert(joins(r[i], sel[i], dogs));
        let m = choose|m: int| 0 <= m < bookings.len() && bookings[m] == sel[i];
        assert(owner_resolves(owners, sel[i]));
        if m == n {
            let j = choose|j: int| 0 <= j < owners.len() && (#[trigger] owners[j]).id@ == sel[i].owner@;
            assert(owners[j].id@ != bookings[n].owner@);
        }
    }
}

/// An upcoming booking whose owner resolves but has no dogs has an entry in
/// the upcoming view, with an empty list of dogs.
pub proof fn dogless_owner_listed(
    r: Seq<FullBooking>,
    bookings: Seq<Booking>,
    owners: Seq<Owner>,
    dogs: Seq<Dog>,
    now: i64,
    n: int,
)
    requires
        lists_upcoming(r, bookings, owners, dogs, now),
        0 <= n < bookings.len(),
        is_upcoming(bookings[n], now),
        owner_resolves(owners, bookings[n]),
        forall|j: int| 0 <= j < dogs.len() ==> (#[trigger] dogs[j]).owner@ != bookings[n].owner@,
    ensures
        exists|i: int| 0 <= i < r.len() && (#[trigger] r[i]).id == bookings[n].id && r[i].dogs@.len() == 0,
{
    lemma_selected_keeps(bookings, owners, now, n);
    lemma_no_dogs(dogs, bookings[n].owner@);
    let sel = selected(bookings, owners, now);
    let i = choose|i: int| 0 <= i < sel.len() && sel[i] == bookings[n];
    assert(joins(r[i], sel[i], dogs));
}

/// Each entry of the upcoming view reports a stored booking unchanged: its
/// identity, owner, start instant, duration and state are those of a booking
/// in `bookings`, so a start time read from a request is the instant listed.
pub proof fn entries_carry_stored_bookings(
    r: Seq<FullBooking>,
    bookings: Seq<Booking>,
    owners: Seq<Owner>,
    dogs: Seq<Dog>,
    now: i64,
)
    requires
        lists_upcoming(r, bookings, owners, dogs, now),
    ensures
        forall|i: int|
            0 <= i < r.len() ==> exists|m: int|
                0 <= m < bookings.len() && bookings[m].id == (#[trigger] r[i]).id && bookings[m].owner
                    == r[i].owner && bookings[m].start_time == r[i].start_time
                    && bookings[m].duration_in_minutes == r[i].duration_in_minutes
                    && bookings[m].cancelled == r[i].cancelled,
{
    lemma_selected_members(bookings, owners, now);
    let sel = selected(bookings, owners, now);
    assert forall|i: int| 0 <= i < r.len() implies exists|m: int|
        0 <= m < bookings.len() && bookings[m].id == (#[trigger] r[i]).id && bookings[m].owner
            == r[i].owner && bookings[m].start_time == r[i].start_time
            && bookings[m].duration_in_minutes == r[i].duration_in_minutes
            && bookings[m].cancelled == r[i].cancelled by {
        assert(joins(r[i], sel[i], dogs));
        let m = choose|m: int| 0 <= m < bookings.len() && bookings[m] == sel[i];
        assert(bookings[m] == sel[i]);
    }
}

} // verus!
