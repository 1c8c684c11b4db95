use vstd::prelude::*;

use crate::aggregate::{booking_ids_unique, has_owner, lists_upcoming, upcoming_full_bookings};
use crate::clock::now_millis;
use crate::identity::{id_bytes_of, is_id_text, RecordId};
use crate::models::{Booking, Dog, FullBooking, Owner};

verus! {

/// Why a repository operation failed.
#[derive(Clone, Copy, Debug, PartialEq, Eq, Structural)]
pub enum StorageError {
    /// The text given for a record's identity is not one.
    InvalidIdentifier,
    /// No record has the identity given.
    NotFound,
    /// A record with the same identity is already stored.
    DuplicateKey,
}

pub open spec fn owner_ids_unique(owners: Seq<Owner>) -> bool {
    forall|i: int, j: int|
        0 <= i < owners.len() && 0 <= j < owners.len() && (#[trigger] owners[i]).id@
            == (#[trigger] owners[j]).id@ ==> i == j
}

pub open spec fn dog_ids_unique(dogs: Seq<Dog>) -> bool {
    forall|i: int, j: int|
        0 <= i < dogs.len() && 0 <= j < dogs.len() && (#[trigger] dogs[i]).id@
            == (#[trigger] dogs[j]).id@ ==> i == j
}

/// The bookings after cancelling the one with identity `id`: each booking
/// with that identity is cancelled, every other is kept as it is.
pub open spec fn cancel_in(bookings: Seq<Booking>, id: Seq<u8>) -> Seq<Booking> {
    Seq::new(
        bookings.len(),
        |i: int|
            if bookings[i].id@ == id {
                Booking { cancelled: true, ..bookings[i] }
            } else {
                bookings[i]
            },
    )
}

/// Cancelling is idempotent. Cancelling keeps every identity in place, so a
/// booking found by the first cancel is found by the second, which then
/// succeeds; it leaves the booking cancelled; a second cancel gives what the
/// first gave; and where the booking is cancelled already, cancelling changes
/// nothing.
pub proof fn cancel_idempotent(bookings: Seq<Booking>, id: Seq<u8>)
    ensures
        cancel_in(bookings, id).len() == bookings.len(),
        forall|k: int| 0 <= k < bookings.len() ==> (#[trigger] cancel_in(bookings, id)[k]).id@ == bookings[k].id@,
        forall|k: int| 0 <= k < bookings.len() && bookings[k].id@ == id ==> (#[trigger] cancel_in(bookings, id)[k]).cancelled,
        cancel_in(cancel_in(bookings, id), id) == cancel_in(bookings, id),
        (forall|k: int| 0 <= k < bookings.len() && (#[trigger] bookings[k]).id@ == id ==> bookings[k].cancelled)
            ==> cancel_in(bookings, id) == bookings,
{
    let once = cancel_in(bookings, id);
    assert(cancel_in(once, id) =~= once);
    if forall|k: int| 0 <= k < bookings.len() && (#[trigger] bookings[k]).id@ == id ==> bookings[k].cancelled {
        assert(once =~= bookings);
    }
}

/// The three collections of records: owners, dogs and bookings, each keyed
/// by a unique identity, in the order they were stored.
pub struct Database {
    booking: Vec<Booking>,
    dog: Vec<Dog>,
    owner: Vec<Owner>,
}

impl Database {
    pub closed spec fn bookings(&self) -> Seq<Booking> {
        self.booking@
    }

    pub closed spec fn dogs(&self) -> Seq<Dog> {
        self.dog@
    }

    pub closed spec fn owners(&self) -> Seq<Owner> {
        self.owner@
    }

    /// No identity occurs twice within a collection.
    pub open spec fn wf(&self) -> bool {
        &&& booking_ids_unique(self.bookings())
        &&& dog_ids_unique(self.dogs())
        &&& owner_ids_unique(self.owners())
    }

    /// Where the booking with identity `id` is stored, if any.
    fn booking_position(&self, id: &RecordId) -> (r: Option<usize>)
        ensures
            r is Some ==> r->Some_0 < self.bookings().len() && self.bookings()[r->Some_0 as int].id@ == id@,
            r is None ==> forall|k: int| 0 <= k < self.bookings().len() ==> (#[trigger] self.bookings()[k]).id@ != id@,
    {
        let mut k: usize = 0;
        while k < self.booking.len()
            invariant
                0 <= k <= self.booking@.len(),
                forall|m: int| 0 <= m < k ==> (#[trigger] self.booking@[m]).id@ != id@,
            decreases self.booking@.len() - k,
        {
            if self.booking[k].id.same_as(id) {
                return Some(k);
            }
            k = k + 1;
        }
        None
    }

    /// Whether a dog with identity `id` is stored.
    fn has_dog(&self, id: &RecordId) -> (r: bool)
        ensures
            r == exists|k: int| 0 <= k < self.dogs().len() && (#[trigger] self.dogs()[k]).id@ == id@,
    {
        let mut k: usize = 0;
        while k < self.dog.len()
            invariant
                0 <= k <= self.dog@.len(),
                forall|m: int| 0 <= m < k ==> (#[trigger] self.dog@[m]).id@ != id@,
            decreases self.dog@.len() - k,
        {
            if self.dog[k].id.same_as(id) {
                return true;
            }
            k = k + 1;
        }
        false
    }

    /// Stores an owner and returns its identity; fails with `DuplicateKey`,
    /// storing nothing, where an owner with that identity is stored already.
    pub fn create_owner(&mut self, owner: Owner) -> (r: Result<RecordId, StorageError>)
        requires
            old(self).wf(),
        ensures
            final(self).wf(),
            final(self).bookings() == old(self).bookings(),
            final(self).dogs() == old(self).dogs(),
            (exists|k: int| 0 <= k < old(self).owners().len() && (#[trigger] old(self).owners()[k]).id@ == owner.id@) ==> {
                &&& r == Err::<RecordId, StorageError>(StorageError::DuplicateKey)
                &&& final(self).owners() == old(self).owners()
            },
            !(exists|k: int| 0 <= k < old(self).owners().len() && (#[trigger] old(self).owners()[k]).id@ == owner.id@) ==> {
                &&& r == Ok::<RecordId, StorageError>(owner.id)
                &&& final(self).owners() == old(self).owners().push(owner)
            },
    {
        if has_owner(&self.owner, &owner.id) {
            return Err(StorageError::DuplicateKey);
        }
        let id = owner.id;
        self.owner.push(owner);
        Ok(id)
    }

    /// Stores a dog and returns its identity; fails with `DuplicateKey`,
    /// storing nothing, where a dog with that identity is stored already. The
    /// owner it refers to need not be stored.
    pub fn create_dog(&mut self, dog: Dog) -> (r: Result<RecordId, StorageError>)
        requires
            old(self).wf(),
        ensures
            final(self).wf(),
            final(self).bookings() == old(self).bookings(),
            final(self).owners() == old(self).owners(),
            (exists|k: int| 0 <= k < old(self).dogs().len() && (#[trigger] old(self).dogs()[k]).id@ == dog.id@) ==> {
                &&& r == Err::<RecordId, StorageError>(StorageError::DuplicateKey)
                &&& final(self).dogs() == old(self).dogs()
            },
            !(exists|k: int| 0 <= k < old(self).dogs().len() && (#[trigger] old(self).dogs()[k]).id@ == dog.id@) ==> {
                &&& r == Ok::<RecordId, StorageError>(dog.id)
                &&& final(self).dogs() == old(self).dogs().push(dog)
            },
    {
        if self.has_dog(&dog.id) {
            return Err(StorageError::DuplicateKey);
        }
        let id = dog.id;
        self.dog.push(dog);
        Ok(id)
    }

    /// Stores a booking and returns its identity; fails with `DuplicateKey`,
    /// storing nothing, where a booking with that identity is stored already.
    /// The owner it refers to need not be stored, and overlapping bookings
    /// are accepted.
    pub fn create_booking(&mut self, booking: Booking) -> (r: Result<RecordId, StorageError>)
        requires
            old(self).wf(),
        ensures
            final(self).wf(),
            final(self).dogs() == old(self).dogs(),
            final(self).owners() == old(self).owners(),
            (exists|k: int| 0 <= k < old(self).bookings().len() && (#[trigger] old(self).bookings()[k]).id@ == booking.id@) ==> {
                &&& r == Err::<RecordId, StorageError>(StorageError::DuplicateKey)
                &&& final(self).bookings() == old(self).bookings()
            },
            !(exists|k: int| 0 <= k < old(self).bookings().len() && (#[trigger] old(self).bookings()[k]).id@ == booking.id@) ==> {
                &&& r == Ok::<RecordId, StorageError>(booking.id)
                &&& final(self).bookings() == old(self).bookings().push(booking)
            },
    {
        if self.booking_position(&booking.id).is_some() {
            return Err(StorageError::DuplicateKey);
        }
        let id = booking.id;
        self.booking.push(booking);
        Ok(id)
    }

    /// Marks the booking whose identity `booking_id` spells as cancelled. Fails
    /// with `InvalidIdentifier` where the text is not an identity and with
    /// `NotFound` where no booking has it, changing nothing; succeeds also
    /// where the booking was cancelled already.
    pub fn cancel_booking(&mut self, booking_id: &str) -> (r: Result<(), StorageError>)
        requires
            old(self).wf(),
        ensures
            final(self).wf(),
            final(self).dogs() == old(self).dogs(),
            final(self).owners() == old(self).owners(),
            !is_id_text(booking_id@) ==> r == Err::<(), StorageError>(StorageError::InvalidIdentifier),
            is_id_text(booking_id@) && !(exists|k: int| 0 <= k < old(self).bookings().len()
                && (#[trigger] old(self).bookings()[k]).id@ == id_bytes_of(booking_id@))
                ==> r == Err::<(), StorageError>(StorageError::NotFound),
            is_id_text(booking_id@) && (exists|k: int| 0 <= k < old(self).bookings().len()
                && (#[trigger] old(self).bookings()[k]).id@ == id_bytes_of(booking_id@)) ==> r is Ok,
            r is Err ==> final(self).bookings() == old(self).bookings(),
            r is Ok ==> final(self).bookings() == cancel_in(old(self).bookings(), id_bytes_of(booking_id@)),
    {
        let id = match RecordId::parse(booking_id) {
            None => return Err(StorageError::InvalidIdentifier),
            Some(id) => id,
        };
        let k = match self.booking_position(&id) {
            None => return Err(StorageError::NotFound),
            Some(k) => k,
        };
        let mut b = self.booking[k];
        b.cancelled = true;
        self.booking.set(k, b);
        proof {
            let before = old(self).booking@;
            assert(self.booking@ =~= cancel_in(before, id@));
        }
        Ok(())
    }

    /// The upcoming view of the stored records at `now` (milliseconds since
    /// the Unix epoch).
    pub fn query_upcoming_bookings(&self, now: i64) -> (r: Vec<FullBooking>)
        ensures
            lists_upcoming(r@, self.bookings(), self.owners(), self.dogs(), now),
    {
        upcoming_full_bookings(&self.booking, &self.owner, &self.dog, now)
    }

    /// The upcoming view of the stored records at the current instant.
    pub fn get_bookings(&self) -> (r: Vec<FullBooking>)
        ensures
            exists|now: i64| lists_upcoming(r@, self.bookings(), self.owners(), self.dogs(), now),
    {
        let now = now_millis();
        self.query_upcoming_bookings(now)
    }

    /// An empty repository.
    pub fn init() -> (r: Database)
        ensures
            r.wf(),
            r.bookings().len() == 0,
            r.dogs().len() == 0,
            r.owners().len() == 0,
    {
        Database { booking: Vec::new(), dog: Vec::new(), owner: Vec::new() }
    }

    pub fn booking_records(&self) -> (r: &Vec<Booking>)
        ensures
            r@ == self.bookings(),
    {
        &self.booking
    }

    pub fn dog_records(&self) -> (r: &Vec<Dog>)
        ensures
            r@ == self.dogs(),
    {
        &self.dog
    }

    pub fn owner_records(&self) -> (r: &Vec<Owner>)
        ensures
            r@ == self.owners(),
    {
        &self.owner
    }
}

} // verus!
