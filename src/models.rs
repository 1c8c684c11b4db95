use vstd::prelude::*;

use crate::clock::{parse_rfc3339_millis, rfc3339_millis};
use crate::identity::{fresh_object_id, id_bytes_of, is_id_text, RecordId};

verus! {

/// Why a request could not become a record.
#[derive(Clone, Copy, Debug, PartialEq, Eq, Structural)]
pub enum ValidationError {
    /// A reference is not the text of an identity.
    InvalidIdentifier,
    /// A start time is not an RFC 3339 timestamp.
    InvalidTimestamp,
}

pub struct Owner {
    pub id: RecordId,
    pub name: String,
    pub email: Option<String>,
    pub phone: String,
    pub address: String,
}

pub struct OwnerRequest {
    pub name: String,
    pub email: Option<String>,
    pub phone: String,
    pub address: String,
}

pub struct Dog {
    pub id: RecordId,
    /// The identity of the dog's owner.
    pub owner: RecordId,
    pub name: Option<String>,
    pub age: Option<u8>,
    pub breed: Option<String>,
}

pub struct DogRequest {
    /// The text of the owner's identity.
    pub owner: String,
    pub name: Option<String>,
    pub age: Option<u8>,
    pub breed: Option<String>,
}

#[derive(Clone, Copy)]
pub struct Booking {
    pub id: RecordId,
    /// The identity of the booking's owner.
    pub owner: RecordId,
    /// Milliseconds since the Unix epoch, UTC.
    pub start_time: i64,
    pub duration_in_minutes: u8,
    pub cancelled: bool,
}

pub struct BookingRequest {
    /// The text of the owner's identity.
    pub owner: String,
    /// An RFC 3339 timestamp, with any offset.
    pub start_time: String,
    pub duration_in_minutes: u8,
}

/// A booking together with every dog of its owner.
pub struct FullBooking {
    pub id: RecordId,
    pub owner: RecordId,
    pub dogs: Vec<Dog>,
    /// Milliseconds since the Unix epoch, UTC.
    pub start_time: i64,
    pub duration_in_minutes: u8,
    pub cancelled: bool,
}

fn copy_text(s: &Option<String>) -> (r: Option<String>)
    ensures
        r == *s,
{
    match s {
        Some(t) => Some(t.clone()),
        None => None,
    }
}

impl Owner {
    /// The owner that a request describes, under the given identity.
    pub fn from_request(id: RecordId, value: OwnerRequest) -> (r: Owner)
        ensures
            r.id == id,
            r.name == value.name,
            r.email == value.email,
            r.phone == value.phone,
            r.address == value.address,
    {
        Owner { id, name: value.name, email: value.email, phone: value.phone, address: value.address }
    }

    /// The owner that a request describes, under a fresh identity; every
    /// request is accepted.
    pub fn try_from(value: OwnerRequest) -> (r: Result<Owner, ValidationError>)
        ensures
            r is Ok,
            r->Ok_0.name == value.name,
            r->Ok_0.email == value.email,
            r->Ok_0.phone == value.phone,
            r->Ok_0.address == value.address,
    {
        Ok(Owner::from_request(fresh_object_id(), value))
    }
}

impl Dog {
    pub fn copy(&self) -> (r: Dog)
        ensures
            r == *self,
    {
        Dog {
            id: self.id,
            owner: self.owner,
            name: copy_text(&self.name),
            age: self.age,
            breed: copy_text(&self.breed),
        }
    }

    /// The dog that a request describes, under the given identity; fails with
    /// `InvalidIdentifier` exactly when the owner's text is not an identity.
    pub fn from_request(id: RecordId, value: DogRequest) -> (r: Result<Dog, ValidationError>)
        ensures
            r is Err <==> !is_id_text(value.owner@),
            r is Err ==> r->Err_0 == ValidationError::InvalidIdentifier,
            r is Ok ==> {
                let d = r->Ok_0;
                &&& d.id == id
                &&& d.owner@ == id_bytes_of(value.owner@)
                &&& d.name == value.name
                &&& d.age == value.age
                &&& d.breed == value.breed
            },
    {
        match RecordId::parse(value.owner.as_str()) {
            None => Err(ValidationError::InvalidIdentifier),
            Some(owner) => Ok(Dog { id, owner, name: value.name, age: value.age, breed: value.breed }),
        }
    }

    /// As `from_request`, under a fresh identity.
    pub fn try_from(value: DogRequest) -> (r: Result<Dog, ValidationError>)
        ensures
            r is Err <==> !is_id_text(value.owner@),
            r is Err ==> r->Err_0 == ValidationError::InvalidIdentifier,
            r is Ok ==> {
                let d = r->Ok_0;
                &&& d.owner@ == id_bytes_of(value.owner@)
                &&& d.name == value.name
                &&& d.age == value.age
                &&& d.breed == value.breed
            },
    {
        Dog::from_request(fresh_object_id(), value)
    }
}

impl Booking {
    /// The booking that a request describes, under the given identity, where
    /// `start` is the instant read from the request's start time (`None`
    /// where it is not a timestamp). The start time is checked first; a new
    /// booking is never cancelled.
    pub fn from_request(id: RecordId, value: BookingRequest, start: Option<i64>) -> (r: Result<
        Booking,
        ValidationError,
    >)
        ensures
            start is None ==> r == Err::<Booking, ValidationError>(ValidationError::InvalidTimestamp),
            start is Some && !is_id_text(value.owner@) ==> r == Err::<Booking, ValidationError>(
                ValidationError::InvalidIdentifier,
            ),
            start is Some && is_id_text(value.owner@) ==> r is Ok,
            r is Ok ==> {
                let b = r->Ok_0;
                &&& b.id == id
                &&& b.owner@ == id_bytes_of(value.owner@)
                &&& b.start_time == start->Some_0
                &&& b.duration_in_minutes == value.duration_in_minutes
                &&& !b.cancelled
            },
    {
        let start_time = match start {
            None => return Err(ValidationError::InvalidTimestamp),
            Some(t) => t,
        };
        match RecordId::parse(value.owner.as_str()) {
            None => Err(ValidationError::InvalidIdentifier),
            Some(owner) => Ok(
                Booking {
                    id,
                    owner,
                    start_time,
                    duration_in_minutes: value.duration_in_minutes,
                    cancelled: false,
                },
            ),
        }
    }

    /// The booking that a request describes, under a fresh identity. Its start
    /// is the absolute instant of the request's timestamp, whatever offset
    /// that was written with.
    pub fn try_from(value: BookingRequest) -> (r: Result<Booking, ValidationError>)
        ensures
            rfc3339_millis(value.start_time@) is None ==> r == Err::<Booking, ValidationError>(
                ValidationError::InvalidTimestamp,
            ),
            rfc3339_millis(value.start_time@) is Some && !is_id_text(value.owner@) ==> r == Err::<
                Booking,
                ValidationError,
            >(ValidationError::InvalidIdentifier),
            rfc3339_millis(value.start_time@) is Some && is_id_text(value.owner@) ==> r is Ok,
            r is Ok ==> {
                let b = r->Ok_0;
                &&& b.owner@ == id_bytes_of(value.owner@)
                &&& b.start_time == rfc3339_millis(value.start_time@)->Some_0
                &&& b.duration_in_minutes == value.duration_in_minutes
                &&& !b.cancelled
            },
    {
        let start = parse_rfc3339_millis(value.start_time.as_str());
        Booking::from_request(fresh_object_id(), value, start)
    }
}

} // verus!
