use dog_booking::identity::RecordId;
use dog_booking::models::{
    Booking, BookingRequest, Dog, DogRequest, FullBooking, Owner, OwnerRequest, ValidationError,
};
use dog_booking::repository::{Database, StorageError};

const OWNER_TEXT: &str = "64b7f0c2a1d3e4f5a6b7c8d9";
const DAY: i64 = 86_400_000;

fn id(last: u8) -> RecordId {
    RecordId { bytes: [0, 0, 0, 0, 0, 0, 0, 0, 0, 0, 0, last] }
}

fn owner_with(id_value: RecordId) -> Owner {
    Owner::from_request(
        id_value,
        OwnerRequest {
            name: "Olive".to_string(),
            email: None,
            phone: "555-0100".to_string(),
            address: "1 Kennel Lane".to_string(),
        },
    )
}

fn dog_of(id_value: RecordId, owner: RecordId, name: &str) -> Dog {
    Dog { id: id_value, owner, name: Some(name.to_string()), age: Some(3), breed: None }
}

fn booking(id_value: RecordId, owner: RecordId, start_time: i64, cancelled: bool) -> Booking {
    Booking { id: id_value, owner, start_time, duration_in_minutes: 30, cancelled }
}

fn ids(r: &[FullBooking]) -> Vec<RecordId> {
    r.iter().map(|f| f.id).collect()
}

#[test]
fn parse_reads_both_cases() {
    let lower = RecordId::parse("0123456789abcdefABCDEF00").unwrap();
    assert_eq!(
        lower.bytes,
        [0x01, 0x23, 0x45, 0x67, 0x89, 0xab, 0xcd, 0xef, 0xab, 0xcd, 0xef, 0x00]
    );
    assert!(RecordId::parse("0123456789abcdefABCDEF0").is_none());
    assert!(RecordId::parse("0123456789abcdefABCDEF0g").is_none());
    assert!(RecordId::parse("").is_none());
}

#[test]
fn owner_request_copies_fields() {
    let o = Owner::try_from(OwnerRequest {
        name: "Olive".to_string(),
        email: Some("o@example.org".to_string()),
        phone: "555-0100".to_string(),
        address: "1 Kennel Lane".to_string(),
    })
    .unwrap();
    assert_eq!(o.name, "Olive");
    assert_eq!(o.email.as_deref(), Some("o@example.org"));
    assert_eq!(o.phone, "555-0100");
    assert_eq!(o.address, "1 Kennel Lane");
}

#[test]
fn dog_request_parses_owner() {
    let d = Dog::try_from(DogRequest {
        owner: OWNER_TEXT.to_string(),
        name: Some("Rex".to_string()),
        age: Some(4),
        breed: None,
    })
    .unwrap();
    assert_eq!(d.owner.bytes, RecordId::parse(OWNER_TEXT).unwrap().bytes);
    assert_eq!(d.name.as_deref(), Some("Rex"));
    assert_eq!(d.age, Some(4));
    assert!(d.breed.is_none());
}

#[test]
fn malformed_owner_is_rejected() {
    for text in ["", "not-an-id", "64b7f0c2a1d3e4f5a6b7c8d", "64b7f0c2a1d3e4f5a6b7c8d9aa", "64b7f0c2a1d3e4f5a6b7c8dz"] {
        let dog = Dog::try_from(DogRequest { owner: text.to_string(), name: None, age: None, breed: None });
        assert!(matches!(dog, Err(ValidationError::InvalidIdentifier)));
        let b = Booking::try_from(BookingRequest {
            owner: text.to_string(),
            start_time: "2024-05-01T10:00:00Z".to_string(),
            duration_in_minutes: 60,
        });
        assert!(matches!(b, Err(ValidationError::InvalidIdentifier)));
    }
}

#[test]
fn start_time_is_normalized_to_utc() {
    let utc = Booking::try_from(BookingRequest {
        owner: OWNER_TEXT.to_string(),
        start_time: "2024-05-01T10:00:00Z".to_string(),
        duration_in_minutes: 60,
    })
    .unwrap();
    let offset = Booking::try_from(BookingRequest {
        owner: OWNER_TEXT.to_string(),
        start_time: "2024-05-01T12:00:00+02:00".to_string(),
        duration_in_minutes: 60,
    })
    .unwrap();
    assert_eq!(utc.start_time, 1_714_557_600_000);
    assert_eq!(offset.start_time, 1_714_557_600_000);
    assert_eq!(utc.duration_in_minutes, 60);
    assert!(!utc.cancelled);
    assert!(!offset.cancelled);
}

#[test]
fn malformed_start_time_is_rejected_first() {
    let bad_time = Booking::try_from(BookingRequest {
        owner: OWNER_TEXT.to_string(),
        start_time: "tomorrow at noon".to_string(),
        duration_in_minutes: 60,
    });
    assert!(matches!(bad_time, Err(ValidationError::InvalidTimestamp)));
    let both_bad = Booking::try_from(BookingRequest {
        owner: "nope".to_string(),
        start_time: "2024-13-01T10:00:00Z".to_string(),
        duration_in_minutes: 60,
    });
    assert!(matches!(both_bad, Err(ValidationError::InvalidTimestamp)));
}

#[test]
fn from_request_takes_given_start() {
    let req = BookingRequest { owner: OWNER_TEXT.to_string(), start_time: String::new(), duration_in_minutes: 15 };
    let b = Booking::from_request(id(9), req, Some(42)).unwrap();
    assert_eq!(b.id.bytes, id(9).bytes);
    assert_eq!(b.start_time, 42);
    assert_eq!(b.duration_in_minutes, 15);
    let req = BookingRequest { owner: OWNER_TEXT.to_string(), start_time: String::new(), duration_in_minutes: 15 };
    assert!(matches!(Booking::from_request(id(9), req, None), Err(ValidationError::InvalidTimestamp)));
}

#[test]
fn example_scenario_two_dogs_then_cancelled() {
    let today: i64 = 1_714_521_600_000;
    let mut db = Database::init();
    let o1 = id(1);
    assert_eq!(db.create_owner(owner_with(o1)).unwrap().bytes, o1.bytes);
    db.create_dog(dog_of(id(11), o1, "D1")).unwrap();
    db.create_dog(dog_of(id(12), o1, "D2")).unwrap();
    db.create_booking(booking(id(21), o1, today + DAY, false)).unwrap();

    let r = db.query_upcoming_bookings(today);
    assert_eq!(r.len(), 1);
    assert_eq!(r[0].id.bytes, id(21).bytes);
    assert_eq!(r[0].owner.bytes, o1.bytes);
    assert_eq!(r[0].start_time, today + DAY);
    assert!(!r[0].cancelled);
    let mut names: Vec<String> = r[0].dogs.iter().map(|d| d.name.clone().unwrap()).collect();
    names.sort();
    assert_eq!(names, vec!["D1".to_string(), "D2".to_string()]);

    let text = "000000000000000000000015";
    assert_eq!(db.cancel_booking(text), Ok(()));
    assert!(db.query_upcoming_bookings(today).is_empty());
}

#[test]
fn cancel_is_idempotent() {
    let mut db = Database::init();
    db.create_owner(owner_with(id(1))).unwrap();
    db.create_booking(booking(id(0x21), id(1), 5_000, false)).unwrap();
    let text = "000000000000000000000021";
    assert_eq!(db.cancel_booking(text), Ok(()));
    assert!(db.booking_records()[0].cancelled);
    assert_eq!(db.cancel_booking(text), Ok(()));
    assert!(db.booking_records()[0].cancelled);
    assert_eq!(db.booking_records().len(), 1);
}

#[test]
fn cancel_errors() {
    let mut db = Database::init();
    db.create_booking(booking(id(0x21), id(1), 5_000, false)).unwrap();
    assert_eq!(db.cancel_booking("000000000000000000000022"), Err(StorageError::NotFound));
    assert_eq!(db.cancel_booking("xyz"), Err(StorageError::InvalidIdentifier));
    assert!(!db.booking_records()[0].cancelled);
}

#[test]
fn duplicate_identity_is_refused() {
    let mut db = Database::init();
    db.create_owner(owner_with(id(1))).unwrap();
    assert_eq!(db.create_owner(owner_with(id(1))).unwrap_err(), StorageError::DuplicateKey);
    db.create_dog(dog_of(id(2), id(1), "Rex")).unwrap();
    assert_eq!(db.create_dog(dog_of(id(2), id(1), "Max")).unwrap_err(), StorageError::DuplicateKey);
    db.create_booking(booking(id(3), id(1), 0, false)).unwrap();
    assert_eq!(db.create_booking(booking(id(3), id(1), 9, false)).unwrap_err(), StorageError::DuplicateKey);
    assert_eq!(db.owner_records().len(), 1);
    assert_eq!(db.dog_records().len(), 1);
    assert_eq!(db.booking_records().len(), 1);
}

#[test]
fn past_booking_is_excluded() {
    let mut db = Database::init();
    db.create_owner(owner_with(id(1))).unwrap();
    db.create_booking(booking(id(0x21), id(1), 999, false)).unwrap();
    db.create_booking(booking(id(0x22), id(1), 1_000, false)).unwrap();
    db.create_booking(booking(id(0x23), id(1), 1_001, true)).unwrap();
    let r = db.query_upcoming_bookings(1_000);
    assert_eq!(ids(&r).iter().map(|i| i.bytes).collect::<Vec<_>>(), vec![id(0x22).bytes]);
}

#[test]
fn unresolved_owner_is_excluded() {
    let mut db = Database::init();
    db.create_owner(owner_with(id(1))).unwrap();
    db.create_booking(booking(id(0x21), id(2), 5_000, false)).unwrap();
    db.create_booking(booking(id(0x22), id(1), 5_000, false)).unwrap();
    let r = db.query_upcoming_bookings(0);
    assert_eq!(ids(&r).iter().map(|i| i.bytes).collect::<Vec<_>>(), vec![id(0x22).bytes]);
}

#[test]
fn dogless_owner_gives_empty_dogs() {
    let mut db = Database::init();
    db.create_owner(owner_with(id(1))).unwrap();
    db.create_owner(owner_with(id(2))).unwrap();
    db.create_dog(dog_of(id(11), id(2), "Rex")).unwrap();
    db.create_booking(booking(id(0x21), id(1), 5_000, false)).unwrap();
    let r = db.query_upcoming_bookings(0);
    assert_eq!(r.len(), 1);
    assert_eq!(r[0].id.bytes, id(0x21).bytes);
    assert!(r[0].dogs.is_empty());
}

#[test]
fn view_keeps_stored_order() {
    let mut db = Database::init();
    db.create_owner(owner_with(id(1))).unwrap();
    db.create_dog(dog_of(id(11), id(1), "A")).unwrap();
    db.create_booking(booking(id(0x23), id(1), 9_000, false)).unwrap();
    db.create_booking(booking(id(0x21), id(1), 7_000, false)).unwrap();
    let r = db.query_upcoming_bookings(0);
    assert_eq!(ids(&r).iter().map(|i| i.bytes).collect::<Vec<_>>(), vec![id(0x23).bytes, id(0x21).bytes]);
    assert_eq!(r[1].dogs.len(), 1);
}

#[test]
fn get_bookings_lists_far_future() {
    let mut db = Database::init();
    db.create_owner(owner_with(id(1))).unwrap();
    db.create_booking(booking(id(0x21), id(1), i64::MAX, false)).unwrap();
    db.create_booking(booking(id(0x22), id(1), 0, false)).unwrap();
    let r = db.get_bookings();
    assert_eq!(ids(&r).iter().map(|i| i.bytes).collect::<Vec<_>>(), vec![id(0x21).bytes]);
}

#[test]
fn fresh_identities_differ() {
    let a = Owner::try_from(OwnerRequest {
        name: "A".to_string(),
        email: None,
        phone: "1".to_string(),
        address: "x".to_string(),
    })
    .unwrap();
    let b = Owner::try_from(OwnerRequest {
        name: "A".to_string(),
        email: None,
        phone: "1".to_string(),
        address: "x".to_string(),
    })
    .unwrap();
    assert_ne!(a.id.bytes, b.id.bytes);
}
