use bombay::address::{AllocationRejection, ApplicationAddresses, MailAddr};
use bombay::application::Application;

#[test]
fn allocation_is_monotonic_and_never_uses_the_root() {
    let mut addresses = ApplicationAddresses::new();

    assert_eq!(MailAddr::application_root(), MailAddr(0));
    assert_eq!(addresses.allocate(), Ok(MailAddr(1)));
    assert_eq!(addresses.allocate(), Ok(MailAddr(2)));
}

#[test]
fn allocation_never_wraps() {
    let mut addresses = ApplicationAddresses::from_next(u64::MAX - 1);

    assert_eq!(addresses.allocate(), Ok(MailAddr(u64::MAX - 1)));
    assert_eq!(addresses.allocate(), Err(AllocationRejection::Exhausted));
    assert_eq!(addresses.allocate(), Err(AllocationRejection::Exhausted));
}

#[test]
fn one_source_allocates_one_unique_sequence() {
    let mut addresses = ApplicationAddresses::new();
    let allocated: Vec<MailAddr> = (0..4096).map(|_| addresses.allocate().unwrap()).collect();
    let expected: Vec<MailAddr> = (1..=4096).map(MailAddr).collect();
    assert_eq!(allocated, expected);
}

#[test]
fn an_address_converts_to_its_number_and_back() {
    let address = MailAddr::from(7_u64);
    assert_eq!(address, MailAddr(7));
    assert_eq!(u64::from(address), 7);
}

#[test]
fn an_application_declares_its_root_first() {
    let application = Application::new("root")
        .child("first role", 1)
        .child("second role", 2);
    assert_eq!(*application.root(), "root");
    assert_eq!(
        application.into_parts(),
        ("root", ("second role", 2, ("first role", 1, ())))
    );
}
