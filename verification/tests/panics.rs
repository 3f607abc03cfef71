use std::any::Any;
use zeron::panics::{PanicLocation, PanicPayload, describe_location, extract_panic_message};

fn payload(payload: &dyn Any) -> PanicPayload<'_> {
    if let Some(s) = payload.downcast_ref::<&str>() {
        PanicPayload::Str(s)
    } else if let Some(s) = payload.downcast_ref::<String>() {
        PanicPayload::Owned(s)
    } else {
        PanicPayload::Opaque
    }
}

#[test]
fn string_panic_payloads_extracted() {
    assert_eq!(extract_panic_message(payload(&"static")), "static");
    assert_eq!(extract_panic_message(payload(&String::from("owned"))), "owned");
    assert_eq!(extract_panic_message(payload(&42u32)), "<non-string panic payload>");
}

#[test]
fn panic_locations_are_described() {
    let at = PanicLocation { file: "src/main.rs", line: 120, column: 7 };
    assert_eq!(describe_location(Some(at)), "src/main.rs:120:7");
    assert_eq!(describe_location(None), "<unknown location>");
}
