use herdr_queue::clock::{format_timestamp, millis_of_nanos, now_ms, timestamp_or_number};
use herdr_queue::ident::AgentInstanceId;

#[test]
fn timestamps_are_written_as_rfc_3339() {
    assert_eq!(format_timestamp(0), "1970-01-01T00:00:00Z");
    assert_eq!(format_timestamp(1_700_000_000_123), "2023-11-14T22:13:20.123Z");
    assert_eq!(format_timestamp(-1), "1969-12-31T23:59:59.999Z");
}

#[test]
fn timestamps_out_of_range_are_written_as_numbers() {
    assert_eq!(format_timestamp(253_402_300_799_999), "9999-12-31T23:59:59.999Z");
    assert_eq!(format_timestamp(253_402_300_800_000), "253402300800000");
    assert_eq!(format_timestamp(-62_167_219_200_000), "0000-01-01T00:00:00Z");
    assert_eq!(format_timestamp(-62_167_219_200_001), "-62167219200001");
    assert_eq!(format_timestamp(i64::MAX), "9223372036854775807");
    assert_eq!(format_timestamp(i64::MIN), "-9223372036854775808");
}

#[test]
fn formatted_text_goes_before_the_number() {
    assert_eq!(timestamp_or_number(Some("then".to_string()), 5), "then");
    assert_eq!(timestamp_or_number(None, -70), "-70");
    assert_eq!(timestamp_or_number(None, 0), "0");
}

#[test]
fn nanoseconds_are_cut_to_milliseconds() {
    assert_eq!(millis_of_nanos(1_999_999), 1);
    assert_eq!(millis_of_nanos(-1_999_999), -1);
    assert_eq!(millis_of_nanos(i128::MAX), i64::MAX);
    assert_eq!(millis_of_nanos(i128::MIN), i64::MAX);
}

#[test]
fn clock_is_past_2020() {
    assert!(now_ms() > 1_577_836_800_000);
}

#[test]
fn instance_ids_are_written_one_way() {
    let canonical = "67e55044-10b1-426f-9247-bb680e5fe0c8";
    for text in [
        canonical,
        "67E55044-10B1-426F-9247-BB680E5FE0C8",
        "67e5504410b1426f9247bb680e5fe0c8",
        "{67e55044-10b1-426f-9247-bb680e5fe0c8}",
        "urn:uuid:67E55044-10b1-426f-9247-bb680e5fe0c8",
        "URN:UUID:67e55044-10b1-426f-9247-bb680e5fe0c8",
    ] {
        assert_eq!(AgentInstanceId::parse(text).unwrap().into_text(), canonical);
    }
}

#[test]
fn other_texts_are_no_instance_ids() {
    for text in [
        "",
        "critic",
        "67e55044-10b1-426f-9247-bb680e5fe0c",
        "67e55044-10b1-426f-9247-bb680e5fe0c8 ",
        "67e5504-410b1-426f-9247-bb680e5fe0c8",
        "67e55044-10b1-426f-9247-bb680e5fe0cg",
        "{67e5504410b1426f9247bb680e5fe0c8}",
        "{67e55044-10b1-426f-9247-bb680e5fe0c8",
        "urn:uuid:67e5504410b1426f9247bb680e5fe0c8",
        "urn-uuid-67e55044-10b1-426f-9247-bb680e5fe0c8",
    ] {
        assert!(AgentInstanceId::parse(text).is_none(), "{text}");
        assert!(uuid::Uuid::parse_str(text).is_err(), "{text}");
    }
}
