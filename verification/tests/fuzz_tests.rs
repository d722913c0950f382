use rayhunter_tools::fuzz::{
    bytes_equal, compare_parses, container_messages, fuzz_input_accepted, is_processed_container,
    log_bodies_equal, messages_equal, u32_from_le_bytes, verdict_is_discrepancy, DataType,
    DifferentialVerdict, EncodedContainer, LogBodyView, LogRecord, Nas4GFields, NewMessage,
    OldMessage, MAX_FUZZ_INPUT_LEN,
};

#[test]
fn input_size_limit() {
    assert_eq!(MAX_FUZZ_INPUT_LEN, 50 * 1024 * 1024);
    assert!(fuzz_input_accepted(0));
    assert!(fuzz_input_accepted(50 * 1024 * 1024));
    assert!(!fuzz_input_accepted(50 * 1024 * 1024 + 1));
}

#[test]
fn only_user_space_containers_are_processed() {
    assert!(is_processed_container(DataType::UserSpace));
    assert!(!is_processed_container(DataType::Other(32)));
    assert!(!is_processed_container(DataType::Other(0)));
}

#[test]
fn container_messages_skip_failed_encodings() {
    let c = EncodedContainer {
        data_type: DataType::UserSpace,
        messages: vec![Some(vec![1, 2]), None, Some(vec![]), Some(vec![3])],
    };
    assert_eq!(container_messages(&c), vec![vec![1, 2], vec![], vec![3]]);
}

#[test]
fn container_messages_of_other_containers_are_empty() {
    let c = EncodedContainer {
        data_type: DataType::Other(7),
        messages: vec![Some(vec![1, 2])],
    };
    assert!(container_messages(&c).is_empty());
}

#[test]
fn byte_comparison() {
    assert!(bytes_equal(b"", b""));
    assert!(bytes_equal(b"abc", b"abc"));
    assert!(!bytes_equal(b"abc", b"abd"));
    assert!(!bytes_equal(b"abc", b"ab"));
}

#[test]
fn little_endian_opcode() {
    assert_eq!(u32_from_le_bytes(0x78, 0x56, 0x34, 0x12), 0x12345678);
    assert_eq!(u32_from_le_bytes(0xff, 0xff, 0xff, 0xff), u32::MAX);
    assert_eq!(u32_from_le_bytes(1, 0, 0, 0), 1);
}

fn nas(direction: &str, msg: &[u8]) -> Nas4GFields {
    Nas4GFields {
        direction: direction.as_bytes().to_vec(),
        ext_header_version: 1,
        rrc_rel: 2,
        rrc_version_minor: 3,
        rrc_version_major: 4,
        msg: msg.to_vec(),
    }
}

fn nas_body(direction: &str, msg: &[u8], debug: &str) -> LogBodyView {
    LogBodyView { nas4g: Some(nas(direction, msg)), debug: debug.as_bytes().to_vec() }
}

fn other_body(debug: &str) -> LogBodyView {
    LogBodyView { nas4g: None, debug: debug.as_bytes().to_vec() }
}

#[test]
fn nas_bodies_compare_fields_not_debug_text() {
    // Debug texts differ (the newer body has an extra field), fields agree.
    let new = nas_body("Downlink", &[9, 9], "Nas4GMessage { log_type: 1, .. }");
    let old = nas_body("Downlink", &[9, 9], "Nas4GMessage { .. }");
    assert!(log_bodies_equal(&new, &old));
    let old_other_msg = nas_body("Downlink", &[9, 8], "Nas4GMessage { .. }");
    assert!(!log_bodies_equal(&new, &old_other_msg));
    let old_other_dir = nas_body("Uplink", &[9, 9], "Nas4GMessage { .. }");
    assert!(!log_bodies_equal(&new, &old_other_dir));
}

#[test]
fn other_bodies_compare_debug_text() {
    assert!(log_bodies_equal(&other_body("X { a: 1 }"), &other_body("X { a: 1 }")));
    assert!(!log_bodies_equal(&other_body("X { a: 1 }"), &other_body("X { a: 2 }")));
    // A 4G NAS body against another kind compares the Debug texts.
    assert!(!log_bodies_equal(&nas_body("Uplink", &[], "N"), &other_body("O")));
    assert!(log_bodies_equal(&nas_body("Uplink", &[], "Same"), &other_body("Same")));
}

fn log(ts: u64, body: LogBodyView) -> LogRecord {
    LogRecord {
        pending_msgs: 0,
        outer_length: 20,
        inner_length: 18,
        log_type: 0xb0c0,
        timestamp: ts,
        body,
    }
}

#[test]
fn log_messages() {
    let new = NewMessage::Log(log(5, other_body("B")));
    assert!(messages_equal(&new, &OldMessage::Log(log(5, other_body("B")))));
    assert!(!messages_equal(&new, &OldMessage::Log(log(6, other_body("B")))));
    assert!(!messages_equal(&new, &OldMessage::Log(log(5, other_body("C")))));
}

fn response_new(op: [u8; 4], payload: &str) -> NewMessage {
    NewMessage::Response {
        opcode1: op[0],
        opcode2: op[1],
        opcode3: op[2],
        opcode4: op[3],
        subopcode: 7,
        status: 0,
        payload: payload.as_bytes().to_vec(),
    }
}

fn response_old(opcode: u32, payload: &str) -> OldMessage {
    OldMessage::Response { opcode, subopcode: 7, status: 0, payload: payload.as_bytes().to_vec() }
}

#[test]
fn response_messages() {
    let new = response_new([0x4b, 0x00, 0x01, 0x00], "P");
    assert!(messages_equal(&new, &response_old(0x0001004b, "P")));
    assert!(!messages_equal(&new, &response_old(0x4b000100, "P")));
    assert!(!messages_equal(&new, &response_old(0x0001004b, "Q")));
}

#[test]
fn log_and_response_never_agree() {
    let new = response_new([0, 0, 0, 0], "P");
    assert!(!messages_equal(&new, &OldMessage::Log(log(0, other_body("P")))));
    let new = NewMessage::Log(log(0, other_body("P")));
    assert!(!messages_equal(&new, &response_old(0, "P")));
}

#[test]
fn differential_verdicts() {
    let msg = || NewMessage::Log(log(1, other_body("B")));
    let old = || OldMessage::Log(log(1, other_body("B")));
    assert_eq!(compare_parses(&Some((3, msg())), &Some((3, old()))), DifferentialVerdict::Agree);
    assert_eq!(compare_parses(&None, &None), DifferentialVerdict::BothFailed);
    assert_eq!(
        compare_parses(&Some((3, msg())), &Some((4, old()))),
        DifferentialVerdict::RemainingDiffers { new_remaining: 3, old_remaining: 4 }
    );
    assert_eq!(
        compare_parses(&Some((3, msg())), &Some((3, OldMessage::Log(log(2, other_body("B")))))),
        DifferentialVerdict::MessagesDiffer
    );
    assert_eq!(compare_parses(&Some((0, msg())), &None), DifferentialVerdict::OnlyNewParsed);
    assert_eq!(compare_parses(&None, &Some((0, old()))), DifferentialVerdict::OnlyOldParsed);
}

#[test]
fn discrepancies() {
    assert!(!verdict_is_discrepancy(DifferentialVerdict::Agree));
    assert!(!verdict_is_discrepancy(DifferentialVerdict::BothFailed));
    assert!(verdict_is_discrepancy(DifferentialVerdict::MessagesDiffer));
    assert!(verdict_is_discrepancy(DifferentialVerdict::OnlyNewParsed));
    assert!(verdict_is_discrepancy(DifferentialVerdict::OnlyOldParsed));
    assert!(verdict_is_discrepancy(DifferentialVerdict::RemainingDiffers {
        new_remaining: 0,
        old_remaining: 1
    }));
}
