use achordion_lib::store::{Store, PARAMETERS_SIZE, STORE_SIZE};

fn parameters_with_note(note: u8) -> [u8; PARAMETERS_SIZE] {
    let mut parameters = [0u8; PARAMETERS_SIZE];
    parameters[3] = note;
    parameters
}

#[test]
fn initialize_store() {
    let _store = Store::new([0; PARAMETERS_SIZE], 0);
}

#[test]
fn get_parameters_from_store() {
    let parameters = parameters_with_note(7);
    let store = Store::new(parameters, 0);
    assert!(store.parameters() == parameters);
}

#[test]
fn get_version_from_store() {
    let store = Store::new([0; PARAMETERS_SIZE], 10);
    assert_eq!(store.version(), 10);
}

#[test]
fn initialize_store_from_bytes() {
    let store_a = Store::new(parameters_with_note(9), 0);
    let bytes = store_a.to_bytes();
    let store_b = Store::from_bytes(bytes).ok().unwrap();
    assert!(store_a.parameters() == store_b.parameters());
}

#[test]
fn detect_invalid_crc_while_initializing_from_bytes() {
    let store = Store::new([0; PARAMETERS_SIZE], 0);
    let mut bytes = store.to_bytes();
    bytes[5] = 0x13;
    assert!(Store::from_bytes(bytes).is_err());
}

#[test]
fn dump_store_as_bytes() {
    let store_a = Store::new(parameters_with_note(0), 0);
    let bytes_a = store_a.to_bytes();

    let store_b = Store::new(parameters_with_note(1), 0);
    let bytes_b = store_b.to_bytes();

    assert!(bytes_a != bytes_b);
}

#[test]
fn store_layout_is_big_endian_header_then_parameters() {
    let store = Store::new(parameters_with_note(0xab), 0x0102_0304);
    let bytes = store.to_bytes();
    assert_eq!(bytes.len(), STORE_SIZE);
    assert_eq!(Store::SIZE, STORE_SIZE);
    assert_eq!(&bytes[0..4], &[1, 2, 3, 4]);
    assert_eq!(&bytes[4..6], &[0, 102]);
    assert_eq!(bytes[8 + 3], 0xab);
}

#[test]
fn corrupted_parameters_are_detected() {
    let store = Store::new(parameters_with_note(5), 3);
    let mut bytes = store.to_bytes();
    bytes[20] ^= 0x01;
    assert!(Store::from_bytes(bytes).is_err());
}

#[test]
fn corrupted_crc_is_detected() {
    let store = Store::new(parameters_with_note(5), 3);
    let mut bytes = store.to_bytes();
    bytes[7] ^= 0x80;
    assert!(Store::from_bytes(bytes).is_err());
}

#[test]
fn checksum_is_crc16_usb_of_the_parameters() {
    // The CRC field is the CRC-16/USB of the parameter bytes.
    let store = Store::new([0; PARAMETERS_SIZE], 0);
    let bytes = store.to_bytes();
    let crc = u16::from_be_bytes([bytes[6], bytes[7]]);
    let expected = crc::Crc::<u16>::new(&crc::CRC_16_USB).checksum(&[0u8; PARAMETERS_SIZE]);
    assert_eq!(crc, expected);
}

#[test]
fn bytes_round_trip() {
    let store = Store::new(parameters_with_note(42), 77);
    let bytes = store.to_bytes();
    let read = Store::from_bytes(bytes).ok().unwrap();
    assert_eq!(read.to_bytes(), bytes);
    assert_eq!(read.version(), 77);
}

fn parameters_checksum(parameters: &[u8; PARAMETERS_SIZE]) -> u16 {
    crc::Crc::<u16>::new(&crc::CRC_16_USB).checksum(parameters)
}

#[test]
fn parts_with_matching_checksum_are_accepted() {
    let parameters = [1; PARAMETERS_SIZE];
    let checksum = parameters_checksum(&parameters);
    let store = Store::from_checked_parts(7, parameters, checksum, checksum)
        .ok()
        .unwrap();
    assert_eq!(store.version(), 7);
    assert_eq!(store.parameters(), parameters);
    let bytes = store.to_bytes();
    assert_eq!(
        &bytes[..8],
        &[0, 0, 0, 7, 0, 102, (checksum >> 8) as u8, (checksum & 0xff) as u8]
    );
}

#[test]
fn parts_with_other_saved_crc_are_refused() {
    let parameters = [1; PARAMETERS_SIZE];
    let checksum = parameters_checksum(&parameters);
    assert!(Store::from_checked_parts(7, parameters, checksum ^ 1, checksum).is_err());
}

#[test]
fn store_checksum_is_crc_16_usb() {
    let parameters = [1; PARAMETERS_SIZE];
    let bytes = Store::new(parameters, 3).to_bytes();
    let checksum = parameters_checksum(&parameters);
    assert_eq!(bytes[6], (checksum >> 8) as u8);
    assert_eq!(bytes[7], (checksum & 0xff) as u8);
}
