use h264_reader::nal::sei::user_data_unregistered::UserDataUnregistered as ReadUserData;
use h264_reader::nal::sei::{HeaderType, SeiReader};
use h264_reader::nal::{Nal, RefNal};
use h264_reader::rbsp::decode_nal;
use less_avc::nal_unit::{NalRefIdc, NalUnit, NalUnitType};
use less_avc::sei::{SupplementalEnhancementInformation, UserDataUnregistered};

const UUID: [u8; 16] = *b"MISPmicrosectime";

fn sei_rbsp(payload: Vec<u8>) -> Vec<u8> {
    let message = UserDataUnregistered::new(UUID, payload);
    SupplementalEnhancementInformation::UserDataUnregistered(message)
        .to_rbsp()
        .data
}

#[test]
fn test_sei_short_message() {
    let rbsp = sei_rbsp(b"hello from rust".to_vec());
    let mut expected = vec![5u8, 31];
    expected.extend_from_slice(&UUID);
    expected.extend_from_slice(b"hello from rust");
    expected.push(0x80);
    assert_eq!(rbsp, expected);
}

#[test]
fn test_sei_empty_message() {
    let rbsp = sei_rbsp(vec![]);
    let mut expected = vec![5u8, 16];
    expected.extend_from_slice(&UUID);
    expected.push(0x80);
    assert_eq!(rbsp, expected);
}

#[test]
fn test_sei_sizes() {
    // (bytes of the user, the bytes that give the size)
    let cases: [(usize, Vec<u8>); 7] = [
        (238, vec![254]),
        (239, vec![0xff, 0]),
        (240, vec![0xff, 1]),
        (494, vec![0xff, 0xff, 0]),
        (495, vec![0xff, 0xff, 1]),
        (1000, vec![0xff, 0xff, 0xff, 251]),
        (749, vec![0xff, 0xff, 0xff, 0]),
    ];
    for (len, size_bytes) in cases {
        let payload: Vec<u8> = (0..len).map(|i| (i % 251) as u8 + 1).collect();
        let rbsp = sei_rbsp(payload.clone());
        let mut expected = vec![5u8];
        expected.extend_from_slice(&size_bytes);
        expected.extend_from_slice(&UUID);
        expected.extend_from_slice(&payload);
        expected.push(0x80);
        assert_eq!(rbsp, expected, "{len} bytes");
    }
}

/// A size of exactly 255 is one byte `ff` and a last byte of zero: a reader
/// adds 255 for the `ff` and goes on to the next byte.
#[test]
fn test_sei_size_255() {
    let message = UserDataUnregistered::new([1u8; 16], vec![0xAA; 239]);
    let rbsp = SupplementalEnhancementInformation::UserDataUnregistered(message).to_rbsp();
    assert_eq!(rbsp.data[..3], [0x05, 0xFF, 0x00]);
    assert_eq!(rbsp.data.len(), 3 + 255 + 1);
    assert_eq!(rbsp.data[3..19], [1u8; 16]);
    assert_eq!(rbsp.data[19..258], [0xAAu8; 239]);
    assert_eq!(rbsp.data[258], 0x80);
}

#[test]
fn test_sei_message_parts() {
    let message = UserDataUnregistered::new(UUID, vec![1, 2, 3]);
    assert_eq!(message.uuid, UUID);
    assert_eq!(message.payload, vec![1, 2, 3]);
    let mut expected = UUID.to_vec();
    expected.extend_from_slice(&[1, 2, 3]);
    assert_eq!(message.to_sei_payload(), expected);
    assert_eq!(message, UserDataUnregistered::new(UUID, vec![1, 2, 3]));
}

#[test]
fn test_sei_nal_unit() {
    // a time stamp with zero bytes in it, and a start code at its front
    let payload = vec![0, 0, 1, 0x0F, 0, 0, 0xff, 0, 0, 0xff, 0, 1, 0xff, 2, 0];
    let rbsp = SupplementalEnhancementInformation::UserDataUnregistered(
        UserDataUnregistered::new(UUID, payload),
    )
    .to_rbsp();
    let unit = NalUnit::new(
        NalRefIdc::Zero,
        NalUnitType::SupplementalEnhancementInformation,
        rbsp.clone(),
    );
    let bytes = unit.to_annex_b_data();
    assert_eq!(&bytes[..5], &[0, 0, 0, 1, 0x06]);
    assert_eq!(decode_nal(&bytes[4..]).unwrap().as_ref(), &rbsp.data[..]);
    // 00 00 01 is escaped, 00 00 ff and 00 01 stay
    let tail = &bytes[bytes.len() - 17..];
    assert_eq!(
        tail,
        &[0, 0, 3, 1, 0x0F, 0, 0, 0xff, 0, 0, 0xff, 0, 1, 0xff, 2, 0, 0x80]
    );
}

#[test]
fn test_sei_read_back() {
    for len in [0usize, 1, 15, 200, 238, 239, 240, 300, 494, 749, 1000, 5000] {
        let payload: Vec<u8> = (0..len).map(|i| (i * 7 % 256) as u8).collect();
        let rbsp = SupplementalEnhancementInformation::UserDataUnregistered(
            UserDataUnregistered::new(UUID, payload.clone()),
        )
        .to_rbsp();
        let bytes = NalUnit::new(
            NalRefIdc::Zero,
            NalUnitType::SupplementalEnhancementInformation,
            rbsp,
        )
        .to_nal_unit();
        let nal = RefNal::new(&bytes, &[], true);
        let mut scratch = vec![];
        let mut reader = SeiReader::from_rbsp_bytes(nal.rbsp_bytes(), &mut scratch);
        let message = reader.next().unwrap().unwrap();
        assert_eq!(message.payload_type, HeaderType::UserDataUnregistered);
        let read = ReadUserData::read(&message).unwrap();
        assert_eq!(read.uuid(), UUID);
        assert_eq!(read.payload(), &payload[..]);
    }
}
