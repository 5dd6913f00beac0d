use w1_gate::access::AuthorizationSet;
use w1_gate::identifier::OneWireId;
use w1_gate::store::{
    decode_records, deserialize_1w_devices, encode_records, serialize_1w_devices,
    PersistenceError,
};

const A: OneWireId = [0x33, 0x00, 0x00, 0x03, 0x92, 0xc6, 0xea];
const B: OneWireId = [0x01, 0x02, 0x03, 0x04, 0x05, 0x06, 0x07];
const C: OneWireId = [0xff, 0xfe, 0xfd, 0xfc, 0xfb, 0xfa, 0xf9];

fn sorted(mut ids: Vec<OneWireId>) -> Vec<OneWireId> {
    ids.sort();
    ids
}

#[test]
fn records_are_the_bytes_in_order() {
    assert_eq!(encode_records(&vec![]), Vec::<u8>::new());
    assert_eq!(encode_records(&vec![A]), A.to_vec());
    assert_eq!(
        encode_records(&vec![B, A]),
        vec![0x01, 0x02, 0x03, 0x04, 0x05, 0x06, 0x07, 0x33, 0x00, 0x00, 0x03, 0x92, 0xc6, 0xea]
    );
}

#[test]
fn records_are_read_in_order() {
    assert_eq!(decode_records(&[]), Ok(vec![]));
    assert_eq!(decode_records(&A), Ok(vec![A]));
    let bytes = [
        0x01, 0x02, 0x03, 0x04, 0x05, 0x06, 0x07, 0x33, 0x00, 0x00, 0x03, 0x92, 0xc6, 0xea,
    ];
    assert_eq!(decode_records(&bytes), Ok(vec![B, A]));
}

#[test]
fn a_trailing_fragment_is_an_error() {
    for stray in 1..7 {
        let mut bytes = encode_records(&vec![A, B]);
        bytes.extend_from_slice(&C[..stray]);
        assert_eq!(decode_records(&bytes), Err(PersistenceError::TruncatedRecord));
        assert!(matches!(
            deserialize_1w_devices(&bytes),
            Err(PersistenceError::TruncatedRecord)
        ));
        assert_eq!(decode_records(&C[..stray]), Err(PersistenceError::TruncatedRecord));
    }
}

#[test]
fn records_round_trip() {
    let lists: Vec<Vec<OneWireId>> = vec![vec![], vec![A], vec![A, B], vec![C, A, B], vec![A, A]];
    for ids in lists {
        assert_eq!(decode_records(&encode_records(&ids)), Ok(ids));
    }
}

#[test]
fn many_records_round_trip() {
    let mut ids: Vec<OneWireId> = Vec::new();
    for n in 0..1000u32 {
        let b = n.to_be_bytes();
        ids.push([0x33, b[0], b[1], b[2], b[3], 0x5a, (n % 251) as u8]);
    }
    let bytes = encode_records(&ids);
    assert_eq!(bytes.len(), 7000);
    assert_eq!(decode_records(&bytes), Ok(ids));
}

#[test]
fn save_then_load_yields_an_equal_set() {
    let lists: Vec<Vec<OneWireId>> = vec![vec![], vec![A], vec![A, B], vec![C, A, B]];
    for ids in lists {
        let mut set = AuthorizationSet::new();
        for id in &ids {
            set.insert(*id);
        }
        let bytes = serialize_1w_devices(&set);
        assert_eq!(bytes.len(), 7 * ids.len());
        let loaded = deserialize_1w_devices(&bytes).unwrap();
        assert_eq!(loaded.len(), ids.len());
        assert_eq!(sorted(loaded.to_vec()), sorted(ids.clone()));
        for id in &ids {
            assert!(loaded.contains(id));
        }
    }
}

#[test]
fn serialize_writes_each_member_once() {
    let mut set = AuthorizationSet::new();
    set.insert(A);
    set.insert(B);
    set.insert(A);
    let bytes = serialize_1w_devices(&set);
    assert_eq!(sorted(decode_records(&bytes).unwrap()), sorted(vec![A, B]));
}

#[test]
fn a_record_stored_twice_counts_once() {
    let bytes = encode_records(&vec![A, B, A]);
    let loaded = deserialize_1w_devices(&bytes).unwrap();
    assert_eq!(loaded.len(), 2);
    assert!(loaded.contains(&A));
    assert!(loaded.contains(&B));
    assert!(!loaded.contains(&C));
}

#[test]
fn no_bytes_load_as_the_empty_set() {
    let loaded = deserialize_1w_devices(&[]).unwrap();
    assert_eq!(loaded.len(), 0);
    assert_eq!(serialize_1w_devices(&loaded), Vec::<u8>::new());
}
