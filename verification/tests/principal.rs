use medical_records::principal::MAX_PRINCIPAL_BYTES;
use medical_records::{PrincipalId, RecordStore};

fn e() -> String {
    String::new()
}

#[test]
fn anonymous_principal_text() {
    let id = PrincipalId::from_bytes(vec![4u8]).unwrap();
    assert_eq!(id.to_text(), "2vxsx-fae");
}

#[test]
fn empty_principal_text() {
    let id = PrincipalId::from_bytes(Vec::new()).unwrap();
    assert_eq!(id.to_text(), "aaaaa-aa");
}

#[test]
fn nine_byte_principal_text() {
    let bytes: Vec<u8> = vec![0xef, 0xcd, 0xab, 0, 0, 0, 0, 0, 1];
    let id = PrincipalId::from_bytes(bytes.clone()).unwrap();
    assert_eq!(id.to_text(), "2chl6-4hpzw-vqaaa-aaaaa-c");
    assert_eq!(id.as_bytes(), &bytes);
}

#[test]
fn principal_text_agrees_with_candid() {
    let bytes: Vec<u8> = (1u8..=29u8).collect();
    let id = PrincipalId::from_bytes(bytes.clone()).unwrap();
    assert_eq!(id.to_text(), candid::Principal::from_slice(&bytes).to_text());
}

#[test]
fn principal_length_limit() {
    assert_eq!(MAX_PRINCIPAL_BYTES, 29);
    assert!(PrincipalId::from_bytes(vec![7u8; 29]).is_some());
    assert!(PrincipalId::from_bytes(vec![7u8; 30]).is_none());
    assert!(PrincipalId::from_bytes(vec![0u8; 1000]).is_none());
}

#[test]
fn records_are_owned_by_the_callers_text() {
    let anonymous = PrincipalId::from_bytes(vec![4u8]).unwrap();
    let system = PrincipalId::from_bytes(Vec::new()).unwrap();
    let mut store = RecordStore::new();
    let first: u64 = store.add_record_as(&anonymous, String::from("a.png"), e(), e(), e(), e(), e(), e());
    let second: u64 = store.add_record_as(&system, String::from("b.png"), e(), e(), e(), e(), e(), e());
    assert_eq!(first, 1);
    assert_eq!(second, 2);
    assert_eq!(store.get_record_by_id(1).unwrap().owner, "2vxsx-fae");
    assert_eq!(store.get_record_by_id(2).unwrap().owner, "aaaaa-aa");

    let mine = store.get_records_as(&anonymous);
    assert_eq!(mine.len(), 1);
    assert_eq!(mine[0].id, 1);
    assert_eq!(mine[0].name, "a.png");

    let by_text = store.get_my_records(&String::from("aaaaa-aa"));
    assert_eq!(by_text.len(), 1);
    assert_eq!(by_text[0].id, 2);

    let stranger = PrincipalId::from_bytes(vec![1u8, 2u8]).unwrap();
    assert!(store.get_records_as(&stranger).is_empty());
}
