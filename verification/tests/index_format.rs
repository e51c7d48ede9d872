use chuncord::error::TransferError;
use chuncord::index::{Index, PartRef};

fn sample() -> Index {
    Index {
        name: "holiday.mkv".to_string(),
        size: 52_420_001,
        parts: vec![
            PartRef { sequence: 0, remote_id: 11, remote_locator: "https://cdn.example/a/0".to_string() },
            PartRef { sequence: 1, remote_id: 12, remote_locator: "https://cdn.example/a/1".to_string() },
            PartRef { sequence: 2, remote_id: u64::MAX, remote_locator: "https://cdn.example/a/2".to_string() },
        ],
    }
}

fn same(a: &Index, b: &Index) -> bool {
    a.name == b.name
        && a.size == b.size
        && a.parts.len() == b.parts.len()
        && a.parts.iter().zip(b.parts.iter()).all(|(x, y)| {
            x.sequence == y.sequence && x.remote_id == y.remote_id && x.remote_locator == y.remote_locator
        })
}

#[test]
fn index_round_trips_through_text() {
    let index = sample();
    let text = index.serialize().expect("the writer takes an index document");
    println!("{}", text);
    let back = Index::deserialize(&text).expect("what was written reads back");
    assert!(same(&index, &back));
}

#[test]
fn index_text_is_toml_with_the_three_fields() {
    let text = sample().serialize().unwrap();
    let value: toml::Value = toml::from_str(&text).unwrap();
    assert_eq!(value.get("name").and_then(|v| v.as_str()), Some("holiday.mkv"));
    assert_eq!(value.get("size").and_then(|v| v.as_integer()), Some(52_420_001));
    let parts = value.get("parts").and_then(|v| v.as_array()).unwrap();
    assert_eq!(parts.len(), 3);
    assert_eq!(parts[1].get("remote_id").and_then(|v| v.as_integer()), Some(12));
    assert_eq!(parts[2].get("remote_id").and_then(|v| v.as_str()), Some("18446744073709551615"));
}

#[test]
fn index_with_a_gap_in_the_numbering_is_corrupt() {
    let text = "name = \"f\"\nsize = 3\n[[parts]]\nsequence = 0\nremote_id = 1\nremote_locator = \"u\"\n[[parts]]\nsequence = 2\nremote_id = 2\nremote_locator = \"v\"\n";
    assert!(matches!(Index::deserialize(text), Err(TransferError::CorruptIndex)));
}

#[test]
fn index_without_parts_is_corrupt() {
    assert!(matches!(Index::deserialize("name = \"f\"\nsize = 0\nparts = []\n"), Err(TransferError::CorruptIndex)));
    assert!(matches!(Index::deserialize("name = \"f\"\nsize = 0\n"), Err(TransferError::CorruptIndex)));
}

#[test]
fn index_that_is_no_document_is_corrupt() {
    assert!(matches!(Index::deserialize("name = "), Err(TransferError::CorruptIndex)));
}

#[test]
fn index_with_unknown_fields_still_reads() {
    let text = "name = \"f\"\nsize = 3\ncomment = \"later version\"\n[[parts]]\nsequence = 0\nremote_id = \"7\"\nremote_locator = \"u\"\nchecksum = 5\n";
    let index = Index::deserialize(text).unwrap();
    assert_eq!(index.parts.len(), 1);
    assert_eq!(index.parts[0].remote_id, 7);
    assert_eq!(index.size, 3);
}

#[test]
fn index_text_is_handed_out_only_if_it_reads_back() {
    let index = sample();
    let text = index.serialize_checked().expect("the text reads back as the index");
    assert_eq!(Some(text.clone()), index.serialize());
    assert!(same(&Index::deserialize(&text).unwrap(), &index));
}

#[test]
fn index_that_does_not_read_back_is_not_handed_out() {
    let mut index = sample();
    index.parts[1].sequence = 5;
    assert!(index.serialize().is_some());
    assert!(index.serialize_checked().is_none());
    let empty = Index { name: "f".to_string(), size: 0, parts: Vec::new() };
    assert!(empty.serialize_checked().is_none());
}

#[test]
fn indices_are_compared_field_by_field() {
    let a = sample();
    assert!(a.same(&sample()));
    let mut b = sample();
    b.parts[2].remote_locator.push('x');
    assert!(!a.same(&b));
    let mut c = sample();
    c.size += 1;
    assert!(!a.same(&c));
    let mut d = sample();
    d.parts.pop();
    assert!(!a.same(&d));
    let mut e = sample();
    e.name.push('x');
    assert!(!a.same(&e));
    let mut f = sample();
    f.parts[0].remote_id = 1;
    assert!(!a.same(&f));
}
