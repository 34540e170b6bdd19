use chinviter::{
    contains_text, decode_rows, encode_rows, ends_with_text, same_text, stage, ChannelRecord,
    RemoteChannel, StoreError, Visibility,
};

fn rec(id: &str, vis: Visibility, name: &str) -> ChannelRecord {
    ChannelRecord::new(id.to_string(), vis, name.to_string())
}

#[test]
fn substring_search_is_case_sensitive() {
    assert!(contains_text("team-general", "general"));
    assert!(contains_text("team-general", ""));
    assert!(contains_text("abc", "abc"));
    assert!(!contains_text("team-general", "General"));
    assert!(!contains_text("ab", "abc"));
    assert!(contains_text("ééx", "éx"));
}

#[test]
fn suffix_and_equality() {
    assert!(ends_with_text("alice@example.com", "@example.com"));
    assert!(!ends_with_text("alice@example.org", "@example.com"));
    assert!(!ends_with_text("com", "example.com"));
    assert!(ends_with_text("x", ""));
    assert!(same_text("list", "list"));
    assert!(!same_text("list", "lists"));
    assert!(!same_text("list", "lisT"));
}

#[test]
fn visibility_words() {
    assert_eq!(Visibility::from_flag(true), Visibility::Private);
    assert_eq!(Visibility::from_flag(false), Visibility::Public);
    assert_eq!(Visibility::Private.word(), "private");
    assert_eq!(Visibility::Public.word(), "public");
    assert_eq!(Visibility::from_word("public"), Some(Visibility::Public));
    assert_eq!(Visibility::from_word("Private"), None);
}

#[test]
fn record_from_channel_and_fields() {
    let c = RemoteChannel { id: "C1".to_string(), name: "general".to_string(), is_private: true };
    let r = ChannelRecord::from_channel(&c);
    assert_eq!(r, rec("C1", Visibility::Private, "general"));
    assert_eq!(r.to_fields(), vec!["C1".to_string(), "private".to_string(), "general".to_string()]);
    let back = ChannelRecord::from_fields(&r.to_fields());
    assert_eq!(back, Some(r));
    assert_eq!(ChannelRecord::from_fields(&vec!["C1".to_string(), "secret".to_string(), "x".to_string()]), None);
    assert_eq!(ChannelRecord::from_fields(&vec!["C1".to_string(), "private".to_string()]), None);
}

#[test]
fn encode_writes_one_row_per_record() {
    let rows = vec![
        rec("C1", Visibility::Private, "general"),
        rec("C2", Visibility::Public, "a,b"),
    ];
    let bytes = encode_rows(&rows);
    assert_eq!(String::from_utf8(bytes).unwrap(), "C1,private,general\nC2,public,\"a,b\"\n");
    assert_eq!(encode_rows(&vec![]), Vec::<u8>::new());
}

#[test]
fn decode_reads_rows_in_file_order() {
    let rows = decode_rows(b"C1,private,general\nC2,public,\"a,b\"\n").unwrap();
    assert_eq!(rows, vec![rec("C1", Visibility::Private, "general"), rec("C2", Visibility::Public, "a,b")]);
    assert_eq!(decode_rows(b"").unwrap(), vec![]);
}

#[test]
fn decode_fails_on_a_malformed_row() {
    assert_eq!(
        decode_rows(b"C1,private,general\nC2,hidden,x\n"),
        Err(StoreError::MalformedRow { index: 1 })
    );
    assert_eq!(decode_rows(b"C1,private\n"), Err(StoreError::MalformedRow { index: 0 }));
    assert_eq!(decode_rows(b"C1,private,general\nC2,public\n"), Err(StoreError::Unparsable));
    assert_eq!(decode_rows(&[0xff, 0xfe, b',', b'a', b',', b'b', b'\n']), Err(StoreError::Unparsable));
}

#[test]
fn staging_copy_reads_back_the_same_rows() {
    let source_rows = vec![
        rec("C1", Visibility::Private, "general"),
        rec("C2", Visibility::Public, "with \"quotes\""),
        rec("C1", Visibility::Private, "general"),
    ];
    let source = encode_rows(&source_rows);
    let staged = stage(&source).unwrap();
    assert_eq!(decode_rows(&staged).unwrap(), decode_rows(&source).unwrap());
    assert_eq!(decode_rows(&staged).unwrap(), source_rows);
    assert_eq!(staged, source);
}

#[test]
fn staging_a_malformed_store_fails() {
    assert_eq!(stage(b"C1,nope,x\n"), Err(StoreError::MalformedRow { index: 0 }));
}

#[test]
fn listing_twice_duplicates_rows() {
    let page = vec![rec("C1", Visibility::Private, "general"), rec("C2", Visibility::Private, "random")];
    let mut store: Vec<u8> = Vec::new();
    store.extend(encode_rows(&page));
    store.extend(encode_rows(&page));
    let read = decode_rows(&store).unwrap();
    assert_eq!(read.len(), 4);
    assert_eq!(read[0], read[2]);
    assert_eq!(read[1], read[3]);
}
