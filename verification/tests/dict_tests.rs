use xkpasswd::dict::decode_word;
use xkpasswd::dict::load_dict;

#[test]
fn test_load_dict_blank() {
    let dict = load_dict(&[]);
    assert!(dict.is_empty());

    let dict_bytes = "".as_bytes();
    let dict = load_dict(dict_bytes);
    assert!(dict.is_empty());
}

#[test]
fn test_load_dict_valid_data() {
    let table = [
        "2:an,do\n3:foo,bar",
        r#"
        2:an,do
        3:foo,bar
        "#,
    ];

    for dict_str in table {
        let dict_bytes = dict_str.as_bytes();
        let dict = load_dict(dict_bytes);

        assert_eq!(2, dict.len());
        assert_eq!(vec!["an", "do"], *dict.get(&2).unwrap());
        assert_eq!(vec!["foo", "bar"], *dict.get(&3).unwrap());
        assert!(dict.get(&4).is_none());
    }
}

#[test]
fn test_load_dict_invalid_data() {
    // Invalid format (non-numeric length) should be gracefully skipped
    let dict_bytes = "foo:bar,baz".as_bytes();
    let dict = load_dict(dict_bytes);
    assert!(dict.is_empty());
}

#[test]
fn test_load_dict_repeated_length_appends() {
    let dict = load_dict("3:foo\n3:bar,baz".as_bytes());
    assert_eq!(1, dict.len());
    assert_eq!(vec!["foo", "bar", "baz"], *dict.get(&3).unwrap());
}

#[test]
fn test_load_dict_mixed_lines() {
    // Bad lines drop silently without affecting their neighbours.
    let dict = load_dict("2:an\nnot a line\n999:way,too,long\n4:word".as_bytes());
    assert_eq!(2, dict.len());
    assert_eq!(vec!["an"], *dict.get(&2).unwrap());
    assert_eq!(vec!["word"], *dict.get(&4).unwrap());
    assert!(dict.get(&3).is_none());
}

#[test]
fn test_decode_word_roundtrip() {
    assert_eq!("word", decode_word("word".as_bytes()));
    assert_eq!("caf\u{e9}", decode_word("caf\u{e9}".as_bytes()));
}

#[test]
fn test_load_dict_non_ascii_words() {
    // Multi-byte UTF-8 words decode to their own characters.
    let dict = load_dict("4:caf\u{e9}s,w\u{f6}rter".as_bytes());
    assert_eq!(vec!["caf\u{e9}s", "w\u{f6}rter"], *dict.get(&4).unwrap());
}

#[test]
fn test_load_dict_keeps_file_order() {
    let dict = load_dict("5:zebra,apple\n5:mango".as_bytes());
    assert_eq!(vec!["zebra", "apple", "mango"], *dict.get(&5).unwrap());
}
