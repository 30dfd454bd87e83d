use codeg::digest::to_hex;
use codeg::ids::IdSet;
use codeg::json::Json;
use codeg::paths;
use codeg::table::Table;
use codeg::text;

#[test]
fn json_is_read_and_written() {
    let v = Json::parse(r#"{"b":[1,-2,2.50,true,null,"x\n"],"a":{}}"#).unwrap();
    assert_eq!(v.write(), r#"{"a":{},"b":[1,-2,2.5,true,null,"x\n"]}"#);
    assert_eq!(Json::parse(&v.write()).unwrap(), v);
    assert!(Json::parse("{").is_none());
    let items = v.at("b").as_array().unwrap();
    assert_eq!(items[0].as_u64(), Some(1));
    assert_eq!(items[1].as_i64(), Some(-2));
    assert_eq!(items[1].as_u64(), None);
    assert_eq!(items[2].as_u64(), None);
    assert_eq!(items[3].as_bool(), Some(true));
    assert!(items[4].is_null());
    assert!(v.at("missing").at("too").is_null());
}

#[test]
fn objects_keep_one_value_for_a_key() {
    let v = Json::empty_object().with("k", Json::of_u64(1)).with("k", Json::of_i64(-5));
    assert_eq!(v.write(), r#"{"k":-5}"#);
    assert_eq!(v.copy(), v);
    assert_eq!(Json::of_i64(i64::MIN).write(), i64::MIN.to_string());
    assert_eq!(Json::of_u64(u64::MAX).write(), u64::MAX.to_string());
}

#[test]
fn keys_are_looked_up_in_objects_alone() {
    let v = Json::parse(r#"{"s":"","t":"x"}"#).unwrap();
    assert_eq!(v.str_at("s"), Some(""));
    assert_eq!(v.filled("s"), None);
    assert_eq!(v.filled("t"), Some("x"));
    assert!(v.is("t", "x"));
    assert!(Json::of_str("t").get("t").is_none());
}

#[test]
fn texts_are_trimmed_and_cut() {
    assert_eq!(text::trimmed("\u{3000} a b\t\n"), "a b");
    assert_eq!(text::split_lines("a\r\nb\n\nc"), vec!["a", "b", "", "c"]);
    assert_eq!(text::split_words(" a  b\tc "), vec!["a", "b", "c"]);
    assert_eq!(text::split_on("a,,b", ','), vec!["a", "", "b"]);
    assert_eq!(text::split_once("a=b=c", "="), Some(("a".into(), "b=c".into())));
    assert_eq!(text::replaced_first("xaxa", "a", "b"), "xbxa");
    assert_eq!(text::strip_prefix("file://a", "file://").as_deref(), Some("a"));
    assert_eq!(text::strip_suffix("a.rs", ".rs").as_deref(), Some("a"));
    assert_eq!(text::to_lower("AbÇ"), "abÇ");
    assert!(text::has("abc", "bc") && !text::has("abc", "cb"));
}

#[test]
fn bytes_are_counted_in_utf8() {
    for s in ["a", "é", "字", "😀", "aé字😀"] {
        assert_eq!(text::byte_len(s), s.len());
    }
    assert_eq!(text::truncate("字字", 4), "字…");
    assert_eq!(text::truncate("abc", 3), "abc");
}

#[test]
fn numbers_are_read_and_written_in_decimal() {
    for n in [0, 7, 10, 255, u64::MAX] {
        assert_eq!(text::dec_u64(n), n.to_string());
        assert_eq!(text::parse_u64(&n.to_string()), Some(n));
    }
    assert_eq!(text::parse_u64("+7"), Some(7));
    assert_eq!(text::parse_u64(""), None);
    assert_eq!(text::parse_u64("+"), None);
    assert_eq!(text::parse_u64("18446744073709551616"), None);
    assert_eq!(text::parse_u64("1 "), None);
}

#[test]
fn paths_are_compared_by_their_parts() {
    for (path, base) in [("/w/src/a.rs", "/w"), ("/w//src/./a.rs", "/w/"), ("/w", "/w"), ("/wx/a", "/w")] {
        let real = std::path::Path::new(path)
            .strip_prefix(base)
            .ok()
            .map(|p| p.display().to_string());
        assert_eq!(paths::relative_to(path, base), real, "{path} in {base}");
    }
    for (base, child) in [("/w", "a"), ("/w/", "a/b"), ("/w", "/abs"), ("", "a")] {
        let real = std::path::Path::new(base).join(child).display().to_string();
        assert_eq!(paths::join(base, child), real);
    }
    for path in ["/a/b.txt", "/a/", "/", "..", "a"] {
        let real =
            std::path::Path::new(path).file_name().map(|n| n.to_str().unwrap().to_string());
        assert_eq!(paths::name_of(path), real, "{path}");
    }
    assert!(paths::is_same("/a//b/", "/a/b"));
    assert!(!paths::is_same("/a/b", "a/b"));
    assert!(paths::is_absolute("/a") && !paths::is_absolute("a"));
}

#[test]
fn digests_are_written_in_hex() {
    assert_eq!(to_hex(&vec![0, 15, 255], 3), "000fff");
    assert_eq!(to_hex(&vec![1, 2, 3], 2), "0102");
}

#[test]
fn ids_are_kept_once() {
    let mut ids = IdSet::new();
    assert!(ids.is_empty());
    assert!(ids.insert("a"));
    assert!(!ids.insert("a"));
    assert!(ids.contains("a"));
    assert!(ids.remove("a"));
    assert!(!ids.remove("a"));
    assert_eq!(IdSet::of(vec!["b".into(), "c".into()]).to_vec(), vec!["b", "c"]);
}

#[test]
fn a_table_holds_the_last_value() {
    let mut table: Table<u64> = Table::new();
    table.insert("a".into(), 1);
    table.insert("b".into(), 2);
    table.insert("a".into(), 3);
    assert_eq!(table.get("a"), Some(&3));
    assert_eq!(table.keys().len(), 2);
    assert_eq!(table.remove("a"), Some(3));
    assert_eq!(table.remove("a"), None);
    assert_eq!(table.get("b"), Some(&2));
}
