use async_await_future::kv_store::{aof_line, parse_aof_line, Db};

#[test]
fn parse_lines() {
    assert_eq!(
        parse_aof_line("hello:world"),
        Some(("hello".to_string(), "world".to_string()))
    );
    assert_eq!(
        parse_aof_line("url:http://x"),
        Some(("url".to_string(), "http://x".to_string()))
    );
    assert_eq!(parse_aof_line(":v"), Some(("".to_string(), "v".to_string())));
    assert_eq!(parse_aof_line("k:"), Some(("k".to_string(), "".to_string())));
    assert_eq!(parse_aof_line("no separator"), None);
    assert_eq!(parse_aof_line(""), None);
}

#[test]
fn aof_line_round_trips() {
    let line = aof_line("hello", "world");
    assert_eq!(line, "hello:world\n");
    assert_eq!(
        parse_aof_line(line.trim_end()),
        Some(("hello".to_string(), "world".to_string()))
    );
}

#[test]
fn db_set_get_and_replay() {
    let mut db = Db::new();
    assert_eq!(db.get(&"hello".to_string()), None);
    db.set("hello".to_string(), b"world".to_vec());
    db.set("hello".to_string(), b"again".to_vec());
    assert_eq!(db.get(&"hello".to_string()), Some(&b"again".to_vec()));
    db.load_line("café:naïve");
    assert_eq!(db.get(&"café".to_string()), Some(&"naïve".as_bytes().to_vec()));
    db.load_line("garbage");
    assert_eq!(db.get(&"garbage".to_string()), None);
}
