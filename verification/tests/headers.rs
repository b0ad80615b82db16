use hyper_serde::headers::{
    decode_headers, deserialize_headers, encode_headers, lines_capacity, serialize_headers, Line,
    MAX_RESERVED_LINES,
};
use hyper_serde::Ser;
use hyperx::header::{ContentType, Headers, RawLike};

fn raw(h: &Headers, name: &str) -> Option<Vec<Vec<u8>>> {
    h.get_raw(name).map(|r| r.iter().map(|l| l.to_vec()).collect())
}

fn sample() -> Headers {
    let mut h = Headers::new();
    h.set_raw("X-Text", vec![b"hello".to_vec(), b"world".to_vec()]);
    h.set_raw("X-Bin", vec![vec![0xff, 0xfe]]);
    h.set_raw("X-Empty", Vec::<Vec<u8>>::new());
    h
}

#[test]
fn plain_writes_bytes() {
    let out = encode_headers(&sample(), false);
    assert_eq!(out.len(), 3);
    assert_eq!(out[0].0, "X-Text");
    match &out[0].1[..] {
        [Line::Bytes(a), Line::Bytes(b)] => {
            assert_eq!(a, b"hello");
            assert_eq!(b, b"world");
        }
        _ => panic!("expected two byte lines"),
    }
    assert_eq!(out[1].0, "X-Bin");
    match &out[1].1[..] {
        [Line::Bytes(a)] => assert_eq!(a, &vec![0xffu8, 0xfe]),
        _ => panic!("expected one byte line"),
    }
    assert_eq!(out[2].0, "X-Empty");
    assert!(out[2].1.is_empty());
}

#[test]
fn pretty_writes_utf8_as_text() {
    let h = sample();
    let out = serialize_headers(&Ser::new_pretty(&h));
    match &out[0].1[..] {
        [Line::Text(a), Line::Text(b)] => {
            assert_eq!(a, "hello");
            assert_eq!(b, "world");
        }
        _ => panic!("expected two text lines"),
    }
    match &out[1].1[..] {
        [Line::Bytes(a)] => assert_eq!(a, &vec![0xffu8, 0xfe]),
        _ => panic!("non-UTF-8 stays bytes"),
    }
}

#[test]
fn typed_header_is_written_by_its_lines() {
    let mut h = Headers::new();
    h.set(ContentType::json());
    let out = encode_headers(&h, true);
    assert_eq!(out.len(), 1);
    assert_eq!(out[0].0, "Content-Type");
    match &out[0].1[..] {
        [Line::Text(t)] => assert_eq!(t, "application/json"),
        _ => panic!("expected one text line"),
    }
}

#[test]
fn later_entry_of_a_name_wins() {
    let h = decode_headers(vec![
        ("x-a".to_string(), vec![b"1".to_vec()]),
        ("X-B".to_string(), vec![b"2".to_vec()]),
        ("X-A".to_string(), vec![b"3".to_vec(), b"4".to_vec()]),
    ]);
    assert_eq!(h.len(), 2);
    assert_eq!(raw(&h, "x-a"), Some(vec![b"3".to_vec(), b"4".to_vec()]));
    assert_eq!(raw(&h, "x-b"), Some(vec![b"2".to_vec()]));
    let names: Vec<String> = h.iter().map(|v| v.name().to_string()).collect();
    assert_eq!(names, vec!["X-A".to_string(), "X-B".to_string()]);
}

#[test]
fn no_entries_give_empty_map() {
    let h = deserialize_headers(Vec::new()).into_inner();
    assert_eq!(h.len(), 0);
}

fn read_back(out: Vec<(String, Vec<Line>)>) -> Vec<(String, Vec<Vec<u8>>)> {
    out.into_iter()
        .map(|(name, lines)| {
            let lines = lines
                .into_iter()
                .map(|l| match l {
                    Line::Text(t) => t.into_bytes(),
                    Line::Bytes(b) => b,
                })
                .collect();
            (name, lines)
        })
        .collect()
}

#[test]
fn headers_round_trip() {
    for pretty in [false, true] {
        let h = sample();
        let back = decode_headers(read_back(encode_headers(&h, pretty)));
        assert!(back == h);
        assert_eq!(raw(&back, "X-Bin"), Some(vec![vec![0xffu8, 0xfe]]));
        let names: Vec<String> = back.iter().map(|v| v.name().to_string()).collect();
        assert_eq!(names, vec!["X-Text", "X-Bin", "X-Empty"]);
    }
}

#[test]
fn pretty_and_plain_stand_for_same_bytes() {
    let h = sample();
    assert_eq!(
        read_back(encode_headers(&h, true)),
        read_back(encode_headers(&h, false))
    );
}

#[test]
fn capacity_is_clamped() {
    assert_eq!(lines_capacity(None), 0);
    assert_eq!(lines_capacity(Some(3)), 3);
    assert_eq!(lines_capacity(Some(64)), 64);
    assert_eq!(lines_capacity(Some(1_000_000)), MAX_RESERVED_LINES);
    assert_eq!(MAX_RESERVED_LINES, 64);
}
