use hpack_decoder::primitives::decode_int;
use hpack_decoder::{get_static, Decoder, DecoderError, Entry, Representation, Table};

fn hex(s: &str) -> Vec<u8> {
    let digits: Vec<u8> = s.bytes().filter(|b| !b.is_ascii_whitespace()).collect();
    assert!(digits.len() % 2 == 0);
    digits
        .chunks(2)
        .map(|p| u8::from_str_radix(std::str::from_utf8(p).unwrap(), 16).unwrap())
        .collect()
}

fn header(name: &str, value: &str) -> Entry {
    Entry::Header { name: name.as_bytes().to_vec(), value: value.as_bytes().to_vec() }
}

fn table_sum(t: &Table) -> usize {
    let mut sum = 0;
    let mut i = 62;
    while let Ok(e) = t.get(i) {
        sum += e.size().unwrap();
        i += 1;
    }
    sum
}

fn request_block_one() -> Vec<Entry> {
    vec![
        Entry::Method(b"GET".to_vec()),
        Entry::Scheme(b"http".to_vec()),
        Entry::Path(b"/".to_vec()),
        Entry::Authority(b"www.example.com".to_vec()),
    ]
}

#[test]
fn literal_with_indexing_custom_name() {
    let mut d = Decoder::new(4096);
    let out = d
        .decode(&hex("400a 6375 7374 6f6d 2d6b 6579 0d63 7573 746f 6d2d 6865 6164 6572"))
        .unwrap();
    assert_eq!(out, vec![header("custom-key", "custom-header")]);
    assert_eq!(d.table().size(), 55);
    assert_eq!(d.table().get(62).unwrap(), header("custom-key", "custom-header"));
    assert_eq!(d.table().get(63), Err(DecoderError::InvalidTableIndex));
}

#[test]
fn indexed_static() {
    let mut d = Decoder::new(4096);
    let out = d.decode(&hex("82")).unwrap();
    assert_eq!(out, vec![Entry::Method(b"GET".to_vec())]);
    assert_eq!(d.table().size(), 0);
    assert_eq!(d.table().get(62), Err(DecoderError::InvalidTableIndex));
}

#[test]
fn request_sequence_without_huffman() {
    let mut d = Decoder::new(4096);
    let out = d.decode(&hex("8286 8441 0f77 7777 2e65 7861 6d70 6c65 2e63 6f6d")).unwrap();
    assert_eq!(out, request_block_one());
    assert_eq!(d.table().size(), 57);

    let out = d.decode(&hex("8286 84be 5808 6e6f 2d63 6163 6865")).unwrap();
    let mut expected = request_block_one();
    expected.push(header("cache-control", "no-cache"));
    assert_eq!(out, expected);
    assert_eq!(d.table().size(), 110);
    assert_eq!(table_sum(d.table()), 110);
}

#[test]
fn request_sequence_with_huffman() {
    let mut d = Decoder::new(4096);
    let out = d.decode(&hex("8286 8441 8cf1 e3c2 e5f2 3a6b a0ab 90f4 ff")).unwrap();
    assert_eq!(out, request_block_one());
    assert_eq!(d.table().size(), 57);
    assert_eq!(d.table().get(62).unwrap(), Entry::Authority(b"www.example.com".to_vec()));
}

#[test]
fn response_sequence_with_eviction() {
    let mut d = Decoder::new(256);
    let out = d
        .decode(&hex(
            "4803 3330 3258 0770 7269 7661 7465 611d 4d6f 6e2c 2032 3120 4f63 7420 3230 3133
             2032 303a 3133 3a32 3120 474d 546e 1768 7474 7073 3a2f 2f77 7777 2e65 7861 6d70
             6c65 2e63 6f6d",
        ))
        .unwrap();
    assert_eq!(
        out,
        vec![
            Entry::Status(302),
            header("cache-control", "private"),
            header("date", "Mon, 21 Oct 2013 20:13:21 GMT"),
            header("location", "https://www.example.com"),
        ]
    );
    assert_eq!(d.table().size(), 222);

    let out = d.decode(&hex("4803 3330 37c1 c0bf")).unwrap();
    assert_eq!(
        out,
        vec![
            Entry::Status(307),
            header("cache-control", "private"),
            header("date", "Mon, 21 Oct 2013 20:13:21 GMT"),
            header("location", "https://www.example.com"),
        ]
    );
    assert_eq!(d.table().size(), 222);

    let out = d
        .decode(&hex(
            "88c1 611d 4d6f 6e2c 2032 3120 4f63 7420 3230 3133 2032 303a 3133 3a32 3220 474d
             54c0 5a04 677a 6970 7738 666f 6f3d 4153 444a 4b48 514b 425a 584f 5157 454f 5049
             5541 5851 5745 4f49 553b 206d 6178 2d61 6765 3d33 3630 303b 2076 6572 7369 6f6e
             3d31",
        ))
        .unwrap();
    assert_eq!(
        out,
        vec![
            Entry::Status(200),
            header("cache-control", "private"),
            header("date", "Mon, 21 Oct 2013 20:13:22 GMT"),
            header("location", "https://www.example.com"),
            header("content-encoding", "gzip"),
            header(
                "set-cookie",
                "foo=ASDJKHQKBZXOQWEOPIUAXQWEOIU; max-age=3600; version=1"
            ),
        ]
    );
    assert_eq!(d.table().size(), 215);
    assert_eq!(table_sum(d.table()), 215);
    assert_eq!(
        d.table().get(62).unwrap(),
        header("set-cookie", "foo=ASDJKHQKBZXOQWEOPIUAXQWEOIU; max-age=3600; version=1")
    );
    assert_eq!(d.table().get(63).unwrap(), header("content-encoding", "gzip"));
    assert_eq!(d.table().get(64).unwrap(), header("date", "Mon, 21 Oct 2013 20:13:22 GMT"));
    assert_eq!(d.table().get(65), Err(DecoderError::InvalidTableIndex));
}

#[test]
fn size_update_above_queued_bound_rejected() {
    let mut d = Decoder::new(4096);
    d.queue_size_update(100);
    assert_eq!(d.decode(&hex("3fe1 01")), Err(DecoderError::InvalidMaxDynamicSize));
}

#[test]
fn size_update_within_bound_applies() {
    let mut d = Decoder::new(4096);
    d.decode(&hex("400a 6375 7374 6f6d 2d6b 6579 0d63 7573 746f 6d2d 6865 6164 6572")).unwrap();
    d.queue_size_update(300);
    d.queue_size_update(100);
    // 0x3f 0x45: a size update to 100; 0x20: a second one, to 0.
    let out = d.decode(&hex("3f45 2082")).unwrap();
    assert_eq!(out, vec![Entry::Method(b"GET".to_vec())]);
    assert_eq!(d.table().max_size(), 0);
    assert_eq!(d.table().size(), 0);
    assert_eq!(d.table().get(62), Err(DecoderError::InvalidTableIndex));
    // The bound was taken: a further update needs a new one.
    assert_eq!(d.decode(&hex("20")), Err(DecoderError::InvalidMaxDynamicSize));
}

#[test]
fn queued_bound_keeps_the_minimum() {
    let mut d = Decoder::new(4096);
    d.queue_size_update(100);
    d.queue_size_update(300);
    // 0x3f 0xe1 0x01 asks for 256, over the smaller bound.
    assert_eq!(d.decode(&hex("3fe1 01")), Err(DecoderError::InvalidMaxDynamicSize));
}

#[test]
fn size_update_after_field_rejected() {
    let mut d = Decoder::new(4096);
    d.queue_size_update(100);
    assert_eq!(d.decode(&hex("8220")), Err(DecoderError::InvalidMaxDynamicSize));
}

#[test]
fn size_update_without_queued_bound_rejected() {
    let mut d = Decoder::new(4096);
    assert_eq!(d.decode(&hex("20")), Err(DecoderError::InvalidMaxDynamicSize));
}

#[test]
fn decoding_twice_from_equal_states_agrees() {
    let block = hex("8286 8441 0f77 7777 2e65 7861 6d70 6c65 2e63 6f6d");
    let mut a = Decoder::new(4096);
    let mut b = Decoder::new(4096);
    assert_eq!(a.decode(&block), b.decode(&block));
    assert_eq!(a.table().size(), b.table().size());
    assert_eq!(a.table().get(62), b.table().get(62));
}

#[test]
fn integer_round_trip_examples() {
    // RFC 7541 C.1: 10 with a 5-bit prefix, 1337 with a 5-bit prefix, 42 with 8 bits.
    assert_eq!(decode_int(&hex("0a"), 0, 5), Ok((10, 1)));
    assert_eq!(decode_int(&hex("1f9a 0a"), 0, 5), Ok((1337, 3)));
    assert_eq!(decode_int(&hex("2a"), 0, 8), Ok((42, 1)));
    // 2^28 - 1 with a 1-bit prefix: 1, then 2^28 - 2 in four octets.
    assert_eq!(decode_int(&hex("01fe ffff 7f"), 0, 1), Ok((268435455, 5)));
}

#[test]
fn integer_mask_then_zero() {
    for n in 1u8..=8 {
        let mask = if n == 8 { 0xff } else { (1u8 << n) - 1 };
        assert_eq!(decode_int(&[mask, 0], 0, n), Ok((mask as usize, 2)));
    }
}

#[test]
fn integer_five_and_six_octets() {
    assert_eq!(decode_int(&hex("1f80 8080 01"), 0, 5), Ok((31 + (1 << 21), 5)));
    assert_eq!(decode_int(&hex("1f80 8080 8001"), 0, 5), Err(DecoderError::IntegerOverflow));
}

#[test]
fn integer_errors() {
    assert_eq!(decode_int(&hex("01"), 0, 0), Err(DecoderError::InvalidIntegerPrefix));
    assert_eq!(decode_int(&hex("01"), 0, 9), Err(DecoderError::InvalidIntegerPrefix));
    assert_eq!(decode_int(&[], 0, 5), Err(DecoderError::IntegerUnderflow));
    assert_eq!(decode_int(&hex("1f80"), 0, 5), Err(DecoderError::IntegerUnderflow));
}

#[test]
fn static_table_entries() {
    assert_eq!(get_static(1), Entry::Authority(Vec::new()));
    assert_eq!(get_static(2), Entry::Method(b"GET".to_vec()));
    assert_eq!(get_static(3), Entry::Method(b"POST".to_vec()));
    assert_eq!(get_static(5), Entry::Path(b"/index.html".to_vec()));
    assert_eq!(get_static(7), Entry::Scheme(b"https".to_vec()));
    assert_eq!(get_static(14), Entry::Status(500));
    assert_eq!(get_static(15), header("accept-charset", ""));
    assert_eq!(get_static(16), header("accept-encoding", "gzip, deflate"));
    assert_eq!(get_static(24), header("cache-control", ""));
    assert_eq!(get_static(61), header("www-authenticate", ""));
    let t = Table::new(4096);
    assert_eq!(t.get(8), Ok(Entry::Status(200)));
    assert_eq!(t.get(46), Ok(header("location", "")));
}

#[test]
fn table_index_bounds() {
    let mut t = Table::new(4096);
    assert_eq!(t.get(0), Err(DecoderError::InvalidTableIndex));
    assert_eq!(t.get(62), Err(DecoderError::InvalidTableIndex));
    t.insert(header("a", "b"));
    assert_eq!(t.get(62), Ok(header("a", "b")));
    assert_eq!(t.get(63), Err(DecoderError::InvalidTableIndex));
}

#[test]
fn table_insert_evicts_oldest_in_order() {
    // Each entry is 1 + 1 + 32 = 34 octets; three fit in 110.
    let mut t = Table::new(110);
    t.insert(header("a", "1"));
    t.insert(header("b", "2"));
    t.insert(header("c", "3"));
    assert_eq!(t.size(), 102);
    t.insert(header("d", "4"));
    assert_eq!(t.size(), 102);
    assert!(t.size() <= t.max_size());
    assert_eq!(t.get(62), Ok(header("d", "4")));
    assert_eq!(t.get(63), Ok(header("c", "3")));
    assert_eq!(t.get(64), Ok(header("b", "2")));
    assert_eq!(t.get(65), Err(DecoderError::InvalidTableIndex));
    assert_eq!(table_sum(&t), t.size());
}

#[test]
fn table_set_max_size_zero_empties() {
    let mut t = Table::new(4096);
    t.insert(header("a", "1"));
    t.insert(header("b", "2"));
    t.set_max_size(0);
    assert_eq!(t.size(), 0);
    assert_eq!(t.max_size(), 0);
    assert_eq!(t.get(62), Err(DecoderError::InvalidTableIndex));
}

#[test]
fn table_set_max_size_keeps_newest() {
    let mut t = Table::new(4096);
    t.insert(header("a", "1"));
    t.insert(header("b", "2"));
    t.set_max_size(40);
    assert_eq!(t.size(), 34);
    assert_eq!(t.get(62), Ok(header("b", "2")));
    assert_eq!(t.get(63), Err(DecoderError::InvalidTableIndex));
}

#[test]
fn table_oversized_insert_clears() {
    let mut t = Table::new(40);
    t.insert(header("a", "1"));
    t.insert(header("long-name", "long-value"));
    assert_eq!(t.size(), 0);
    assert_eq!(t.get(62), Err(DecoderError::InvalidTableIndex));
}

#[test]
fn oversized_literal_is_still_emitted() {
    let mut d = Decoder::new(40);
    let out = d.decode(&hex("4001 6101 62 4009 6c6f 6e67 2d6e 616d 650a 6c6f 6e67 2d76 616c 7565")).unwrap();
    assert_eq!(out, vec![header("a", "b"), header("long-name", "long-value")]);
    assert_eq!(d.table().size(), 0);
}

#[test]
fn literal_without_and_never_indexed() {
    let mut d = Decoder::new(4096);
    // Without indexing, name index 4 (:path); never indexed, literal name.
    let out = d.decode(&hex("040c 2f73 616d 706c 652f 7061 7468 1008 7061 7373 776f 7264 0673 6563 7265 74")).unwrap();
    assert_eq!(out, vec![Entry::Path(b"/sample/path".to_vec()), header("password", "secret")]);
    assert_eq!(d.table().size(), 0);
}

#[test]
fn representation_kinds() {
    assert_eq!(Representation::load(0x82), Ok(Representation::Indexed));
    assert_eq!(Representation::load(0x40), Ok(Representation::LiteralWithIndexing));
    assert_eq!(Representation::load(0x0f), Ok(Representation::LiteralWithoutIndexing));
    assert_eq!(Representation::load(0x10), Ok(Representation::LiteralNeverIndexed));
    assert_eq!(Representation::load(0x3f), Ok(Representation::SizeUpdate));
}

#[test]
fn decoding_errors() {
    let mut d = Decoder::new(4096);
    // Index 70 names nothing.
    assert_eq!(d.decode(&hex("c6")), Err(DecoderError::InvalidTableIndex));
    // Index 0.
    assert_eq!(Decoder::new(4096).decode(&hex("80")), Err(DecoderError::InvalidTableIndex));
    // A Huffman-coded name whose padding is not the start of EOS.
    assert_eq!(Decoder::new(4096).decode(&hex("0081 0001 61")), Err(DecoderError::InvalidHuffmanCode));
    // :authority with a value that is not UTF-8.
    assert_eq!(Decoder::new(4096).decode(&hex("0101 ff")), Err(DecoderError::InvalidUtf8));
    // :status with a value that is no status code.
    assert_eq!(Decoder::new(4096).decode(&hex("0803 6162 63")), Err(DecoderError::InvalidStatusCode));
    // A literal name ":foo".
    assert_eq!(Decoder::new(4096).decode(&hex("0004 3a66 6f6f 0161")), Err(DecoderError::InvalidPseudoheader));
    // A literal name with nothing after the first byte.
    assert_eq!(Decoder::new(4096).decode(&hex("00")), Err(DecoderError::IntegerUnderflow));
    // An index that runs past the end.
    assert_eq!(Decoder::new(4096).decode(&hex("ff")), Err(DecoderError::IntegerUnderflow));
    // An index of six octets.
    assert_eq!(Decoder::new(4096).decode(&hex("ff80 8080 8001")), Err(DecoderError::IntegerOverflow));
    // A name of five octets of which one is there.
    assert_eq!(Decoder::new(4096).decode(&hex("0005 61")), Err(DecoderError::StringUnderflow));
}

#[test]
fn entry_from_literal_parts() {
    assert_eq!(Entry::new(b":method".to_vec(), b"PUT".to_vec()), Ok(Entry::Method(b"PUT".to_vec())));
    assert_eq!(Entry::new(b":status".to_vec(), b"404".to_vec()), Ok(Entry::Status(404)));
    assert_eq!(Entry::new(b":status".to_vec(), b"099".to_vec()), Err(DecoderError::InvalidStatusCode));
    assert_eq!(Entry::new(Vec::new(), b"x".to_vec()), Err(DecoderError::InvalidUtf8));
    assert_eq!(Entry::new(b"Custom-Key".to_vec(), b"v".to_vec()), Ok(header("custom-key", "v")));
    assert_eq!(Entry::new(b"bad name".to_vec(), b"v".to_vec()), Err(DecoderError::InvalidUtf8));
    assert_eq!(Entry::new(b"x-a".to_vec(), b"a\nb".to_vec()), Err(DecoderError::InvalidUtf8));
    assert_eq!(Entry::new(b"x-a".to_vec(), b"a\tb".to_vec()), Ok(header("x-a", "a\tb")));
    assert_eq!(Entry::new(b":method".to_vec(), b"G T".to_vec()), Err(DecoderError::InvalidUtf8));
    assert_eq!(Entry::new(b":method".to_vec(), Vec::new()), Err(DecoderError::InvalidUtf8));
    assert_eq!(header("ab", "cde").size(), Some(37));
    assert_eq!(Entry::Status(200).size(), Some(42));
    assert_eq!(Entry::Authority(b"x".to_vec()).size(), Some(43));
}

#[test]
fn default_capacity() {
    let d = Decoder::default();
    assert_eq!(d.table().max_size(), 4096);
}
