use rusty_h2::error::{ErrorCode, H2Error};
use rusty_h2::hpack::dynamic_table::{entry_size, DynamicTable};
use rusty_h2::hpack::huffman::{decode, encode, encoded_len_bits};
use rusty_h2::hpack::primitive::{decode_integer, decode_string, encode_integer, encode_string};
use rusty_h2::hpack::static_table::{find, get, STATIC_TABLE_LEN};
use rusty_h2::hpack::{Decoder, Encoder, HeaderField, DEFAULT_HEADER_TABLE_SIZE};

fn hex(s: &str) -> Vec<u8> {
    (0..s.len()).step_by(2).map(|i| u8::from_str_radix(&s[i..i + 2], 16).unwrap()).collect()
}

// ---- primitives ----

#[test]
fn rfc7541_c1_1_small_value_fits_in_prefix() {
    let mut out = Vec::new();
    encode_integer(&mut out, 5, 0x00, 10);
    assert_eq!(out, vec![0x0a]);
    assert_eq!(decode_integer(&out, 5).unwrap(), (10, 1));
}

#[test]
fn rfc7541_c1_2_value_needs_continuation() {
    let mut out = Vec::new();
    encode_integer(&mut out, 5, 0x00, 1337);
    assert_eq!(out, vec![0x1f, 0x9a, 0x0a]);
    assert_eq!(decode_integer(&out, 5).unwrap(), (1337, 3));
}

#[test]
fn rfc7541_c1_3_zero_prefix() {
    let mut out = Vec::new();
    encode_integer(&mut out, 8, 0x00, 42);
    assert_eq!(out, vec![0x2a]);
    assert_eq!(decode_integer(&out, 8).unwrap(), (42, 1));
}

#[test]
fn string_roundtrip_huffman_and_raw() {
    for s in [b"".as_slice(), b"a", b"www.example.com", b"\x01\x02\x03"] {
        let mut out = Vec::new();
        encode_string(&mut out, s);
        let (decoded, consumed) = decode_string(&out).unwrap();
        assert_eq!(decoded, s);
        assert_eq!(consumed, out.len());
    }
}

#[test]
fn overflow_continuation_rejected() {
    let buf = [0xffu8, 0xff, 0xff, 0xff, 0xff, 0xff, 0xff, 0xff, 0xff, 0xff, 0xff, 0x01];
    assert!(decode_integer(&buf, 8).is_err());
}

#[test]
fn incomplete_integer() {
    let buf = [0xffu8];
    assert_eq!(decode_integer(&buf, 8), Err(H2Error::Incomplete));
}

#[test]
fn integer_errors_exact() {
    let buf = [0xffu8, 0x80, 0x80, 0x80, 0x80, 0x80, 0x80, 0x80, 0x80, 0x80, 0x80, 0x00];
    assert_eq!(
        decode_integer(&buf, 8),
        Err(H2Error::Connection(ErrorCode::CompressionError, "HPACK integer continuation too long"))
    );
    let buf = [0xffu8, 0xff, 0xff, 0xff, 0xff, 0xff, 0xff, 0xff, 0xff, 0xff, 0x7f];
    assert_eq!(
        decode_integer(&buf, 8),
        Err(H2Error::Connection(ErrorCode::CompressionError, "HPACK integer overflow"))
    );
}

#[test]
fn integer_roundtrip_every_prefix() {
    let values = [0u64, 1, 2, 6, 7, 14, 15, 30, 31, 62, 63, 126, 127, 128, 254, 255, 256, 1337, 65535, 1 << 40, u64::MAX];
    for prefix in 1..=8u8 {
        for &v in values.iter() {
            let mut out = vec![0xaa];
            encode_integer(&mut out, prefix, 0, v);
            let (decoded, consumed) = decode_integer(&out[1..], prefix).unwrap();
            assert_eq!(decoded, v);
            assert_eq!(consumed, out.len() - 1);
        }
    }
}

#[test]
fn integer_prefix_pattern_kept() {
    let mut out = Vec::new();
    encode_integer(&mut out, 7, 0x80, 62);
    assert_eq!(out, vec![0xbe]);
    let mut out = Vec::new();
    encode_integer(&mut out, 4, 0x10, 23);
    assert_eq!(out, vec![0x1f, 0x08]);
}

#[test]
fn string_encoding_exact_bytes() {
    let mut out = Vec::new();
    encode_string(&mut out, b"custom-key");
    assert_eq!(out, hex("8825a849e95ba97d7f"));
    let mut out = Vec::new();
    encode_string(&mut out, b"\x01\x02\x03");
    assert_eq!(out, vec![0x03, 1, 2, 3]);
    assert_eq!(decode_string(&[0x05, b'a']), Err(H2Error::Incomplete));
}

// ---- Huffman ----

#[test]
fn rfc7541_c4_1_examples() {
    let raw = "www.example.com".as_bytes();
    let encoded = encode(raw);
    assert_eq!(encoded, hex("f1e3c2e5f23a6ba0ab90f4ff"));
    assert_eq!(decode(&encoded).unwrap(), raw);
}

#[test]
fn roundtrip_all_bytes() {
    let raw: Vec<u8> = (0..=255).collect();
    let encoded = encode(&raw);
    let decoded = decode(&encoded).unwrap();
    assert_eq!(decoded, raw);
}

#[test]
fn empty_roundtrip() {
    assert_eq!(encode(&[]), Vec::<u8>::new());
    assert_eq!(decode(&[]).unwrap(), Vec::<u8>::new());
}

#[test]
fn explicit_eos_is_rejected() {
    let mut bits: u64 = (1u64 << 30) - 1;
    bits <<= 2;
    bits |= 0b11;
    let bytes = bits.to_be_bytes();
    assert!(decode(&bytes[4..]).is_err());
}

#[test]
fn overlong_padding_is_rejected() {
    assert!(decode(&[0xff]).is_err() || decode(&[0xff, 0xff]).is_err());
}

#[test]
fn huffman_lengths_exact() {
    assert_eq!(encoded_len_bits(b"www.example.com"), 89);
    assert_eq!(encoded_len_bits(b"no-cache"), 43);
    assert_eq!(encoded_len_bits(b"\x00"), 13);
    assert_eq!(encode(b"a"), vec![0x1f]);
    assert_eq!(encode(b"no-cache"), hex("a8eb10649cbf"));
}

#[test]
fn huffman_roundtrip_assorted() {
    let samples: [&[u8]; 5] = [b"custom-value", b"\xff\xfe\x00\x10", b"Bearer secret-token", b"zzzzzzzz", b"/index.html"];
    for s in samples {
        assert_eq!(decode(&encode(s)).unwrap(), s);
    }
}

#[test]
fn huffman_error_exact() {
    assert_eq!(
        decode(&[0xff, 0xff, 0xff, 0xff]),
        Err(H2Error::Connection(ErrorCode::CompressionError, "invalid Huffman-encoded string"))
    );
}

// ---- static table ----

#[test]
fn indices_are_one_based() {
    assert_eq!(get(1), Some((":authority", "")));
    assert_eq!(get(61), Some(("www-authenticate", "")));
    assert_eq!(get(62), None);
    assert_eq!(get(0), None);
}

#[test]
fn find_exact_match() {
    assert_eq!(find(b":method", b"GET"), Some((2, true)));
    assert_eq!(find(b":method", b"PATCH"), Some((2, false)));
    assert_eq!(find(b"x-not-here", b""), None);
}

#[test]
fn static_table_lookups() {
    assert_eq!(STATIC_TABLE_LEN, 61);
    assert_eq!(get(2), Some((":method", "GET")));
    assert_eq!(get(8), Some((":status", "200")));
    assert_eq!(find(b":status", b"404"), Some((13, true)));
    assert_eq!(find(b"authorization", b"secret"), Some((23, false)));
}

// ---- dynamic table ----

#[test]
fn insert_and_lookup() {
    let mut t = DynamicTable::new(4096);
    t.insert(b"custom-key".to_vec(), b"custom-value".to_vec());
    assert_eq!(t.len(), 1);
    assert_eq!(t.get(1), Some((b"custom-key".as_slice(), b"custom-value".as_slice())));
    assert_eq!(t.size(), entry_size(b"custom-key", b"custom-value"));
}

#[test]
fn most_recent_entry_is_index_one() {
    let mut t = DynamicTable::new(4096);
    t.insert(b"a".to_vec(), b"1".to_vec());
    t.insert(b"b".to_vec(), b"2".to_vec());
    assert_eq!(t.get(1), Some((b"b".as_slice(), b"2".as_slice())));
    assert_eq!(t.get(2), Some((b"a".as_slice(), b"1".as_slice())));
}

#[test]
fn eviction_on_overflow() {
    let mut t = DynamicTable::new(entry_size(b"a", b"1"));
    t.insert(b"a".to_vec(), b"1".to_vec());
    t.insert(b"b".to_vec(), b"2".to_vec());
    assert_eq!(t.len(), 1);
    assert_eq!(t.get(1), Some((b"b".as_slice(), b"2".as_slice())));
}

#[test]
fn entry_larger_than_max_empties_table() {
    let mut t = DynamicTable::new(50);
    t.insert(b"a".to_vec(), b"1".to_vec());
    assert_eq!(t.len(), 1);
    t.insert(vec![0u8; 100], vec![]);
    assert_eq!(t.len(), 0);
    assert_eq!(t.size(), 0);
}

#[test]
fn shrinking_max_size_evicts() {
    let mut t = DynamicTable::new(4096);
    t.insert(b"a".to_vec(), b"1".to_vec());
    t.insert(b"b".to_vec(), b"2".to_vec());
    t.set_max_size(0);
    assert_eq!(t.len(), 0);
}

#[test]
fn entry_size_exact() {
    assert_eq!(entry_size(b"custom-key", b"custom-value"), 54);
    assert_eq!(entry_size(b"", b""), 32);
}

#[test]
fn table_never_exceeds_max_and_keeps_newest() {
    let mut t = DynamicTable::new(100);
    for i in 0..20u8 {
        t.insert(vec![b'k', i], vec![b'v'; i as usize]);
        assert!(t.size() <= t.max_size());
        assert_eq!(t.get(1), Some((vec![b'k', i].as_slice(), vec![b'v'; i as usize].as_slice())));
        for j in 2..=t.len() {
            let older = i + 1 - j as u8;
            assert_eq!(t.get(j), Some((vec![b'k', older].as_slice(), vec![b'v'; older as usize].as_slice())));
        }
    }
    assert_eq!(t.get(0), None);
    assert_eq!(t.get(t.len() + 1), None);
}

#[test]
fn dynamic_table_find_and_state() {
    let mut t = DynamicTable::new(4096);
    assert!(t.is_empty());
    t.insert(b"x".to_vec(), b"1".to_vec());
    t.insert(b"x".to_vec(), b"2".to_vec());
    assert_eq!(t.find(b"x", b"1"), Some((2, true)));
    assert_eq!(t.find(b"x", b"3"), Some((1, false)));
    assert_eq!(t.find(b"y", b"1"), None);
    assert!(!t.is_empty());
    assert_eq!(t.max_size(), 4096);
}

// ---- decoder ----

#[test]
fn rejects_index_zero() {
    let mut dec = Decoder::default();
    assert!(dec.decode(&[0x80]).is_err());
}

#[test]
fn rejects_out_of_range_index() {
    let mut dec = Decoder::default();
    assert!(dec.decode(&[0xff, 0x7f]).is_err());
}

#[test]
fn rejects_oversized_dynamic_table_size_update() {
    let mut dec = Decoder::new(100);
    let mut out = Vec::new();
    encode_integer(&mut out, 5, 0x20, 200);
    assert!(dec.decode(&out).is_err());
}

#[test]
fn literal_without_indexing_does_not_grow_table() {
    let mut dec = Decoder::default();
    let mut block = vec![0x00];
    encode_string(&mut block, b"x-custom");
    encode_string(&mut block, b"val");
    let decoded = dec.decode(&block).unwrap();
    assert_eq!(decoded, vec![HeaderField::new("x-custom", "val")]);
    assert_eq!(dec.dynamic_table_len(), 0);
}

#[test]
fn decoder_errors_exact() {
    let mut dec = Decoder::default();
    assert_eq!(
        dec.decode(&[0x80]),
        Err(H2Error::Connection(
            ErrorCode::CompressionError,
            "HPACK index 0 is not a valid header field reference"
        ))
    );
    assert_eq!(
        dec.decode(&[0xff, 0x7f]),
        Err(H2Error::Connection(ErrorCode::CompressionError, "HPACK index out of range"))
    );
    let mut small = Decoder::new(100);
    assert_eq!(
        small.decode(&[0x3f, 0xa9, 0x01]),
        Err(H2Error::Connection(
            ErrorCode::CompressionError,
            "Dynamic Table Size Update exceeds advertised SETTINGS_HEADER_TABLE_SIZE"
        ))
    );
    assert_eq!(dec.decode(&[0x40, 0x05, b'a']), Err(H2Error::Incomplete));
}

#[test]
fn never_indexed_literal_is_sensitive_and_not_stored() {
    let mut dec = Decoder::default();
    let mut block = vec![0x10];
    encode_string(&mut block, b"x-secret");
    encode_string(&mut block, b"v");
    let decoded = dec.decode(&block).unwrap();
    assert_eq!(decoded, vec![HeaderField::sensitive("x-secret", "v")]);
    assert_eq!(dec.dynamic_table_len(), 0);
}

#[test]
fn decoder_size_update_and_limit() {
    let mut dec = Decoder::default();
    dec.decode(&[0x40, 0x01, b'a', 0x01, b'b']).unwrap();
    assert_eq!(dec.dynamic_table_len(), 1);
    assert_eq!(dec.dynamic_table_size(), 34);
    let decoded = dec.decode(&[0x20]).unwrap();
    assert!(decoded.is_empty());
    assert_eq!(dec.dynamic_table_len(), 0);
    dec.set_max_size_limit(10);
    let mut out = Vec::new();
    encode_integer(&mut out, 5, 0x20, 11);
    assert!(dec.decode(&out).is_err());
}

// ---- encoder ----

#[test]
fn roundtrip_with_decoder() {
    let mut enc = Encoder::default();
    let mut dec = Decoder::default();
    let headers = vec![
        HeaderField::new(":method", "GET"),
        HeaderField::new(":path", "/"),
        HeaderField::new("custom-key", "custom-value"),
    ];
    let mut block = Vec::new();
    enc.encode(&headers, &mut block);
    let decoded = dec.decode(&block).unwrap();
    assert_eq!(decoded, headers);
}

#[test]
fn repeated_header_uses_dynamic_table_indexed_representation() {
    let mut enc = Encoder::default();
    let headers = vec![HeaderField::new("custom-key", "custom-value")];
    let mut first = Vec::new();
    enc.encode(&headers, &mut first);
    let mut second = Vec::new();
    enc.encode(&headers, &mut second);
    assert_eq!(second.len(), 1);
    assert_eq!(second[0] & 0x80, 0x80);
}

#[test]
fn sensitive_header_never_indexed_and_not_stored() {
    let mut enc = Encoder::default();
    let mut dec = Decoder::default();
    let headers = vec![HeaderField::sensitive("authorization", "secret")];
    let mut block = Vec::new();
    enc.encode(&headers, &mut block);
    assert_eq!(block[0] & 0xf0, 0x10);
    let decoded = dec.decode(&block).unwrap();
    assert_eq!(decoded, headers);
    assert!(decoded[0].sensitive);
}

#[test]
fn dynamic_table_size_update_is_emitted_once() {
    let mut enc = Encoder::default();
    enc.set_max_dynamic_table_size(0);
    let mut out = Vec::new();
    enc.encode(&[HeaderField::new("a", "b")], &mut out);
    assert_eq!(out[0] & 0xe0, 0x20);
    let mut out2 = Vec::new();
    enc.encode(&[HeaderField::new("a", "b")], &mut out2);
    assert_ne!(out2[0] & 0xe0, 0x20);
    assert_eq!(out2[0] & 0xc0, 0x40);
}

#[test]
fn repeated_header_is_first_dynamic_index() {
    let mut enc = Encoder::new(DEFAULT_HEADER_TABLE_SIZE);
    let headers = vec![HeaderField::new("custom-key", "custom-value")];
    let mut first = Vec::new();
    enc.encode(&headers, &mut first);
    assert_eq!(first, hex("408825a849e95ba97d7f8925a849e95bb8e8b4bf"));
    let mut second = Vec::new();
    enc.encode(&headers, &mut second);
    assert_eq!(second, vec![0x80 | 62]);
}

#[test]
fn sensitive_header_stays_literal_when_repeated() {
    let mut enc = Encoder::default();
    let mut dec = Decoder::default();
    let headers = vec![HeaderField::sensitive("authorization", "secret")];
    for _ in 0..2 {
        let mut block = Vec::new();
        enc.encode(&headers, &mut block);
        assert_eq!(&block[..2], &[0x1f, 0x08]);
        assert_eq!(dec.decode(&block).unwrap(), headers);
        assert_eq!(dec.dynamic_table_len(), 0);
    }
}

#[test]
fn static_exact_match_is_single_index() {
    let mut enc = Encoder::default();
    let mut out = Vec::new();
    enc.encode(&[HeaderField::new(":method", "GET"), HeaderField::new(":path", "/")], &mut out);
    assert_eq!(out, vec![0x82, 0x84]);
}

#[test]
fn encoder_decoder_tables_stay_in_step() {
    let mut enc = Encoder::new(120);
    let mut dec = Decoder::new(120);
    let lists = [
        vec![HeaderField::new("x-a", "1111111111"), HeaderField::new("x-b", "2")],
        vec![HeaderField::new("x-c", "3"), HeaderField::new("x-a", "1111111111")],
        vec![HeaderField::new("x-d", "a value long enough to evict everything else here"), HeaderField::sensitive("cookie", "c")],
    ];
    for headers in lists.iter() {
        let mut block = Vec::new();
        enc.encode(headers, &mut block);
        assert_eq!(&dec.decode(&block).unwrap(), headers);
        assert!(dec.dynamic_table_size() <= 120);
    }
    enc.set_max_dynamic_table_size(40);
    let headers = vec![HeaderField::new("x-e", "5")];
    let mut block = Vec::new();
    enc.encode(&headers, &mut block);
    assert_eq!(block[0] & 0xe0, 0x20);
    assert_eq!(dec.decode(&block).unwrap(), headers);
    assert_eq!(dec.dynamic_table_len(), 1);
    assert_eq!(dec.dynamic_table_size(), 36);
}

#[test]
fn sensitive_header_with_exact_static_match_stays_literal() {
    let mut enc = Encoder::default();
    let mut dec = Decoder::default();
    let headers = vec![HeaderField::sensitive(":authority", "")];
    let mut block = Vec::new();
    enc.encode(&headers, &mut block);
    assert_eq!(block, vec![0x11, 0x00]);
    let decoded = dec.decode(&block).unwrap();
    assert_eq!(decoded, headers);
    assert!(decoded[0].sensitive);
    let headers = vec![HeaderField::sensitive(":method", "GET")];
    let mut block = Vec::new();
    enc.encode(&headers, &mut block);
    assert_eq!(block[0] & 0xf0, 0x10);
    assert_eq!(dec.decode(&block).unwrap(), headers);
    assert_eq!(dec.dynamic_table_len(), 0);
}

#[test]
fn every_proper_prefix_of_an_integer_is_incomplete() {
    let mut out = Vec::new();
    encode_integer(&mut out, 5, 0x20, 1_000_000);
    for k in 0..out.len() {
        assert_eq!(decode_integer(&out[..k], 5), Err(H2Error::Incomplete));
    }
    assert_eq!(decode_integer(&out, 5), Ok((1_000_000, out.len())));
}

#[test]
fn every_proper_prefix_of_a_string_is_incomplete() {
    for s in [b"www.example.com".as_slice(), b"\x01\x02\x03", b""] {
        let mut out = Vec::new();
        encode_string(&mut out, s);
        for k in 0..out.len() {
            assert_eq!(decode_string(&out[..k]), Err(H2Error::Incomplete));
        }
    }
}

#[test]
fn string_literal_takes_the_shorter_form() {
    let s = b"www.example.com";
    let huff = (encoded_len_bits(s) + 7) / 8;
    assert_eq!(huff, 12);
    let mut out = Vec::new();
    encode_string(&mut out, s);
    assert_eq!(out[0], 0x80 | 12);
    assert_eq!(out.len(), 1 + 12);
    let raw = b"\xfe\xfe";
    let mut out = Vec::new();
    encode_string(&mut out, raw);
    assert!((encoded_len_bits(raw) + 7) / 8 >= raw.len());
    assert_eq!(out, vec![0x02, 0xfe, 0xfe]);
}

#[test]
fn huffman_padding_is_ones() {
    // "a" is the 5-bit code 00011; three one-bits pad it to an octet.
    assert_eq!(encoded_len_bits(b"a"), 5);
    assert_eq!(encode(b"a"), vec![0b0001_1111]);
    // "no-cache" takes 43 bits: six octets, five bits of padding.
    let e = encode(b"no-cache");
    assert_eq!(e.len(), 6);
    assert_eq!(e[5] & 0x1f, 0x1f);
}

#[test]
fn decoder_table_stays_within_its_limit() {
    let mut dec = Decoder::new(200);
    for i in 0..10u8 {
        let mut block = vec![0x40];
        encode_string(&mut block, &[b'n', i]);
        encode_string(&mut block, &[b'v'; 40]);
        dec.decode(&block).unwrap();
        assert!(dec.dynamic_table_size() <= 200);
    }
    let before = dec.dynamic_table_len();
    dec.set_max_size_limit(500);
    assert_eq!(dec.dynamic_table_len(), before);
    dec.set_max_size_limit(80);
    assert!(dec.dynamic_table_size() <= 80);
    assert_eq!(dec.dynamic_table_len(), 1);
    let mut over = Vec::new();
    encode_integer(&mut over, 5, 0x20, 81);
    assert!(dec.decode(&over).is_err());
    let mut ok = Vec::new();
    encode_integer(&mut ok, 5, 0x20, 80);
    assert_eq!(dec.decode(&ok), Ok(vec![]));
}
