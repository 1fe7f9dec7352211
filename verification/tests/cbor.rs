use ciborium::value::Value;
use wallet_mdoc::cbor::{
    push_array_head, push_boolean, push_bytes, push_encoded_item, push_head, push_integer, push_map_head,
    push_null, push_raw, push_text, push_unsigned,
};

fn reference(value: &Value) -> Vec<u8> {
    let mut encoded = Vec::new();
    ciborium::ser::into_writer(value, &mut encoded).unwrap();
    encoded
}

#[test]
fn heads_take_the_fewest_bytes() {
    let cases: [(u64, &[u8]); 11] = [
        (0, &[0x00]),
        (23, &[0x17]),
        (24, &[0x18, 24]),
        (255, &[0x18, 0xff]),
        (256, &[0x19, 0x01, 0x00]),
        (65535, &[0x19, 0xff, 0xff]),
        (65536, &[0x1a, 0x00, 0x01, 0x00, 0x00]),
        (0xffff_ffff, &[0x1a, 0xff, 0xff, 0xff, 0xff]),
        (0x1_0000_0000, &[0x1b, 0, 0, 0, 1, 0, 0, 0, 0]),
        (0x0102_0304_0506_0708, &[0x1b, 1, 2, 3, 4, 5, 6, 7, 8]),
        (u64::MAX, &[0x1b, 0xff, 0xff, 0xff, 0xff, 0xff, 0xff, 0xff, 0xff]),
    ];
    for (value, expected) in cases {
        let mut out = vec![0xaa];
        push_unsigned(&mut out, value);
        assert_eq!(&out[1..], expected);
        assert_eq!(out[0], 0xaa);
        assert_eq!(&out[1..], reference(&Value::Integer(value.into())));

        let mut tagged = Vec::new();
        push_head(&mut tagged, 6, value);
        assert_eq!(tagged[0], expected[0] | 0xc0);
        assert_eq!(&tagged[1..], &expected[1..]);
    }
}

#[test]
fn integers_of_either_sign() {
    for value in [0i64, 1, -1, 23, -24, -25, 24, 255, -256, -257, 1000, -1000, i64::MAX, i64::MIN, -7] {
        let mut out = Vec::new();
        push_integer(&mut out, value);
        assert_eq!(out, reference(&Value::Integer(value.into())), "{value}");
    }
    let mut out = Vec::new();
    push_integer(&mut out, -7);
    assert_eq!(out, [0x26]);
}

#[test]
fn strings_arrays_and_maps() {
    for len in [0usize, 1, 23, 24, 255, 256, 70000] {
        let content = vec![0x5au8; len];
        let mut out = Vec::new();
        push_bytes(&mut out, &content);
        assert_eq!(out, reference(&Value::Bytes(content.clone())));

        let text = "é".repeat(len);
        let mut out = Vec::new();
        push_text(&mut out, &text);
        assert_eq!(out, reference(&Value::Text(text)));

        let mut out = Vec::new();
        push_array_head(&mut out, len);
        for _ in 0..len {
            push_null(&mut out);
        }
        assert_eq!(out, reference(&Value::Array(vec![Value::Null; len])));

        let mut out = Vec::new();
        push_map_head(&mut out, len);
        for i in 0..len {
            push_unsigned(&mut out, i as u64);
            push_boolean(&mut out, i % 2 == 0);
        }
        let pairs = (0..len)
            .map(|i| (Value::Integer((i as u64).into()), Value::Bool(i % 2 == 0)))
            .collect();
        assert_eq!(out, reference(&Value::Map(pairs)));
    }
}

#[test]
fn encoded_items_are_tagged_byte_strings() {
    let item = reference(&Value::Text("inner".to_string()));
    let mut out = Vec::new();
    push_encoded_item(&mut out, &item);
    assert_eq!(out, reference(&Value::Tag(24, Box::new(Value::Bytes(item.clone())))));
    assert_eq!(&out[..3], [0xd8, 0x18, 0x46]);

    let mut raw = vec![1, 2];
    push_raw(&mut raw, &[3, 4]);
    push_raw(&mut raw, &[]);
    assert_eq!(raw, [1, 2, 3, 4]);

    let mut simple = Vec::new();
    push_null(&mut simple);
    push_boolean(&mut simple, false);
    push_boolean(&mut simple, true);
    assert_eq!(simple, [0xf6, 0xf4, 0xf5]);
}
