use canvas_backend::codec::{decode, encode, is_expressible, Format, ParseError};
use canvas_backend::snapshot::{Entry, Snapshot, StrokeMap};

fn strokes(pairs: &[(i32, &str)]) -> StrokeMap {
    let mut map = StrokeMap::new();
    for (key, value) in pairs {
        map.insert(*key, value.to_string());
    }
    map
}

fn read_strokes(text: &str) -> Result<Vec<(i32, String)>, ParseError> {
    match decode(Format::KeyValue, text) {
        Ok(Snapshot::Strokes(map)) => {
            Ok(map.entries.into_iter().map(|e| (e.key, e.value)).collect())
        }
        Ok(Snapshot::Text(text)) => panic!("a stroke map was asked for, got the text {:?}", text),
        Err(e) => Err(e),
    }
}

fn pairs(list: &[(i32, &str)]) -> Vec<(i32, String)> {
    list.iter().map(|(k, v)| (*k, v.to_string())).collect()
}

#[test]
fn single_stroke_comes_back() {
    let snapshot = Snapshot::Strokes(strokes(&[(0, "line(0,0,10,10)")]));
    let text = encode(&snapshot);
    assert_eq!(text, "0:line(0,0,10,10)");
    assert_eq!(decode(Format::KeyValue, &text), Ok(snapshot));
}

#[test]
fn entries_are_written_in_their_order_with_one_blank_between() {
    let map = strokes(&[(3, "c"), (1, "a"), (2, "b")]);
    assert_eq!(encode(&Snapshot::Strokes(map)), "3:c 1:a 2:b");
}

#[test]
fn empty_map_is_written_as_empty_text() {
    assert_eq!(encode(&Snapshot::Strokes(StrokeMap::new())), "");
    assert_eq!(read_strokes(""), Ok(vec![]));
    assert_eq!(read_strokes(" \n\t "), Ok(vec![]));
}

#[test]
fn negative_and_extreme_keys_are_written_in_decimal() {
    let map = strokes(&[(-7, "x"), (i32::MAX, "hi"), (i32::MIN, "lo"), (0, "zero")]);
    let text = encode(&Snapshot::Strokes(map.clone()));
    assert_eq!(text, "-7:x 2147483647:hi -2147483648:lo 0:zero");
    assert_eq!(decode(Format::KeyValue, &text), Ok(Snapshot::Strokes(map)));
}

#[test]
fn any_white_space_separates_entries() {
    assert_eq!(
        read_strokes("  0:a\n\t1:b\r\n2:c\u{3000}3:d\u{a0}4:e  "),
        Ok(pairs(&[(0, "a"), (1, "b"), (2, "c"), (3, "d"), (4, "e")]))
    );
}

#[test]
fn a_token_is_split_at_its_first_colon() {
    assert_eq!(read_strokes("1:a:b"), Ok(pairs(&[(1, "a:b")])));
    assert_eq!(read_strokes("1::"), Ok(pairs(&[(1, ":")])));
    let snapshot = Snapshot::Strokes(strokes(&[(1, "rgb:1:2:3")]));
    assert_eq!(decode(Format::KeyValue, &encode(&snapshot)), Ok(snapshot));
}

#[test]
fn a_value_may_be_empty() {
    assert_eq!(read_strokes("5:"), Ok(pairs(&[(5, "")])));
    let snapshot = Snapshot::Strokes(strokes(&[(5, ""), (6, "x")]));
    assert_eq!(encode(&snapshot), "5: 6:x");
    assert_eq!(decode(Format::KeyValue, &encode(&snapshot)), Ok(snapshot));
}

#[test]
fn keys_are_read_as_signed_decimal_numbers() {
    assert_eq!(read_strokes("+5:v"), Ok(pairs(&[(5, "v")])));
    assert_eq!(read_strokes("007:v"), Ok(pairs(&[(7, "v")])));
    assert_eq!(read_strokes("-0:v"), Ok(pairs(&[(0, "v")])));
    assert_eq!(read_strokes("2147483647:v"), Ok(pairs(&[(i32::MAX, "v")])));
    assert_eq!(read_strokes("-2147483648:v"), Ok(pairs(&[(i32::MIN, "v")])));
}

#[test]
fn a_token_without_colon_is_a_missing_delimiter() {
    assert_eq!(read_strokes("12"), Err(ParseError::MissingDelimiter));
    assert_eq!(read_strokes("0:a b"), Err(ParseError::MissingDelimiter));
    assert_eq!(read_strokes("abc 1:x"), Err(ParseError::MissingDelimiter));
}

#[test]
fn a_token_whose_key_is_no_number_is_an_invalid_key() {
    assert_eq!(read_strokes("x:1"), Err(ParseError::InvalidKey));
    assert_eq!(read_strokes(":v"), Err(ParseError::InvalidKey));
    assert_eq!(read_strokes("-:v"), Err(ParseError::InvalidKey));
    assert_eq!(read_strokes("1.5:v"), Err(ParseError::InvalidKey));
    assert_eq!(read_strokes("2147483648:v"), Err(ParseError::InvalidKey));
    assert_eq!(read_strokes("-2147483649:v"), Err(ParseError::InvalidKey));
    assert_eq!(read_strokes("0:a 1x:b"), Err(ParseError::InvalidKey));
}

#[test]
fn the_first_bad_token_decides_the_error() {
    assert_eq!(read_strokes("a b:1"), Err(ParseError::MissingDelimiter));
    assert_eq!(read_strokes("b:1 a"), Err(ParseError::InvalidKey));
}

#[test]
fn of_two_entries_with_one_key_the_later_text_is_kept_at_the_earlier_place() {
    assert_eq!(read_strokes("1:a 2:b 1:c"), Ok(pairs(&[(1, "c"), (2, "b")])));
}

#[test]
fn white_space_in_a_value_breaks_the_round_trip() {
    let snapshot = Snapshot::Strokes(strokes(&[(0, "a b")]));
    let text = encode(&snapshot);
    assert_eq!(text, "0:a b");
    assert_eq!(decode(Format::KeyValue, &text), Err(ParseError::MissingDelimiter));

    let other = Snapshot::Strokes(strokes(&[(0, "a 5:b")]));
    let back = decode(Format::KeyValue, &encode(&other));
    assert_eq!(back, Ok(Snapshot::Strokes(strokes(&[(0, "a"), (5, "b")]))));
    assert_ne!(back, Ok(other));
}

#[test]
fn opaque_text_is_kept_as_it_is() {
    let text = "  anything: at all\n\u{3000}";
    let snapshot = Snapshot::Text(text.to_string());
    assert_eq!(encode(&snapshot), text);
    assert_eq!(decode(Format::Raw, text), Ok(snapshot));
    assert_eq!(decode(Format::Raw, ""), Ok(Snapshot::Text(String::new())));
}

#[test]
fn stroke_maps_without_white_space_come_back_as_they_were() {
    let values = ["", "x", "line(0,0,10,10)", "a:b", "\u{e9}t\u{e9}", "::", "-1:2"];
    let mut map = StrokeMap::new();
    let mut key: i32 = -3;
    for round in 0..40 {
        map.insert(key, values[round % values.len()].to_string());
        key = key.wrapping_mul(31).wrapping_add(17);
        let snapshot = Snapshot::Strokes(map.clone());
        assert_eq!(decode(Format::KeyValue, &encode(&snapshot)), Ok(snapshot));
    }
    assert_eq!(map.len(), 40);
}

#[test]
fn what_was_read_is_written_and_read_again_unchanged() {
    let texts = ["1:a 2:b 1:c", "  +5:x\n-0:y ", "3:a:b 4:", ""];
    for text in texts {
        let first = decode(Format::KeyValue, text).unwrap();
        assert_eq!(decode(Format::KeyValue, &encode(&first)), Ok(first));
    }
}

#[test]
fn a_stroke_map_keeps_one_text_for_each_key() {
    let mut map = StrokeMap::new();
    assert_eq!(map.len(), 0);
    assert_eq!(map.get(1), None);
    map.insert(1, "a".to_string());
    map.insert(2, "b".to_string());
    map.insert(1, "c".to_string());
    assert_eq!(map.len(), 2);
    assert_eq!(map.get(1), Some(&"c".to_string()));
    assert_eq!(map.get(2), Some(&"b".to_string()));
    assert_eq!(map.get(3), None);
    assert_eq!(
        map.entries,
        vec![Entry { key: 1, value: "c".to_string() }, Entry { key: 2, value: "b".to_string() }]
    );
}

#[test]
fn expressible_snapshots_are_recognised() {
    use_is_expressible(&[(0, "line(0,0,10,10)"), (1, "a:b"), (-4, "")], true);
    use_is_expressible(&[], true);
    use_is_expressible(&[(0, "a b")], false);
    use_is_expressible(&[(0, "a"), (1, "b\n")], false);
    use_is_expressible(&[(0, "\u{3000}")], false);
    assert!(is_expressible(&Snapshot::Text(" any text ".to_string())));

    let twice = StrokeMap {
        entries: vec![
            Entry { key: 1, value: "a".to_string() },
            Entry { key: 2, value: "b".to_string() },
            Entry { key: 1, value: "c".to_string() },
        ],
    };
    assert!(!twice.has_distinct_keys());
    let snapshot = Snapshot::Strokes(twice);
    assert!(!is_expressible(&snapshot));
    assert_ne!(decode(Format::KeyValue, &encode(&snapshot)), Ok(snapshot));
}

fn use_is_expressible(list: &[(i32, &str)], expected: bool) {
    let map = strokes(list);
    assert!(map.has_distinct_keys());
    let snapshot = Snapshot::Strokes(map);
    assert_eq!(is_expressible(&snapshot), expected, "{:?}", list);
    let back = decode(Format::KeyValue, &encode(&snapshot));
    assert_eq!(back == Ok(snapshot), expected, "{:?}", list);
}

#[test]
fn a_copy_of_a_snapshot_equals_it() {
    let snapshot = Snapshot::Strokes(strokes(&[(3, "c"), (1, "a")]));
    assert_eq!(snapshot.clone(), snapshot);
    let text = Snapshot::Text("abc".to_string());
    assert_eq!(text.clone(), text);
    assert_ne!(text, snapshot);
}
