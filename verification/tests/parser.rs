use vw_text::error::ParseError;
use vw_text::hash::uniform_hash;
use vw_text::parser::{
    parse_example, parse_line, parse_namespace, process, FeatureToken, Features, VWParser,
    DEFAULT_NAMESPACE,
};

#[test]
fn parser_test() {
    let tree = VWParser::parse("4 'tag |test test:-4.5 another -4.5").expect("unsuccessful parse");
    let features = process(&tree, 0).unwrap();
    assert_eq!(features.namespace_indices.len(), 1);
    assert_eq!(
        features.feature_spaces[features.namespace_indices[0] as usize]
            .values
            .len(),
        3
    );
}

#[test]
fn parse_line_test() {
    let features = parse_line("4 'tag |test test:-4.5 another -4.5", 0).unwrap();
    assert_eq!(features.namespace_indices.len(), 1);
    assert_eq!(
        features.feature_spaces[features.namespace_indices[0] as usize]
            .values
            .len(),
        3
    );
}

#[test]
fn round_trip_line() {
    // One namespace slot, three features: one named with an explicit value,
    // one named with the default value, one anonymous.
    let ex = parse_example("4 'tag |test test:-4.5 another -4.5", 0).unwrap();
    assert_eq!(ex.label, Some(b"4".to_vec()));
    assert_eq!(ex.tag, Some(b"tag".to_vec()));
    assert_eq!(ex.features.namespace_indices, vec![b't']);

    let ns_hash = uniform_hash(b"test", 0);
    let values = &ex.features.feature_spaces[b't' as usize].values;
    assert_eq!(values.len(), 3);
    assert_eq!(values[0], (uniform_hash(b"test", ns_hash), b"-4.5".to_vec()));
    assert_eq!(values[1], (uniform_hash(b"another", ns_hash), b"1".to_vec()));
    assert_eq!(values[2], (ns_hash, b"-4.5".to_vec()));

    // Every other slot stays empty.
    for (i, space) in ex.features.feature_spaces.iter().enumerate() {
        if i != b't' as usize {
            assert!(space.values.is_empty());
        }
    }
}

#[test]
fn label_only_default_namespace() {
    // A space right after the bar means the namespace has no name: the
    // default slot and the default namespace hash are used.
    let ex = parse_example("0.3 | test:1", 0).unwrap();
    assert_eq!(ex.label, Some(b"0.3".to_vec()));
    assert_eq!(ex.tag, None);
    assert_eq!(ex.features.namespace_indices, vec![DEFAULT_NAMESPACE]);
    let values = &ex.features.feature_spaces[DEFAULT_NAMESPACE as usize].values;
    assert_eq!(values.len(), 1);
    assert_eq!(
        values[0],
        (
            uniform_hash(b"test", DEFAULT_NAMESPACE as u64),
            b"1".to_vec()
        )
    );
}

#[test]
fn namespace_tokens_ignore_whitespace() {
    let expected = vec![
        FeatureToken::Named {
            name: b"test".to_vec(),
            value: Some(b"one".to_vec()),
        },
        FeatureToken::Named {
            name: b"test".to_vec(),
            value: Some(b"two".to_vec()),
        },
    ];
    assert_eq!(parse_namespace("test:one   test:two"), expected);
    assert_eq!(parse_namespace("test:one test:two"), expected);
    assert_eq!(parse_namespace("  test:one \t test:two  "), expected);
}

#[test]
fn same_first_byte_same_slot() {
    // Namespaces whose names share a first byte write into the same slot,
    // by design.
    let features = parse_line("|abc f:1 |axy g:2", 0).unwrap();
    assert_eq!(features.namespace_indices, vec![b'a', b'a']);
    let values = &features.feature_spaces[b'a' as usize].values;
    assert_eq!(values.len(), 2);
    assert_eq!(values[0].0, uniform_hash(b"f", uniform_hash(b"abc", 0)));
    assert_eq!(values[1].0, uniform_hash(b"g", uniform_hash(b"axy", 0)));
}

#[test]
fn no_bar_no_namespaces() {
    let features = parse_line("0.5 'tag", 0).unwrap();
    assert_eq!(features.namespace_indices.len(), 0);
    for space in &features.feature_spaces {
        assert!(space.values.is_empty());
    }
}

#[test]
fn empty_line_parses_empty() {
    let features = parse_line("", 0).unwrap();
    assert_eq!(features.namespace_indices.len(), 0);
    for space in &features.feature_spaces {
        assert!(space.values.is_empty());
    }
}

#[test]
fn malformed_value_fails_whole_parse() {
    let err = parse_line("1 |a test:abc", 0).unwrap_err();
    assert_eq!(
        err,
        ParseError::MalformedNumber {
            token: b"abc".to_vec(),
            section: 1,
            token_index: 0,
        }
    );
}

#[test]
fn malformed_label_section_is_incomplete() {
    // A second token after the tag has no place in the grammar.
    let err = parse_line("4 'tag extra |a b:1", 0).unwrap_err();
    assert_eq!(
        err,
        ParseError::IncompleteParse {
            token: b"extra".to_vec(),
        }
    );
}

#[test]
fn bare_name_defaults_to_one() {
    let features = parse_line("|n foo", 0).unwrap();
    let ns_hash = uniform_hash(b"n", 0);
    let values = &features.feature_spaces[b'n' as usize].values;
    assert_eq!(values.len(), 1);
    assert_eq!(values[0], (uniform_hash(b"foo", ns_hash), b"1".to_vec()));
}

#[test]
fn anonymous_features_count_up() {
    // Multiple anonymous features in one namespace get distinct consecutive
    // ids above the namespace hash.
    let features = parse_line("|n 1 2.5 3e1", 0).unwrap();
    let ns_hash = uniform_hash(b"n", 0);
    let values = &features.feature_spaces[b'n' as usize].values;
    assert_eq!(values.len(), 3);
    assert_eq!(values[0], (ns_hash, b"1".to_vec()));
    assert_eq!(values[1], (ns_hash + 1, b"2.5".to_vec()));
    assert_eq!(values[2], (ns_hash + 2, b"3e1".to_vec()));
    assert!(values[0].0 != values[1].0 && values[1].0 != values[2].0);
}

#[test]
fn empty_namespace_section_still_counts() {
    // A bar with nothing after it opens an unnamed namespace with no
    // features: the slot is recorded, its space stays empty.
    let features = parse_line("1 |", 0).unwrap();
    assert_eq!(features.namespace_indices, vec![DEFAULT_NAMESPACE]);
    for space in &features.feature_spaces {
        assert!(space.values.is_empty());
    }
}

#[test]
fn tag_without_quote_and_no_label() {
    let ex = parse_example("sometag |x y:2", 0).unwrap();
    assert_eq!(ex.label, None);
    assert_eq!(ex.tag, Some(b"sometag".to_vec()));
}

#[test]
fn fresh_features_are_empty() {
    let features = Features::new();
    assert_eq!(features.feature_spaces.len(), 256);
    assert!(features.namespace_indices.is_empty());
    for space in &features.feature_spaces {
        assert!(space.values.is_empty());
    }
}

#[test]
fn feature_values_keep_insertion_order() {
    let features = parse_line("|n a:1 b:2 c:3", 0).unwrap();
    let ns_hash = uniform_hash(b"n", 0);
    let values = &features.feature_spaces[b'n' as usize].values;
    let ids: Vec<u64> = values.iter().map(|p| p.0).collect();
    assert_eq!(
        ids,
        vec![
            uniform_hash(b"a", ns_hash),
            uniform_hash(b"b", ns_hash),
            uniform_hash(b"c", ns_hash),
        ]
    );
    let texts: Vec<&[u8]> = values.iter().map(|p| p.1.as_slice()).collect();
    assert_eq!(texts, vec![b"1".as_slice(), b"2".as_slice(), b"3".as_slice()]);
}
