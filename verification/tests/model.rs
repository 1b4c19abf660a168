use derive_divisible::model::{base_length, divide_at, instantiate, iter, to_sequential, FieldValue};
use derive_divisible::{
    Attribute, Delimiter, DeriveError, Field, Fields, Group, LengthPolicy, Strategy,
};

fn value(strategy: Strategy, items: &[u64]) -> FieldValue {
    FieldValue { strategy, items: items.to_vec() }
}

fn sequence(length: u64) -> Vec<u64> {
    (0..length).map(|i| 100 + i).collect()
}

fn map_record() -> Vec<FieldValue> {
    vec![
        value(Strategy::CloneBoth, &[7, 7, 7]),
        value(Strategy::Recurse, &sequence(9)),
        value(Strategy::DefaultRight, &[1]),
        value(Strategy::CopyBoth, &[42]),
    ]
}

fn zip_record() -> Vec<FieldValue> {
    vec![
        value(Strategy::Recurse, &sequence(5)),
        value(Strategy::CloneBoth, &[3, 4]),
        value(Strategy::Recurse, &sequence(8)),
    ]
}

fn copy(record: &[FieldValue]) -> Vec<FieldValue> {
    record.iter().map(|f| value(f.strategy, &f.items)).collect()
}

#[test]
fn bounded_length_of_5_and_8_is_5() {
    let record = vec![value(Strategy::Recurse, &sequence(5)), value(Strategy::Recurse, &sequence(8))];
    assert_eq!(base_length(&record, LengthPolicy::Bounded), 5);
}

#[test]
fn unbounded_length_of_5_and_8_is_8() {
    let record = vec![value(Strategy::Recurse, &sequence(5)), value(Strategy::Recurse, &sequence(8))];
    assert_eq!(base_length(&record, LengthPolicy::Unbounded), 8);
}

#[test]
fn passengers_have_no_length() {
    assert_eq!(base_length(&zip_record(), LengthPolicy::Bounded), 5);
    assert_eq!(base_length(&zip_record(), LengthPolicy::Unbounded), 8);
    assert_eq!(base_length(&map_record(), LengthPolicy::Bounded), 9);
    assert_eq!(base_length(&map_record(), LengthPolicy::Unbounded), 9);
}

#[test]
fn record_without_recursing_field_has_no_bound() {
    let record = vec![value(Strategy::CloneBoth, &[1, 2]), value(Strategy::DefaultRight, &[3])];
    assert_eq!(base_length(&record, LengthPolicy::Bounded), usize::MAX);
    assert_eq!(base_length(&record, LengthPolicy::Unbounded), usize::MAX);
}

#[test]
fn record_without_field_is_unbounded_or_empty() {
    assert_eq!(base_length(&vec![], LengthPolicy::Bounded), usize::MAX);
    assert_eq!(base_length(&vec![], LengthPolicy::Unbounded), 0);
}

#[test]
fn empty_recursing_field_has_length_zero() {
    let record = vec![value(Strategy::Recurse, &[]), value(Strategy::Recurse, &sequence(3))];
    assert_eq!(base_length(&record, LengthPolicy::Bounded), 0);
    assert_eq!(base_length(&record, LengthPolicy::Unbounded), 3);
    let record = vec![value(Strategy::Recurse, &[])];
    assert_eq!(base_length(&record, LengthPolicy::Unbounded), 0);
}

#[test]
fn split_gives_each_half_what_the_strategy_says() {
    let (left, right) = divide_at(map_record(), 4);
    assert_eq!(
        left,
        vec![
            value(Strategy::CloneBoth, &[7, 7, 7]),
            value(Strategy::Recurse, &[100, 101, 102, 103]),
            value(Strategy::DefaultRight, &[1]),
            value(Strategy::CopyBoth, &[42]),
        ]
    );
    assert_eq!(
        right,
        vec![
            value(Strategy::CloneBoth, &[7, 7, 7]),
            value(Strategy::Recurse, &[104, 105, 106, 107, 108]),
            value(Strategy::DefaultRight, &[]),
            value(Strategy::CopyBoth, &[42]),
        ]
    );
}

#[test]
fn split_keeps_the_order_of_the_fields() {
    let record = zip_record();
    let strategies: Vec<Strategy> = record.iter().map(|f| f.strategy).collect();
    for index in 0..7 {
        let (left, right) = divide_at(copy(&record), index);
        assert_eq!(left.iter().map(|f| f.strategy).collect::<Vec<_>>(), strategies);
        assert_eq!(right.iter().map(|f| f.strategy).collect::<Vec<_>>(), strategies);
    }
}

#[test]
fn split_cuts_every_recursing_field_at_the_same_index() {
    let (left, right) = divide_at(zip_record(), 2);
    assert_eq!(left[0].items, vec![100, 101]);
    assert_eq!(right[0].items, vec![102, 103, 104]);
    assert_eq!(left[2].items, vec![100, 101]);
    assert_eq!(right[2].items, vec![102, 103, 104, 105, 106, 107]);
    assert_eq!(left[1].items, vec![3, 4]);
    assert_eq!(right[1].items, vec![3, 4]);
}

#[test]
fn split_loses_no_item() {
    let record = zip_record();
    for index in 0..10 {
        let (left, right) = divide_at(copy(&record), index);
        for (position, field) in record.iter().enumerate() {
            if field.strategy == Strategy::Recurse {
                let mut joined = left[position].items.clone();
                joined.extend(right[position].items.iter());
                assert_eq!(joined, field.items);
            }
        }
    }
}

#[test]
fn split_at_zero_leaves_an_empty_left_half() {
    for policy in [LengthPolicy::Bounded, LengthPolicy::Unbounded] {
        let whole = base_length(&zip_record(), policy);
        let (left, right) = divide_at(zip_record(), 0);
        assert_eq!(base_length(&left, policy), 0);
        assert_eq!(base_length(&right, policy), whole);
    }
}

#[test]
fn split_at_the_length_leaves_an_empty_right_half() {
    for policy in [LengthPolicy::Bounded, LengthPolicy::Unbounded] {
        let whole = base_length(&zip_record(), policy);
        let (left, right) = divide_at(zip_record(), whole);
        assert_eq!(base_length(&left, policy), whole);
        assert_eq!(base_length(&right, policy), 0);
    }
    let (left, right) = divide_at(map_record(), 9);
    assert_eq!(left, map_record_with(&sequence(9), &[1]));
    assert_eq!(right, map_record_with(&[], &[]));
}

fn map_record_with(items: &[u64], phantom: &[u64]) -> Vec<FieldValue> {
    vec![
        value(Strategy::CloneBoth, &[7, 7, 7]),
        value(Strategy::Recurse, items),
        value(Strategy::DefaultRight, phantom),
        value(Strategy::CopyBoth, &[42]),
    ]
}

#[test]
fn split_beyond_a_field_gives_it_all_to_the_left() {
    let (left, right) = divide_at(zip_record(), 6);
    assert_eq!(left[0].items, sequence(5));
    assert_eq!(right[0].items, Vec::<u64>::new());
    assert_eq!(left[2].items, sequence(6));
    assert_eq!(right[2].items, vec![106, 107]);
    let (left, right) = divide_at(zip_record(), usize::MAX);
    assert_eq!(left, zip_record());
    assert_eq!(base_length(&right, LengthPolicy::Unbounded), 0);
}

#[test]
fn split_of_passengers_at_the_boundaries_keeps_no_bound() {
    let record = vec![value(Strategy::CloneBoth, &[1, 2]), value(Strategy::DefaultRight, &[3])];
    let (left, right) = divide_at(record, 0);
    assert_eq!(base_length(&left, LengthPolicy::Bounded), usize::MAX);
    assert_eq!(base_length(&right, LengthPolicy::Bounded), usize::MAX);
    assert_eq!(left, vec![value(Strategy::CloneBoth, &[1, 2]), value(Strategy::DefaultRight, &[3])]);
    assert_eq!(right, vec![value(Strategy::CloneBoth, &[1, 2]), value(Strategy::DefaultRight, &[])]);
}

#[test]
fn split_of_an_empty_record_is_two_empty_records() {
    let (left, right) = divide_at(vec![], 3);
    assert!(left.is_empty());
    assert!(right.is_empty());
}

#[test]
fn halves_can_be_split_again() {
    let (left, right) = divide_at(map_record(), 6);
    let (first, second) = divide_at(left, 3);
    let (third, fourth) = divide_at(right, 2);
    assert_eq!(first[1].items, vec![100, 101, 102]);
    assert_eq!(second[1].items, vec![103, 104, 105]);
    assert_eq!(third[1].items, vec![106, 107]);
    assert_eq!(fourth[1].items, vec![108]);
    assert_eq!(first[2].items, vec![1]);
    assert_eq!(second[2].items, Vec::<u64>::new());
    assert_eq!(fourth[0].items, vec![7, 7, 7]);
}

#[test]
fn iter_hands_out_the_next_items() {
    let (items, rest) = iter(map_record(), 4).unwrap();
    assert_eq!(items, vec![100, 101, 102, 103]);
    assert_eq!(rest, map_record_with(&[104, 105, 106, 107, 108], &[1]));
    let (items, rest) = iter(rest, 2).unwrap();
    assert_eq!(items, vec![104, 105]);
    assert_eq!(rest, map_record_with(&[106, 107, 108], &[1]));
}

#[test]
fn iter_hands_out_no_more_than_there_is() {
    let (items, rest) = iter(map_record(), 20).unwrap();
    assert_eq!(items, sequence(9));
    assert_eq!(rest, map_record_with(&[], &[1]));
    let (items, rest) = iter(rest, 1).unwrap();
    assert_eq!(items, Vec::<u64>::new());
    assert_eq!(rest, map_record_with(&[], &[1]));
    let (items, rest) = iter(map_record(), 0).unwrap();
    assert_eq!(items, Vec::<u64>::new());
    assert_eq!(rest, map_record());
}

#[test]
fn iter_needs_exactly_one_recursing_field() {
    assert_eq!(iter(zip_record(), 2), Err(DeriveError::AmbiguousIterationTarget));
    assert_eq!(
        iter(vec![value(Strategy::CloneBoth, &[1])], 2),
        Err(DeriveError::AmbiguousIterationTarget)
    );
    assert_eq!(iter(vec![], 2), Err(DeriveError::AmbiguousIterationTarget));
}

#[test]
fn blocks_of_3_4_2_flatten_to_the_9_items_in_order() {
    assert_eq!(to_sequential(map_record(), &[3, 4, 2]), Ok(sequence(9)));
}

#[test]
fn flattening_does_not_depend_on_the_blocks() {
    let all = sequence(9);
    let cuts: [&[usize]; 12] = [
        &[],
        &[9],
        &[1, 1, 1, 1, 1, 1, 1, 1, 1],
        &[4, 5],
        &[2, 2],
        &[0, 0, 3],
        &[100],
        &[5, 100, 2],
        &[8, 1, 1, 1],
        &[usize::MAX, 1],
        &[3, 4, 2, 7],
        &[0],
    ];
    for sizes in cuts {
        assert_eq!(to_sequential(map_record(), sizes), Ok(all.clone()));
    }
}

#[test]
fn flattening_an_empty_sequence_gives_nothing() {
    let record = vec![value(Strategy::Recurse, &[]), value(Strategy::CloneBoth, &[5])];
    assert_eq!(to_sequential(record, &[3, 4, 2]), Ok(vec![]));
}

#[test]
fn flattening_needs_exactly_one_recursing_field() {
    assert_eq!(to_sequential(zip_record(), &[3]), Err(DeriveError::AmbiguousIterationTarget));
    assert_eq!(
        to_sequential(vec![value(Strategy::DefaultRight, &[1])], &[3]),
        Err(DeriveError::AmbiguousIterationTarget)
    );
}

fn annotated(name: &str, token: Option<&str>) -> Field {
    Field {
        attrs: token
            .iter()
            .map(|t| Attribute {
                path: "divide_by".to_string(),
                group: Some(Group { delimiter: Delimiter::Parenthesis, stream: t.to_string() }),
            })
            .collect(),
        ident: Some(name.to_string()),
    }
}

#[test]
fn values_take_the_strategies_of_their_fields() {
    let fields = Fields::Named(vec![
        annotated("map_op", Some("clone")),
        annotated("iterator", None),
        annotated("phantom", Some("default")),
        annotated("seed", Some("copy")),
    ]);
    let values = vec![vec![7, 7, 7], sequence(9), vec![1], vec![42]];
    assert_eq!(instantiate(&fields, &values), Some(map_record()));
}

#[test]
fn values_must_be_as_many_as_the_fields() {
    let fields = Fields::Named(vec![annotated("a", None), annotated("b", None)]);
    assert_eq!(instantiate(&fields, &vec![vec![1]]), None);
    assert_eq!(instantiate(&fields, &vec![vec![1], vec![2], vec![3]]), None);
    assert_eq!(instantiate(&Fields::Unit, &vec![]), Some(vec![]));
    assert_eq!(instantiate(&Fields::Unit, &vec![vec![]]), None);
}

#[test]
fn field_with_unrecognized_token_is_divided_as_one_without() {
    let bogus = Fields::Named(vec![annotated("a", Some("bogus")), annotated("b", Some("clone"))]);
    let plain = Fields::Named(vec![annotated("a", None), annotated("b", Some("clone"))]);
    let values = vec![sequence(6), vec![9]];
    let left = instantiate(&bogus, &values).unwrap();
    let right = instantiate(&plain, &values).unwrap();
    assert_eq!(left, right);
    assert_eq!(base_length(&left, LengthPolicy::Bounded), 6);
    assert_eq!(divide_at(left, 2), divide_at(right, 2));
}
