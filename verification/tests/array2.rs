use ndarray::arr2;
use poem_openapi::registry::{MetaSchema, MetaSchemaRef, Registry};
use poem_openapi::types::error::ParseError;
use poem_openapi::types::external::array2::{Array2, ShapeError};
use poem_openapi::types::external::timestamp::Timestamp;
use poem_openapi::types::{ParseFromJSON, ParseFromParameter, ToJSON, Type};
use poem_openapi::value::{Number, Value};

fn whole(n: i128) -> Value {
    Value::Number(Number::Integer(n))
}

fn row(cells: &[i128]) -> Value {
    Value::Array(cells.iter().map(|n| whole(*n)).collect())
}

fn as_ndarray<T>(array: Array2<T>) -> ndarray::Array2<T> {
    let shape = array.shape();
    ndarray::Array2::from_shape_vec(shape, array.into_raw_vec()).unwrap()
}

#[test]
fn empty_array2() {
    let json = Value::Array(vec![]);
    let arr = Array2::<i32>::parse_from_json(Some(json)).unwrap();
    assert_eq!(arr.shape(), (0, 0));
    assert_eq!(as_ndarray(arr).shape(), &[0, 0]);
}

#[test]
fn parse_array2() {
    let json = Value::Array(vec![row(&[1, 2, 3]), row(&[4, 5, 6])]);
    let arr = Array2::<Number>::parse_from_json(Some(json)).unwrap();
    let floats = as_ndarray(arr).mapv(|number| match number {
        Number::Integer(integer) => integer as f64,
        Number::Float(bits) => f64::from_bits(bits),
    });
    assert_eq!(floats, arr2(&[[1.0, 2.0, 3.0], [4.0, 5.0, 6.0]]));
}

#[test]
fn parse_array2_of_int32() {
    let json = Value::Array(vec![row(&[1, 2, 3]), row(&[4, 5, 6])]);
    let arr = Array2::<i32>::parse_from_json(Some(json)).unwrap();
    assert_eq!(arr.shape(), (2, 3));
    assert_eq!(as_ndarray(arr), arr2(&[[1, 2, 3], [4, 5, 6]]));
}

#[test]
fn parse_array2_of_numbers() {
    let json = Value::Array(vec![Value::Array(vec![
        whole(1),
        Value::Number(Number::Float(2.5f64.to_bits())),
        whole(-18_446_744_073_709_551_615),
    ])]);
    let arr = Array2::<Number>::parse_from_json(Some(json)).unwrap();
    assert_eq!(arr.shape(), (1, 3));
    assert_eq!(
        arr.as_slice(),
        &[
            Number::Integer(1),
            Number::Float(2.5f64.to_bits()),
            Number::Integer(-18_446_744_073_709_551_615),
        ]
    );
    assert_eq!(
        arr.to_json(),
        Some(Value::Array(vec![Value::Array(vec![
            whole(1),
            Value::Number(Number::Float(2.5f64.to_bits())),
            whole(-18_446_744_073_709_551_615),
        ])]))
    );
    assert_eq!(Array2::<Number>::name(), "ndarray2_number");
    assert_eq!(
        Array2::<Number>::parse_from_json(Some(Value::Array(vec![Value::Array(vec![
            Value::Bool(true)
        ])]))),
        Err(ParseError::Propagated(Box::new(ParseError::ExpectedType(Value::Bool(true)))))
    );
}

#[test]
fn array2_to_json() {
    let given = arr2(&[[1, 2, 3], [4, 5, 6]]);
    let (elements, _) = given.into_raw_vec_and_offset();
    let arr = Array2::from_shape_vec((2, 3), elements).unwrap();
    let json = arr.to_json().unwrap();
    assert_eq!(json, Value::Array(vec![row(&[1, 2, 3]), row(&[4, 5, 6])]));
}

#[test]
fn array2_elements_stand_row_by_row() {
    let json = Value::Array(vec![row(&[1, 2, 3]), row(&[4, 5, 6])]);
    let arr = Array2::<i32>::parse_from_json(Some(json)).unwrap();
    assert_eq!(arr.len(), 6);
    assert_eq!(arr.as_slice(), &[1, 2, 3, 4, 5, 6]);
    assert_eq!(arr.get(0, 0), Some(&1));
    assert_eq!(arr.get(0, 2), Some(&3));
    assert_eq!(arr.get(1, 0), Some(&4));
    assert_eq!(arr.get(1, 2), Some(&6));
    assert_eq!(arr.get(2, 0), None);
    assert_eq!(arr.get(0, 3), None);
}

#[test]
fn array2_json_round_trip() {
    let values = vec![
        Value::Array(vec![]),
        Value::Array(vec![row(&[])]),
        Value::Array(vec![row(&[]), row(&[])]),
        Value::Array(vec![row(&[7])]),
        Value::Array(vec![row(&[1, 2]), row(&[3, 4]), row(&[-5, 2147483647])]),
        Value::Array(vec![row(&[-2147483648, 0, 1])]),
    ];
    for value in values {
        let shown = format!("{:?}", value);
        let copy = match &value {
            Value::Array(rows) => Value::Array(
                rows.iter()
                    .map(|r| match r {
                        Value::Array(cells) => Value::Array(
                            cells
                                .iter()
                                .map(|c| match c {
                                    Value::Number(n) => Value::Number(*n),
                                    _ => unreachable!(),
                                })
                                .collect(),
                        ),
                        _ => unreachable!(),
                    })
                    .collect(),
            ),
            _ => unreachable!(),
        };
        let arr = Array2::<i32>::parse_from_json(Some(value)).unwrap();
        assert_eq!(arr.to_json(), Some(copy), "{}", shown);
    }
}

#[test]
fn array2_shape_is_checked_before_the_elements() {
    let ragged = Value::Array(vec![row(&[1, 2]), row(&[3])]);
    assert_eq!(
        Array2::<i32>::parse_from_json(Some(ragged)),
        Err(ParseError::Custom("All rows must have same length".to_string()))
    );
    let ragged_with_bad_cell = Value::Array(vec![
        Value::Array(vec![Value::String("x".to_string()), whole(2)]),
        row(&[3]),
    ]);
    assert_eq!(
        Array2::<i32>::parse_from_json(Some(ragged_with_bad_cell)),
        Err(ParseError::Custom("All rows must have same length".to_string()))
    );
    let later_row_is_no_array = Value::Array(vec![row(&[1, 2]), whole(3)]);
    assert_eq!(
        Array2::<i32>::parse_from_json(Some(later_row_is_no_array)),
        Err(ParseError::Custom("All rows must have same length".to_string()))
    );
}

#[test]
fn array2_expects_an_array_of_arrays() {
    assert_eq!(
        Array2::<i32>::parse_from_json(Some(Value::Array(vec![whole(1), whole(2)]))),
        Err(ParseError::Custom("Expected array of arrays".to_string()))
    );
    assert_eq!(
        Array2::<i32>::parse_from_json(Some(Value::Array(vec![whole(1), row(&[2])]))),
        Err(ParseError::Custom("Expected array of arrays".to_string()))
    );
    assert_eq!(
        Array2::<i32>::parse_from_json(None),
        Err(ParseError::ExpectedType(Value::Null))
    );
    assert_eq!(
        Array2::<i32>::parse_from_json(Some(Value::Null)),
        Err(ParseError::ExpectedType(Value::Null))
    );
    assert_eq!(
        Array2::<i32>::parse_from_json(Some(whole(1))),
        Err(ParseError::ExpectedType(whole(1)))
    );
    assert_eq!(
        Array2::<i32>::parse_from_json(Some(Value::Object(vec![]))),
        Err(ParseError::ExpectedType(Value::Object(vec![])))
    );
}

#[test]
fn array2_first_failing_element_is_propagated() {
    let json = Value::Array(vec![
        Value::Array(vec![whole(1), Value::String("x".to_string())]),
        Value::Array(vec![whole(4_000_000_000), whole(4)]),
    ]);
    assert_eq!(
        Array2::<i32>::parse_from_json(Some(json)),
        Err(ParseError::Propagated(Box::new(ParseError::ExpectedType(Value::String(
            "x".to_string()
        )))))
    );
    let json = Value::Array(vec![row(&[1, 2]), row(&[4_000_000_000, 4])]);
    assert_eq!(
        Array2::<i32>::parse_from_json(Some(json)),
        Err(ParseError::Propagated(Box::new(ParseError::Custom(
            "integer out of range".to_string()
        ))))
    );
}

#[test]
fn array2_of_timestamps() {
    let first = "2024-03-10T10:00:00Z";
    let second = "2024-03-11T10:00:00Z";
    let json = Value::Array(vec![Value::Array(vec![
        Value::String(first.to_string()),
        Value::String(second.to_string()),
    ])]);
    let arr = Array2::<Timestamp>::parse_from_json(Some(json)).unwrap();
    assert_eq!(arr.shape(), (1, 2));
    assert_eq!(arr.get(0, 1), Some(&Timestamp::parse_from_parameter(second).unwrap()));
    assert_eq!(
        arr.to_json(),
        Some(Value::Array(vec![Value::Array(vec![
            Value::String(first.to_string()),
            Value::String(second.to_string()),
        ])]))
    );
}

#[test]
fn array2_from_shape_vec_counts_the_elements() {
    assert!(Array2::from_shape_vec((2, 2), vec![1, 2, 3, 4]).is_ok());
    assert_eq!(Array2::from_shape_vec((2, 2), vec![1, 2, 3]), Err(ShapeError::OutOfBounds));
    assert_eq!(Array2::from_shape_vec((2, 2), vec![1, 2, 3, 4, 5]), Err(ShapeError::IncompatibleShape));
    assert_eq!(Array2::from_shape_vec((0, 3), vec![1]), Err(ShapeError::IncompatibleShape));
    assert_eq!(Array2::from_shape_vec((usize::MAX, 2), vec![1, 2]), Err(ShapeError::Overflow));
    let flat = Array2::<i32>::from_shape_vec((0, 3), vec![]).unwrap();
    assert_eq!(flat.shape(), (0, 3));
    assert_eq!(flat.to_json(), Some(Value::Array(vec![])));
    let thin = Array2::<i32>::from_shape_vec((2, 0), vec![]).unwrap();
    assert_eq!(thin.to_json(), Some(Value::Array(vec![row(&[]), row(&[])])));
}

#[test]
fn array2_shape_must_be_one_that_can_be_addressed() {
    let most = isize::MAX as usize;
    assert_eq!(Array2::<i32>::from_shape_vec((0, usize::MAX), vec![]), Err(ShapeError::Overflow));
    assert_eq!(Array2::<i32>::from_shape_vec((most + 1, 0), vec![]), Err(ShapeError::Overflow));
    assert_eq!(Array2::<i32>::from_shape_vec((most, 2), vec![]), Err(ShapeError::Overflow));
    assert_eq!(Array2::<i32>::from_shape_vec((most / 2 + 1, 2), vec![]), Err(ShapeError::Overflow));
    assert_eq!(Array2::<i32>::from_shape_vec((most, 1), vec![]), Err(ShapeError::OutOfBounds));
    assert_eq!(Array2::<i32>::from_shape_vec((most, 0), vec![]).unwrap().shape(), (most, 0));
    assert_eq!(Array2::<i32>::from_shape_vec((0, most), vec![]).unwrap().shape(), (0, most));
    let shapes = [
        (0, usize::MAX),
        (most + 1, 0),
        (most, 2),
        (most, 1),
        (most, 0),
        (0, most),
        (0, 0),
        (1, 1),
        (2, 3),
        (3, 0),
    ];
    for shape in shapes {
        for count in [0usize, 1, 5, 6, 7] {
            let ours = Array2::<u8>::from_shape_vec(shape, vec![0; count]);
            let theirs = ndarray::Array2::<u8>::from_shape_vec(shape, vec![0; count]);
            assert_eq!(ours.is_ok(), theirs.is_ok(), "{:?} {}", shape, count);
            if let (Err(ours), Err(theirs)) = (ours, theirs) {
                assert_eq!(ours.describe(), theirs.to_string(), "{:?} {}", shape, count);
            }
        }
    }
}

#[test]
fn array2_describes_itself() {
    assert_eq!(Array2::<i32>::name(), "ndarray2_integer_int32");
    assert_eq!(Array2::<Timestamp>::name(), "ndarray2_string_date-time");
    assert_eq!(Array2::<Array2<i32>>::name(), "ndarray2_ndarray2_integer_int32");
    assert!(Array2::<i32>::is_required());
    let items = MetaSchemaRef::Inline(Box::new(MetaSchema {
        ty: "integer",
        format: Some("int32"),
        items: None,
    }));
    let inner = MetaSchemaRef::Inline(Box::new(MetaSchema {
        ty: "array",
        format: None,
        items: Some(Box::new(items)),
    }));
    assert_eq!(
        Array2::<i32>::schema_ref(),
        MetaSchemaRef::Inline(Box::new(MetaSchema {
            ty: "array",
            format: None,
            items: Some(Box::new(inner)),
        }))
    );
    let mut registry = Registry::new();
    Array2::<i32>::register(&mut registry);
    Array2::<i32>::register(&mut registry);
    assert_eq!(registry.len(), 0);
}

#[test]
fn array2_raw_elements_in_row_major_order() {
    let arr = Array2::from_shape_vec((2, 2), vec![1, 2, 3, 4]).unwrap();
    assert_eq!(arr.as_raw_value(), Some(&arr));
    assert_eq!(arr.raw_element_iter(), vec![&1, &2, &3, &4]);
    assert_eq!(arr.raw_element_iter(), vec![&1, &2, &3, &4]);
    assert!(!arr.is_empty());
    let empty = Array2::<i32>::parse_from_json(Some(Value::Array(vec![]))).unwrap();
    assert!(empty.is_empty());
    assert!(empty.raw_element_iter().is_empty());
    assert!(Array2::<i32>::from_shape_vec((3, 0), vec![]).unwrap().is_empty());
}
