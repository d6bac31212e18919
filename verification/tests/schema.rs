use arrow_array::{Array, Int64Array, StringArray};
use arrow_array::RecordBatch;
use arrow::datatypes::DataType;
use depot::schema::{get_record_batch, values_fit, KafkaConsumerMessage};

#[test]
fn record_batch_has_id_and_val_columns() {
    let list = vec![
        KafkaConsumerMessage { id: 1, val: "one".to_string() },
        KafkaConsumerMessage { id: -2, val: "two".to_string() },
    ];
    let b = get_record_batch(list).batch;
    assert_eq!(b.num_rows(), 2);
    assert_eq!(b.num_columns(), 2);
    let schema = b.schema();
    assert_eq!(schema.field(0).name(), "id");
    assert_eq!(schema.field(1).name(), "val");
    assert!(!schema.field(0).is_nullable());
    assert!(!schema.field(1).is_nullable());
    assert_eq!(schema.field(0).data_type(), &DataType::Int64);
    assert_eq!(schema.field(1).data_type(), &DataType::Utf8);
    assert_eq!(schema.field(0).data_type().to_string(), "Int64");
    assert_eq!(schema.field(1).data_type().to_string(), "Utf8");
    let ids = b.column(0).as_any().downcast_ref::<Int64Array>().unwrap();
    let vals = b.column(1).as_any().downcast_ref::<StringArray>().unwrap();
    assert_eq!(ids.value(0), 1);
    assert_eq!(ids.value(1), -2);
    assert_eq!(vals.value(0), "one");
    assert_eq!(vals.value(1), "two");
}

#[test]
fn record_batch_of_no_messages() {
    let b = get_record_batch(Vec::new()).batch;
    assert_eq!(b.num_rows(), 0);
    assert_eq!(b.num_columns(), 2);
}

#[test]
fn values_fit_counts_utf8_bytes() {
    let list = vec![
        KafkaConsumerMessage { id: 1, val: "é".to_string() },
        KafkaConsumerMessage { id: 2, val: "abc".to_string() },
    ];
    assert!(values_fit(&list));
    assert!(values_fit(&Vec::new()));
}

#[test]
fn rows_of_concatenated_lists() {
    let a = vec![KafkaConsumerMessage { id: 1, val: "x".to_string() }];
    let b = vec![KafkaConsumerMessage { id: 2, val: "y".to_string() }];
    let both = vec![
        KafkaConsumerMessage { id: 1, val: "x".to_string() },
        KafkaConsumerMessage { id: 2, val: "y".to_string() },
    ];
    let ba = get_record_batch(a).batch;
    let bb = get_record_batch(b).batch;
    let joined: RecordBatch = arrow::compute::concat_batches(&ba.schema(), &[ba.clone(), bb]).unwrap();
    assert_eq!(joined, get_record_batch(both).batch);
}
