//! Consumed Kafka messages as a columnar record batch.

use vstd::prelude::*;
use vstd::string::StringSliceAdditionalSpecFns;
use arrow_array::RecordBatch;

verus! {

/// A message read back from Kafka: its id and its value.
pub struct KafkaConsumerMessage {
    pub id: i64,
    pub val: String,
}

/// An arrow record batch of an `Int64` column and a `Utf8` column. The batch
/// is opaque to proofs: its contents are given by `batch_rows` and
/// `batch_fields`.
#[verifier::external_body]
pub struct MessageBatch {
    pub batch: RecordBatch,
}

/// The rows that a batch holds, each as the pair of its two values.
pub uninterp spec fn batch_rows(b: MessageBatch) -> Seq<(i64, Seq<char>)>;

/// The fields of a batch's schema, in order: each field's name, its data type
/// as arrow's `DataType` displays it, and whether it is nullable.
pub uninterp spec fn batch_fields(b: MessageBatch) -> Seq<(Seq<char>, Seq<char>, bool)>;

/// The number of bytes of the UTF-8 encodings of `texts` together.
pub open spec fn total_utf8_len(texts: Seq<Seq<char>>) -> nat
    decreases texts.len(),
{
    if texts.len() == 0 {
        0
    } else {
        total_utf8_len(texts.drop_last()) + vstd::utf8::encode_utf8(texts.last()).len()
    }
}

/// The largest number of value bytes that a `StringArray` can hold: its
/// offsets are `i32`.
pub open spec fn string_array_capacity() -> nat {
    i32::MAX as nat
}

/// Builds, with `RecordBatch::try_new`, a record batch of two non-nullable
/// columns: an `Int64Array` named `id_field` holding `ids` and a `StringArray`
/// named `val_field` holding `vals`. Its contract claims that the batch's
/// fields are so named, typed `Int64` and `Utf8` and not nullable, and that
/// its rows pair the two columns position by position. `StringArray::from`
/// panics when the values exceed `i32::MAX` bytes together, which `requires`
/// leaves out; the columns have the same length, so `try_new` succeeds.
#[verifier::external_body]
fn batch_from_columns(id_field: &str, ids: Vec<i64>, val_field: &str, vals: Vec<String>) -> (b: MessageBatch)
    requires
        ids@.len() == vals@.len(),
        total_utf8_len(vals@.map_values(|v: String| v@)) <= string_array_capacity(),
    ensures
        batch_fields(b) == seq![(id_field@, "Int64"@, false), (val_field@, "Utf8"@, false)],
        batch_rows(b) == Seq::new(ids@.len(), |i: int| (ids@[i], vals@[i]@)),
{
    let schema = arrow::datatypes::Schema::new(vec![
        arrow::datatypes::Field::new(id_field, arrow::datatypes::DataType::Int64, false),
        arrow::datatypes::Field::new(val_field, arrow::datatypes::DataType::Utf8, false),
    ]);
    let id_column: arrow_array::ArrayRef = std::sync::Arc::new(arrow_array::Int64Array::from(ids));
    let val_column: arrow_array::ArrayRef = std::sync::Arc::new(arrow_array::StringArray::from(vals));
    MessageBatch {
        batch: RecordBatch::try_new(std::sync::Arc::new(schema), vec![id_column, val_column]).unwrap(),
    }
}

/// The row of a consumed message: its id and its value.
pub open spec fn message_row(m: KafkaConsumerMessage) -> (i64, Seq<char>) {
    (m.id, m.val@)
}

/// A message's row keeps its full id and its value.
pub proof fn lemma_message_row_keeps_fields(m: KafkaConsumerMessage)
    ensures
        message_row(m).0 == m.id,
        message_row(m).1 == m.val@,
{
}

/// The values of the messages `list`, in order.
pub open spec fn message_values(list: Seq<KafkaConsumerMessage>) -> Seq<Seq<char>> {
    list.map_values(|m: KafkaConsumerMessage| m.val@)
}

/// Whether the values of `list` fit a `StringArray` together, as
/// `get_record_batch` requires.
pub fn values_fit(list: &Vec<KafkaConsumerMessage>) -> (b: bool)
    ensures
        b == (total_utf8_len(message_values(list@)) <= string_array_capacity()),
{
    let n = list.len();
    let mut total: usize = 0;
    let cap: usize = 2147483647;
    for i in 0..n
        invariant
            n == list@.len(),
            cap == string_array_capacity(),
            total <= cap,
            total == total_utf8_len(message_values(list@).take(i as int)),
    {
        let text = list[i].val.as_str();
        let len = text.as_bytes().len();
        proof {
            assert(text@ == list@[i as int].val@);
            assert(len == text.spec_bytes().len());
            let vs = message_values(list@);
            assert(vs.take(i + 1).drop_last() =~= vs.take(i as int));
            assert(vs.take(i + 1).last() == list@[i as int].val@);
            assert(len == vstd::utf8::encode_utf8(list@[i as int].val@).len());
            assert(total_utf8_len(vs.take(i + 1)) == total + len);
            lemma_total_utf8_len_monotone(vs, i + 1);
        }
        if len > cap - total {
            return false;
        }
        total = total + len;
    }
    assert(message_values(list@).take(n as int) =~= message_values(list@));
    true
}

proof fn lemma_total_utf8_len_monotone(texts: Seq<Seq<char>>, k: int)
    requires
        0 <= k <= texts.len(),
    ensures
        total_utf8_len(texts.take(k)) <= total_utf8_len(texts),
    decreases texts.len() - k,
{
    if k < texts.len() {
        lemma_total_utf8_len_monotone(texts, k + 1);
        assert(texts.take(k + 1).drop_last() =~= texts.take(k));
    } else {
        assert(texts.take(k) =~= texts);
    }
}

/// The record batch of `list`: a non-nullable `Int64` column `id` of the ids
/// and a non-nullable `Utf8` column `val` of the values, one row per message,
/// in order. The values must fit a `StringArray` together.
pub fn get_record_batch(list: Vec<KafkaConsumerMessage>) -> (b: MessageBatch)
    requires
        total_utf8_len(message_values(list@)) <= string_array_capacity(),
    ensures
        batch_fields(b) == seq![("id"@, "Int64"@, false), ("val"@, "Utf8"@, false)],
        batch_rows(b) == list@.map_values(|m: KafkaConsumerMessage| message_row(m)),
        batch_rows(b).len() == list@.len(),
        forall|i: int| 0 <= i < list@.len() ==> #[trigger] batch_rows(b)[i].0 == list@[i].id
            && batch_rows(b)[i].1 == list@[i].val@,
{
    let n = list.len();
    let mut ids: Vec<i64> = Vec::new();
    let mut vals: Vec<String> = Vec::new();
    for i in 0..n
        invariant
            n == list@.len(),
            ids@.len() == i,
            vals@.len() == i,
            forall|j: int| 0 <= j < i ==> #[trigger] ids@[j] == list@[j].id,
            forall|j: int| 0 <= j < i ==> (#[trigger] vals@[j])@ == list@[j].val@,
    {
        ids.push(list[i].id);
        vals.push(list[i].val.clone());
    }
    assert(vals@.map_values(|v: String| v@) =~= message_values(list@));
    let b = batch_from_columns("id", ids, "val", vals);
    assert(batch_rows(b) =~= list@.map_values(|m: KafkaConsumerMessage| message_row(m)));
    b
}

/// The rows of the batch of two lists one after the other are the rows of the
/// batch of the first followed by the rows of the batch of the second.
pub proof fn lemma_rows_of_concatenation(a: Seq<KafkaConsumerMessage>, b: Seq<KafkaConsumerMessage>)
    ensures
        (a + b).map_values(|m: KafkaConsumerMessage| message_row(m)) == a.map_values(
            |m: KafkaConsumerMessage| message_row(m),
        ) + b.map_values(|m: KafkaConsumerMessage| message_row(m)),
{
    assert((a + b).map_values(|m: KafkaConsumerMessage| message_row(m)) =~= a.map_values(
        |m: KafkaConsumerMessage| message_row(m),
    ) + b.map_values(|m: KafkaConsumerMessage| message_row(m)));
}

} // verus!
