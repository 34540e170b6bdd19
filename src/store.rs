use vstd::prelude::*;
use crate::record::{ChannelRecord, RecordView, fields_of, record_of_fields, views_of};

verus! {

/// Why the record store could not be written or read.
#[derive(Clone, Copy, Debug, PartialEq, Eq, Structural)]
pub enum StoreError {
    /// The bytes are not well-formed delimited text.
    Unparsable,
    /// The row at this position (counted from zero) is not a channel record.
    MalformedRow { index: usize },
    /// The file could not be opened, read, written or removed.
    Inaccessible,
}

/// The bytes that csv's writer produces for one record with these fields.
pub uninterp spec fn csv_record_bytes(fields: Seq<Seq<char>>) -> Seq<u8>;

/// The records, each a sequence of fields, that csv's reader finds in these
/// bytes when there is no header row; `None` where it reports an error.
pub uninterp spec fn csv_records(bytes: Seq<u8>) -> Option<Seq<Seq<Seq<char>>>>;

/// Relies on csv::Writer::write_record: the bytes written for one record into
/// an in-memory buffer, taken back with `into_inner`. A fresh writer's first
/// record always passes its field-count check, and writing into a `Vec` never
/// fails, so the bytes always come back.
#[verifier::external_body]
fn write_csv_record(fields: &Vec<String>) -> (r: Option<Vec<u8>>)
    ensures
        r is Some,
        r matches Some(b) ==> b@ == csv_record_bytes(fields.deep_view()),
{
    let mut writer = csv::Writer::from_writer(Vec::new());
    writer.write_record(fields).ok()?;
    writer.into_inner().ok()
}

/// Relies on csv::Reader::records, with no header row: every record of the
/// input in order, each as its fields; `None` where the reader reports an error.
#[verifier::external_body]
fn read_csv_records(bytes: &[u8]) -> (r: Option<Vec<Vec<String>>>)
    ensures
        r is Some <==> csv_records(bytes@) is Some,
        r matches Some(v) ==> csv_records(bytes@) == Some(v.deep_view()),
{
    let mut reader = csv::ReaderBuilder::new().has_headers(false).from_reader(bytes);
    reader
        .records()
        .map(|rec| rec.map(|fields| fields.iter().map(String::from).collect()))
        .collect::<Result<Vec<Vec<String>>, csv::Error>>()
        .ok()
}

/// The stored form of a sequence of records: one delimited row per record,
/// in order.
pub open spec fn encoding_of(rows: Seq<RecordView>) -> Seq<u8>
    decreases rows.len(),
{
    if rows.len() == 0 {
        Seq::empty()
    } else {
        encoding_of(rows.drop_last()) + csv_record_bytes(fields_of(rows.last()))
    }
}

/// The records that a sequence of delimited rows stands for, or the position
/// of the first row that stands for none.
pub open spec fn records_of_rows(rows: Seq<Seq<Seq<char>>>) -> Result<Seq<RecordView>, nat>
    decreases rows.len(),
{
    if rows.len() == 0 {
        Ok(Seq::empty())
    } else {
        match records_of_rows(rows.drop_last()) {
            Err(i) => Err(i),
            Ok(prefix) => match record_of_fields(rows.last()) {
                Some(rec) => Ok(prefix.push(rec)),
                None => Err((rows.len() - 1) as nat),
            },
        }
    }
}

/// What reading a stored file gives: its records in file order, or the error
/// that makes the whole read fail.
pub open spec fn stored_records(bytes: Seq<u8>) -> Result<Seq<RecordView>, StoreError> {
    match csv_records(bytes) {
        None => Err(StoreError::Unparsable),
        Some(rows) => match records_of_rows(rows) {
            Ok(recs) => Ok(recs),
            Err(i) => Err(StoreError::MalformedRow { index: i as usize }),
        },
    }
}

/// The bytes to append to a store so that it gains `rows`, in order.
pub fn encode_rows(rows: &Vec<ChannelRecord>) -> (r: Vec<u8>)
    ensures
        r@ == encoding_of(views_of(rows@)),
{
    let mut out: Vec<u8> = Vec::new();
    let mut i: usize = 0;
    while i < rows.len()
        invariant
            i <= rows.len(),
            out@ == encoding_of(views_of(rows@.subrange(0, i as int))),
        decreases rows.len() - i,
    {
        let fields = rows[i].to_fields();
        if let Some(mut bytes) = write_csv_record(&fields) {
            out.append(&mut bytes);
        }
        proof {
            let pre = views_of(rows@.subrange(0, i as int));
            let now = views_of(rows@.subrange(0, i + 1));
            assert(now.drop_last() =~= pre);
            assert(now.last() == rows@[i as int]@);
        }
        i = i + 1;
    }
    assert(rows@.subrange(0, rows.len() as int) =~= rows@);
    out
}

/// Reads every row of a stored file, in file order. A row that is not a
/// channel record fails the whole read.
pub fn decode_rows(bytes: &[u8]) -> (r: Result<Vec<ChannelRecord>, StoreError>)
    ensures
        r matches Ok(v) ==> stored_records(bytes@) == Ok::<Seq<RecordView>, StoreError>(views_of(v@)),
        r matches Err(e) ==> stored_records(bytes@) == Err::<Seq<RecordView>, StoreError>(e),
{
    let rows = match read_csv_records(bytes) {
        Some(rows) => rows,
        None => {
            return Err(StoreError::Unparsable);
        },
    };
    let ghost all = rows.deep_view();
    let mut out: Vec<ChannelRecord> = Vec::new();
    let mut i: usize = 0;
    assert(all.subrange(0, 0) =~= Seq::<Seq<Seq<char>>>::empty());
    assert(views_of(out@) =~= Seq::<RecordView>::empty());
    while i < rows.len()
        invariant
            i <= rows.len(),
            csv_records(bytes@) == Some(all),
            all == rows.deep_view(),
            records_of_rows(all.subrange(0, i as int)) == Ok::<Seq<RecordView>, nat>(views_of(out@)),
        decreases rows.len() - i,
    {
        let ghost pre = all.subrange(0, i as int);
        let ghost now = all.subrange(0, i + 1);
        assert(now.drop_last() =~= pre);
        assert(now.last() == rows@[i as int].deep_view());
        let ghost before = out@;
        match ChannelRecord::from_fields(&rows[i]) {
            Some(rec) => {
                let ghost rv = rec@;
                out.push(rec);
                assert(views_of(out@) =~= views_of(before).push(rv));
            },
            None => {
                proof {
                    assert(record_of_fields(now.last()) is None);
                    assert(records_of_rows(now.drop_last()) == Ok::<Seq<RecordView>, nat>(views_of(out@)));
                    assert(records_of_rows(now) == Err::<Seq<RecordView>, nat>(i as nat));
                    lemma_first_error_stays(all, (i + 1) as nat, i as nat);
                }
                return Err(StoreError::MalformedRow { index: i });
            },
        }
        i = i + 1;
    }
    assert(all.subrange(0, rows.len() as int) =~= all);
    Ok(out)
}

proof fn lemma_first_error_stays(rows: Seq<Seq<Seq<char>>>, n: nat, i: nat)
    requires
        n <= rows.len(),
        records_of_rows(rows.subrange(0, n as int)) == Err::<Seq<RecordView>, nat>(i),
    ensures
        records_of_rows(rows) == Err::<Seq<RecordView>, nat>(i),
    decreases rows.len() - n,
{
    if n < rows.len() {
        let next = rows.subrange(0, n as int + 1);
        assert(next.drop_last() =~= rows.subrange(0, n as int));
        lemma_first_error_stays(rows, n + 1, i);
    } else {
        assert(rows.subrange(0, n as int) =~= rows);
    }
}


/// Copies the committed store into a fresh staging file: the whole content
/// of the new file, holding every record read from `source`, unchanged and in
/// the same order. A source that cannot be read fails the copy with the read's
/// error.
pub fn stage(source: &[u8]) -> (r: Result<Vec<u8>, StoreError>)
    ensures
        match stored_records(source@) {
            Err(e) => r == Err::<Vec<u8>, StoreError>(e),
            Ok(recs) => r matches Ok(b) && b@ == encoding_of(recs),
        },
{
    let rows = decode_rows(source)?;
    Ok(encode_rows(&rows))
}

/// Storing two runs of records one after the other stores their
/// concatenation: the stored form of a sequence is the stored forms of its
/// parts, in order.
pub proof fn lemma_encoding_concat(a: Seq<RecordView>, b: Seq<RecordView>)
    ensures
        encoding_of(a + b) == encoding_of(a) + encoding_of(b),
    decreases b.len(),
{
    if b.len() == 0 {
        assert(a + b =~= a);
        assert(encoding_of(b) =~= Seq::<u8>::empty());
        assert(encoding_of(a) + encoding_of(b) =~= encoding_of(a));
    } else {
        lemma_encoding_concat(a, b.drop_last());
        assert((a + b).drop_last() =~= a + b.drop_last());
        assert((a + b).last() == b.last());
        assert(encoding_of(a + b) =~= encoding_of(a) + encoding_of(b));
    }
}

/// Appending no records leaves a store as it was.
pub proof fn lemma_append_nothing(store: Seq<u8>)
    ensures
        store + encoding_of(Seq::<RecordView>::empty()) == store,
{
    assert(store + encoding_of(Seq::<RecordView>::empty()) =~= store);
}

/// The store keeps no notion of rows already present: appending the same
/// records twice to a store leaves it holding those records twice over,
/// exactly as if the duplicated sequence had been appended once.
pub proof fn lemma_append_twice_duplicates(store: Seq<u8>, rows: Seq<RecordView>)
    ensures
        store + encoding_of(rows) + encoding_of(rows) == store + encoding_of(rows + rows),
{
    lemma_encoding_concat(rows, rows);
    assert(store + encoding_of(rows) + encoding_of(rows) =~= store + (encoding_of(rows) + encoding_of(rows)));
}

} // verus!
