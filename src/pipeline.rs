//! The extraction pipeline's bookkeeping: the order in which nodes are
//! extracted, the tally of what each extraction gave, and the output table.
use vstd::prelude::*;
use vstd::string::StringExecFns;
use crate::records::ContentRecord;

verus! {

/// Milliseconds to pause between the nodes of an extraction run.
pub const NODE_PAUSE_MILLIS: u64 = 1500;

/// The depth to which a run traverses below its root.
pub const MAX_TRAVERSAL_DEPTH: usize = 5;

/// The nodes to extract, in order: every descendant the traversal found, then
/// the root itself, which can carry content of its own.
pub fn extraction_order(found: &Vec<String>, root: &String) -> (r: Vec<String>)
    ensures
        r@.map_values(|s: String| s@) == found@.map_values(|s: String| s@).push(root@),
{
    let mut out: Vec<String> = Vec::new();
    let mut i: usize = 0;
    while i < found.len()
        invariant
            i <= found.len(),
            out.len() == i,
            forall|k: int| 0 <= k < i ==> #[trigger] out[k]@ == found[k]@,
        decreases found.len() - i,
    {
        out.push(found[i].clone());
        i = i + 1;
    }
    out.push(root.clone());
    assert(out@.map_values(|s: String| s@) =~= found@.map_values(|s: String| s@).push(root@));
    out
}

/// What a run has gathered: the records, the nodes that gave some, and the
/// nodes whose extraction failed.
pub struct Tally {
    pub records: Vec<ContentRecord>,
    pub successful: usize,
    pub failed: usize,
}

impl Tally {
    pub fn new() -> (r: Tally)
        ensures
            r.records.len() == 0,
            r.successful == 0,
            r.failed == 0,
    {
        Tally { records: Vec::new(), successful: 0, failed: 0 }
    }

    /// Takes in one node's extraction: its records, which count it as a
    /// success when there are any, or its error, which counts it as failed.
    /// A node with no records counts as neither.
    pub fn record(&mut self, outcome: Result<Vec<ContentRecord>, String>)
        requires
            old(self).successful < usize::MAX,
            old(self).failed < usize::MAX,
        ensures
            match outcome {
                Ok(recs) => {
                    &&& final(self).records@ == old(self).records@ + recs@
                    &&& final(self).successful == old(self).successful + if recs.len() > 0 {
                        1int
                    } else {
                        0int
                    }
                    &&& final(self).failed == old(self).failed
                },
                Err(_) => {
                    &&& final(self).records@ == old(self).records@
                    &&& final(self).successful == old(self).successful
                    &&& final(self).failed == old(self).failed + 1
                },
            },
    {
        match outcome {
            Ok(mut recs) => {
                if recs.len() > 0 {
                    self.successful = self.successful + 1;
                }
                self.records.append(&mut recs);
            },
            Err(_) => {
                self.failed = self.failed + 1;
            },
        }
    }
}

/// The output table's header, in column order.
pub open spec fn header_spec() -> Seq<Seq<char>> {
    seq![
        "Source Node"@,
        "Breadcrumb Path"@,
        "Content Type"@,
        "URL"@,
        "Title"@,
        "Author"@,
        "File Type"@,
        "Size"@,
        "URL Valid"@,
    ]
}

/// A record's row in the output table, in column order.
pub open spec fn row_spec(rec: ContentRecord) -> Seq<Seq<char>> {
    seq![
        rec.source_node@,
        rec.breadcrumb_path@,
        rec.kind.label_spec(),
        rec.url@,
        rec.title@,
        rec.author@,
        rec.file_type@,
        rec.size@,
        rec.url_valid.label_spec(),
    ]
}

/// The output table's header.
pub fn header_row() -> (r: Vec<String>)
    ensures
        r.deep_view() == header_spec(),
{
    let r = vec![
        String::from_str("Source Node"),
        String::from_str("Breadcrumb Path"),
        String::from_str("Content Type"),
        String::from_str("URL"),
        String::from_str("Title"),
        String::from_str("Author"),
        String::from_str("File Type"),
        String::from_str("Size"),
        String::from_str("URL Valid"),
    ];
    assert(r.deep_view() =~= header_spec());
    r
}

/// A record's row in the output table.
pub fn record_row(rec: &ContentRecord) -> (r: Vec<String>)
    ensures
        r.deep_view() == row_spec(*rec),
{
    let r = vec![
        rec.source_node.clone(),
        rec.breadcrumb_path.clone(),
        rec.kind.label(),
        rec.url.clone(),
        rec.title.clone(),
        rec.author.clone(),
        rec.file_type.clone(),
        rec.size.clone(),
        rec.url_valid.label(),
    ];
    assert(r.deep_view() =~= row_spec(*rec));
    r
}

/// The whole output table: the header, then one row per record, in order.
pub fn table_rows(records: &Vec<ContentRecord>) -> (r: Vec<Vec<String>>)
    ensures
        r.len() == records.len() + 1,
        r[0].deep_view() == header_spec(),
        forall|i: int| 0 <= i < records.len() ==> #[trigger] r[i + 1].deep_view() == row_spec(records[i]),
{
    let mut out: Vec<Vec<String>> = Vec::new();
    out.push(header_row());
    let mut i: usize = 0;
    while i < records.len()
        invariant
            i <= records.len(),
            out.len() == i + 1,
            out[0].deep_view() == header_spec(),
            forall|k: int| 0 <= k < i ==> #[trigger] out[k + 1].deep_view() == row_spec(records[k]),
        decreases records.len() - i,
    {
        let row = record_row(&records[i]);
        let ghost before = out@;
        out.push(row);
        proof {
            assert forall|k: int| 0 <= k < i + 1 implies #[trigger] out[k + 1].deep_view()
                == row_spec(records[k]) by {
                if k < i {
                    assert(out@[k + 1] == before[k + 1]);
                }
            }
        }
        i = i + 1;
    }
    out
}

/// The output table of `records`: the header, then one row per record.
pub open spec fn table_spec(records: Seq<ContentRecord>) -> Seq<Seq<Seq<char>>> {
    seq![header_spec()] + records.map_values(|rec: ContentRecord| row_spec(rec))
}

/// The bytes that the csv crate writes for one record made of `fields`.
pub uninterp spec fn csv_line_of(fields: Seq<Seq<char>>) -> Seq<u8>;

/// The CSV text of `rows`: each row's line, in order.
pub open spec fn csv_text(rows: Seq<Seq<Seq<char>>>) -> Seq<u8>
    decreases rows.len(),
{
    if rows.len() == 0 {
        Seq::empty()
    } else {
        csv_text(rows.drop_last()) + csv_line_of(rows.last())
    }
}

/// Relies on the csv crate's `Writer` (`from_writer` over a `Vec<u8>`,
/// `write_record`, `into_inner`) to encode one record with the default
/// settings: quoting as needed, a line terminator after it. Over a `Vec` the
/// writes cannot fail, and a fresh writer has no earlier record whose length
/// the new one could disagree with, so the encoding always succeeds.
#[verifier::external_body]
fn csv_line(fields: &Vec<String>) -> (r: Option<Vec<u8>>)
    ensures
        r is Some,
        r matches Some(b) ==> b@ == csv_line_of(fields.deep_view()),
{
    let mut w = csv::Writer::from_writer(Vec::new());
    w.write_record(fields).ok()?;
    w.into_inner().ok()
}

/// The CSV text of `rows`.
pub fn encode_rows(rows: &Vec<Vec<String>>) -> (r: Vec<u8>)
    ensures
        r@ == csv_text(rows.deep_view()),
{
    let mut out: Vec<u8> = Vec::new();
    let mut i: usize = 0;
    while i < rows.len()
        invariant
            i <= rows.len(),
            out@ == csv_text(rows.deep_view().subrange(0, i as int)),
        decreases rows.len() - i,
    {
        let mut line = csv_line(&rows[i]).unwrap();
        proof {
            assert(rows.deep_view().subrange(0, i + 1).drop_last() =~= rows.deep_view().subrange(
                0,
                i as int,
            ));
        }
        out.append(&mut line);
        i = i + 1;
    }
    assert(rows.deep_view().subrange(0, rows.len() as int) =~= rows.deep_view());
    out
}

/// The output file's contents for `records`: the header line, then one line
/// per record in order.
pub fn encode_table(records: &Vec<ContentRecord>) -> (r: Vec<u8>)
    ensures
        r@ == csv_text(table_spec(records@)),
{
    let rows = table_rows(records);
    assert(rows.deep_view() =~= table_spec(records@)) by {
        assert forall|i: int| 0 <= i < rows.len() implies #[trigger] rows.deep_view()[i]
            == table_spec(records@)[i] by {
            if i > 0 {
                assert(rows[(i - 1) + 1].deep_view() == row_spec(records[i - 1]));
            }
        }
    }
    encode_rows(&rows)
}

/// The table written for a run holds exactly one header row, first, then one
/// row per record, in the records' order and in the fixed column order.
pub proof fn lemma_table_shape(records: Seq<ContentRecord>)
    ensures
        table_spec(records).len() == records.len() + 1,
        table_spec(records)[0] == header_spec(),
        forall|i: int|
            0 <= i < records.len() ==> #[trigger] table_spec(records)[i + 1] == row_spec(
                records[i],
            ),
{
}

} // verus!
