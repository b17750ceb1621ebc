//! A model of one log file's contents: the records written into it, header
//! first, then one data row per sample, in write order. The surrounding
//! process appends exactly the lines this model hands out, so the model is
//! the file.

use crate::csvenc::encode_record;
use crate::csvenc::record_line_spec;
use crate::schema::header_fields;
use crate::schema::header_fields_spec;
use crate::schema::Sample;
use vstd::prelude::*;
use vstd::string::*;

verus! {

/// The text of a whole file: each record encoded as its line, in order.
pub open spec fn lines_text_spec(rs: Seq<Seq<Seq<char>>>) -> Seq<char>
    decreases rs.len(),
{
    if rs.len() == 0 {
        Seq::empty()
    } else {
        record_line_spec(rs.first()) + lines_text_spec(rs.drop_first())
    }
}

proof fn lemma_lines_text_push(rs: Seq<Seq<Seq<char>>>, r: Seq<Seq<char>>)
    ensures
        lines_text_spec(rs.push(r)) == lines_text_spec(rs) + record_line_spec(r),
    decreases rs.len(),
{
    if rs.len() == 0 {
        assert(rs.push(r).first() == r);
        assert(rs.push(r).drop_first() =~= Seq::<Seq<Seq<char>>>::empty());
        assert(lines_text_spec(Seq::<Seq<Seq<char>>>::empty()) =~= Seq::<char>::empty());
        assert(lines_text_spec(rs.push(r)) =~= lines_text_spec(rs) + record_line_spec(r));
    } else {
        lemma_lines_text_push(rs.drop_first(), r);
        assert(rs.push(r).drop_first() =~= rs.drop_first().push(r));
        assert(rs.push(r).first() == rs.first());
        assert(lines_text_spec(rs.push(r)) =~= lines_text_spec(rs) + record_line_spec(r));
    }
}

/// One log file while it is the active one: created on rotation (or at
/// startup), appended to while active, never reopened afterwards.
pub struct LogFile {
    /// The number of core-usage columns, fixed when the file was opened.
    pub core_count: usize,
    /// Every record of the file, the header first, in write order.
    pub records: Vec<Vec<String>>,
}

impl LogFile {
    /// A file always opens with its header as the first record, written once;
    /// every later record is a data row of the arity the header fixed.
    pub open spec fn wf(self) -> bool {
        &&& self.records@.len() >= 1
        &&& self.records@[0].deep_view() == header_fields_spec(self.core_count as nat)
        &&& forall|i: int|
            1 <= i < self.records@.len() ==> (#[trigger] self.records@[i])@.len() == 4
                + self.core_count
    }

    /// Opens the model of a new file for `core_count` observed cores: the
    /// header is its sole record, written before any data row. Hands back the
    /// header line, the first and only line to write at open.
    pub fn open(core_count: usize) -> (r: (LogFile, String))
        ensures
            r.0.wf(),
            r.0.core_count == core_count,
            r.0.records@.len() == 1,
            r.1@ == record_line_spec(header_fields_spec(core_count as nat)),
            r.0.text_spec() == r.1@,
    {
        let header = header_fields(core_count);
        let line = encode_record(&header);
        let mut records: Vec<Vec<String>> = Vec::new();
        records.push(header);
        let file = LogFile { core_count, records };
        proof {
            assert(file.records.deep_view() =~= seq![
                header_fields_spec(core_count as nat),
            ]);
            assert(file.records.deep_view().drop_first() =~= Seq::<Seq<Seq<char>>>::empty());
            assert(lines_text_spec(Seq::<Seq<Seq<char>>>::empty()) =~= Seq::<char>::empty());
            assert(file.text_spec() =~= line@);
        }
        (file, line)
    }

    /// Appends one sample's row: the record list only grows, and the header
    /// stays first and untouched. Hands back the encoded row line, the one
    /// line to append to the file. The row never equals the header record,
    /// so the header stays the file's single header line.
    pub fn append(&mut self, sample: &Sample) -> (line: String)
        requires
            old(self).wf(),
            sample.timestamp.wf(),
            sample.cpu_core_usage@.len() == old(self).core_count,
        ensures
            final(self).wf(),
            final(self).core_count == old(self).core_count,
            final(self).records@.len() == old(self).records@.len() + 1,
            forall|i: int|
                0 <= i < old(self).records@.len() ==> final(self).records@[i] == old(
                    self,
                ).records@[i],
            final(self).records@.last().deep_view() == sample.row_fields_spec(),
            final(self).records@.last().deep_view() != header_fields_spec(
                old(self).core_count as nat,
            ),
            line@ == record_line_spec(sample.row_fields_spec()),
            final(self).text_spec() == old(self).text_spec() + line@,
    {
        let row = sample.row_fields();
        let line = encode_record(&row);
        proof {
            reveal_strlit("timestamp");
            assert(sample.row_fields_spec()[0] == sample.timestamp.row_text_spec());
            assert(sample.timestamp.row_text_spec().len() == 19);
            assert(header_fields_spec(old(self).core_count as nat)[0] == "timestamp"@);
            assert("timestamp"@.len() == 9);
        }
        self.records.push(row);
        proof {
            assert(self.records.deep_view() =~= old(self).records.deep_view().push(
                sample.row_fields_spec(),
            ));
            lemma_lines_text_push(old(self).records.deep_view(), sample.row_fields_spec());
        }
        line
    }

    /// The text of the whole file as written so far.
    pub open spec fn text_spec(self) -> Seq<char> {
        lines_text_spec(self.records.deep_view())
    }

    /// Renders the whole file's text: what a reader of the finished file
    /// sees, the header line first, then the rows in write order.
    pub fn render(&self) -> (r: String)
        ensures
            r@ == self.text_spec(),
    {
        let mut r = String::new();
        let mut i: usize = 0;
        proof {
            assert(lines_text_spec(self.records.deep_view().take(0)) =~= Seq::<char>::empty());
        }
        while i < self.records.len()
            invariant
                i <= self.records@.len(),
                r@ == lines_text_spec(self.records.deep_view().take(i as int)),
            decreases self.records@.len() - i,
        {
            let line = encode_record(&self.records[i]);
            r.append(line.as_str());
            proof {
                lemma_lines_text_push(
                    self.records.deep_view().take(i as int),
                    self.records.deep_view()[i as int],
                );
                assert(self.records.deep_view().take(i as int).push(
                    self.records.deep_view()[i as int],
                ) =~= self.records.deep_view().take(i as int + 1));
                assert(self.records@[i as int].deep_view() == self.records.deep_view()[i as int]);
            }
            i = i + 1;
        }
        proof {
            assert(self.records.deep_view().take(self.records@.len() as int) =~= self
                .records
                .deep_view());
        }
        r
    }
}

/// The header is always the first record of a well-formed file, and every
/// data row of the file has exactly the `4 + N` fields its header fixed, `N`
/// its number of core-usage columns.
pub proof fn lemma_header_first_rows_match(f: LogFile)
    requires
        f.wf(),
    ensures
        f.records@.len() >= 1,
        f.records@[0].deep_view() == header_fields_spec(f.core_count as nat),
        header_fields_spec(f.core_count as nat).len() == 4 + f.core_count,
        forall|i: int|
            1 <= i < f.records@.len() ==> (#[trigger] f.records@[i])@.len()
                == header_fields_spec(f.core_count as nat).len(),
{
}

} // verus!
