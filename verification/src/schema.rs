//! The tabular record schema: a header derived from the core count observed
//! when a file is opened, and one flat row per sample, positionally matching
//! that header.

use crate::csvenc::csv_clean;
use crate::csvenc::encode_record;
use crate::csvenc::lemma_record_line_counts;
use crate::csvenc::record_line_spec;
use crate::text::dec_spec;
use crate::text::dec_u64;
use crate::text::digit_char;
use crate::text::pad2_spec;
use crate::text::pad4_spec;
use crate::timestamp::date_spec;
use crate::timestamp::time_spec;
use crate::timestamp::Timestamp;
use vstd::prelude::*;
use vstd::string::*;

verus! {

/// The four fixed column names that open every header.
pub open spec fn fixed_columns_spec() -> Seq<Seq<char>> {
    seq!["timestamp"@, "memory_used_mb"@, "memory_total_mb"@, "cpu_global_usage"@]
}

/// The name of the per-core column with index `i`: `cpu_core_<i>`.
pub open spec fn core_column_spec(i: nat) -> Seq<char> {
    "cpu_core_"@ + dec_spec(i)
}

/// The header of a file opened while `n` logical cores were observed: the
/// four fixed names followed by one core column per core, in core order.
pub open spec fn header_fields_spec(n: nat) -> Seq<Seq<char>> {
    fixed_columns_spec() + Seq::new(n, |i: int| core_column_spec(i as nat))
}

/// Builds the header fields for a file opened with `n` observed cores.
pub fn header_fields(n: usize) -> (r: Vec<String>)
    ensures
        r.deep_view() == header_fields_spec(n as nat),
        r@.len() == 4 + n,
{
    proof {
        reveal_strlit("timestamp");
        reveal_strlit("memory_used_mb");
        reveal_strlit("memory_total_mb");
        reveal_strlit("cpu_global_usage");
        reveal_strlit("cpu_core_");
    }
    let mut r: Vec<String> = Vec::new();
    r.push(String::from_str("timestamp"));
    r.push(String::from_str("memory_used_mb"));
    r.push(String::from_str("memory_total_mb"));
    r.push(String::from_str("cpu_global_usage"));
    proof {
        assert(r.deep_view() =~= fixed_columns_spec());
    }
    let mut i: usize = 0;
    while i < n
        invariant
            i <= n,
            r@.len() == 4 + i,
            forall|k: int| 0 <= k < r@.len() ==> (#[trigger] r@[k])@ == header_fields_spec(
                n as nat,
            )[k],
        decreases n - i,
    {
        proof {
            reveal_strlit("cpu_core_");
        }
        let mut name = String::from_str("cpu_core_");
        let digits = dec_u64(i as u64);
        name.append(digits.as_str());
        r.push(name);
        proof {
            assert(i as u64 as nat == i as nat);
            assert(digits@ == dec_spec(i as nat));
            assert(name@ =~= core_column_spec(i as nat));
            assert(header_fields_spec(n as nat)[4 + i] == core_column_spec(i as nat));
        }
        i = i + 1;
    }
    proof {
        assert(r.deep_view() =~= header_fields_spec(n as nat));
    }
    r
}

/// One point-in-time reading, carried as the row will show it: memory in
/// whole megabytes, CPU percentages as the texts the metrics reader handed
/// over, one per logical core in core order.
pub struct Sample {
    pub timestamp: Timestamp,
    pub memory_used_mb: u64,
    pub memory_total_mb: u64,
    pub cpu_global_usage: String,
    pub cpu_core_usage: Vec<String>,
}

impl Sample {
    /// The flat ordered row for this sample: four fixed fields, then one
    /// field per core, positionally matching the header.
    pub open spec fn row_fields_spec(self) -> Seq<Seq<char>> {
        seq![
            self.timestamp.row_text_spec(),
            dec_spec(self.memory_used_mb as nat),
            dec_spec(self.memory_total_mb as nat),
            self.cpu_global_usage@,
        ] + self.cpu_core_usage.deep_view()
    }

    /// Forms a sample from one raw reading: byte counts become whole
    /// megabytes by integer division; the CPU texts are taken as handed over.
    pub fn from_readings(
        timestamp: Timestamp,
        memory_used_bytes: u64,
        memory_total_bytes: u64,
        cpu_global_usage: String,
        cpu_core_usage: Vec<String>,
    ) -> (s: Sample)
        ensures
            s.timestamp == timestamp,
            s.memory_used_mb == memory_used_bytes / 1048576,
            s.memory_total_mb == memory_total_bytes / 1048576,
            s.cpu_global_usage == cpu_global_usage,
            s.cpu_core_usage == cpu_core_usage,
    {
        Sample {
            timestamp,
            memory_used_mb: memory_used_bytes / 1048576,
            memory_total_mb: memory_total_bytes / 1048576,
            cpu_global_usage,
            cpu_core_usage,
        }
    }

    /// Builds the row fields of this sample.
    pub fn row_fields(&self) -> (r: Vec<String>)
        requires
            self.timestamp.wf(),
        ensures
            r.deep_view() == self.row_fields_spec(),
            r@.len() == 4 + self.cpu_core_usage@.len(),
    {
        let mut r: Vec<String> = Vec::new();
        r.push(self.timestamp.row_text());
        r.push(dec_u64(self.memory_used_mb));
        r.push(dec_u64(self.memory_total_mb));
        r.push(self.cpu_global_usage.clone());
        let mut i: usize = 0;
        while i < self.cpu_core_usage.len()
            invariant
                i <= self.cpu_core_usage@.len(),
                r@.len() == 4 + i,
                forall|k: int| 0 <= k < r@.len() ==> (#[trigger] r@[k])@ == self.row_fields_spec()[k],
            decreases self.cpu_core_usage@.len() - i,
        {
            r.push(self.cpu_core_usage[i].clone());
            proof {
                assert(self.row_fields_spec()[4 + i] == self.cpu_core_usage.deep_view()[i as int]);
            }
            i = i + 1;
        }
        proof {
            assert(r.deep_view() =~= self.row_fields_spec());
        }
        r
    }

    /// Encodes this sample as one comma-separated line.
    pub fn row_line(&self) -> (r: String)
        requires
            self.timestamp.wf(),
        ensures
            r@ == record_line_spec(self.row_fields_spec()),
    {
        let fields = self.row_fields();
        encode_record(&fields)
    }
}

/// Every data row has exactly `4 + N` fields, where `N` is the number of
/// core-usage columns of the header written for the same core count: row and
/// header agree in arity whenever the sample holds one text per core.
pub proof fn lemma_row_matches_header(s: Sample, n: nat)
    requires
        s.cpu_core_usage@.len() == n,
    ensures
        s.row_fields_spec().len() == 4 + n,
        header_fields_spec(n).len() == 4 + n,
{
}

/// Under a non-degenerate reading, where the used byte count is at most the
/// total, the derived megabyte fields keep that order.
pub proof fn lemma_memory_fields_ordered(memory_used_bytes: u64, memory_total_bytes: u64)
    requires
        memory_used_bytes <= memory_total_bytes,
    ensures
        memory_used_bytes / 1048576 <= memory_total_bytes / 1048576,
{
    vstd::arithmetic::div_mod::lemma_div_is_ordered(
        memory_used_bytes as int,
        memory_total_bytes as int,
        1048576,
    );
}

/// Clean texts stay clean under concatenation.
pub proof fn lemma_clean_concat(a: Seq<char>, b: Seq<char>)
    requires
        csv_clean(a),
        csv_clean(b),
    ensures
        csv_clean(a + b),
{
    assert forall|i: int| 0 <= i < (a + b).len() implies (a + b)[i] != ',' && (a + b)[i] != '"'
        && (a + b)[i] != '\n' && (a + b)[i] != '\r' by {
        if i < a.len() {
            assert((a + b)[i] == a[i]);
        } else {
            assert((a + b)[i] == b[i - a.len()]);
        }
    }
}

/// Decimal digit characters are never reserved characters.
proof fn lemma_digit_char_clean(d: int)
    ensures
        digit_char(d) != ',',
        digit_char(d) != '"',
        digit_char(d) != '\n',
        digit_char(d) != '\r',
{
}

/// Decimal renderings are clean fields.
pub proof fn lemma_dec_clean(n: nat)
    ensures
        csv_clean(dec_spec(n)),
    decreases n,
{
    if n < 10 {
        lemma_digit_char_clean(n as int);
    } else {
        lemma_dec_clean(n / 10);
        lemma_digit_char_clean((n % 10) as int);
        assert(csv_clean(dec_spec(n))) by {
            assert forall|i: int| 0 <= i < dec_spec(n).len() implies dec_spec(n)[i] != ','
                && dec_spec(n)[i] != '"' && dec_spec(n)[i] != '\n' && dec_spec(n)[i] != '\r' by {
                if i < dec_spec(n / 10).len() {
                    assert(dec_spec(n)[i] == dec_spec(n / 10)[i]);
                }
            }
        }
    }
}

proof fn lemma_pad2_clean(n: int)
    ensures
        csv_clean(pad2_spec(n)),
{
    lemma_digit_char_clean(n / 10);
    lemma_digit_char_clean(n % 10);
}

proof fn lemma_pad4_clean(n: int)
    ensures
        csv_clean(pad4_spec(n)),
{
    lemma_pad2_clean(n / 100);
    lemma_pad2_clean(n % 100);
    lemma_clean_concat(pad2_spec(n / 100), pad2_spec(n % 100));
}

/// The row timestamp text is a clean field.
pub proof fn lemma_row_text_clean(t: Timestamp)
    ensures
        csv_clean(t.row_text_spec()),
{
    let y = t.year as int;
    let mo = t.month as int;
    let d = t.day as int;
    lemma_pad4_clean(y);
    lemma_pad2_clean(mo);
    lemma_pad2_clean(d);
    lemma_pad2_clean(t.hour as int);
    lemma_pad2_clean(t.minute as int);
    lemma_pad2_clean(t.second as int);
    lemma_clean_concat(pad4_spec(y), seq!['-']);
    lemma_clean_concat(pad4_spec(y) + seq!['-'], pad2_spec(mo));
    lemma_clean_concat(pad4_spec(y) + seq!['-'] + pad2_spec(mo), seq!['-']);
    lemma_clean_concat(pad4_spec(y) + seq!['-'] + pad2_spec(mo) + seq!['-'], pad2_spec(d));
    assert(csv_clean(date_spec(y, mo, d)));
    lemma_clean_concat(pad2_spec(t.hour as int), seq![':']);
    lemma_clean_concat(pad2_spec(t.hour as int) + seq![':'], pad2_spec(t.minute as int));
    lemma_clean_concat(
        pad2_spec(t.hour as int) + seq![':'] + pad2_spec(t.minute as int),
        seq![':'],
    );
    lemma_clean_concat(
        pad2_spec(t.hour as int) + seq![':'] + pad2_spec(t.minute as int) + seq![':'],
        pad2_spec(t.second as int),
    );
    assert(csv_clean(time_spec(t.hour as int, t.minute as int, t.second as int, ':')));
    lemma_clean_concat(date_spec(y, mo, d), seq!['T']);
    lemma_clean_concat(
        date_spec(y, mo, d) + seq!['T'],
        time_spec(t.hour as int, t.minute as int, t.second as int, ':'),
    );
}

/// Every field of a header is clean.
pub proof fn lemma_header_fields_clean(n: nat)
    ensures
        forall|i: int| 0 <= i < header_fields_spec(n).len() ==> csv_clean(
            #[trigger] header_fields_spec(n)[i],
        ),
{
    reveal_strlit("timestamp");
    reveal_strlit("memory_used_mb");
    reveal_strlit("memory_total_mb");
    reveal_strlit("cpu_global_usage");
    reveal_strlit("cpu_core_");
    assert forall|i: int| 0 <= i < header_fields_spec(n).len() implies csv_clean(
        #[trigger] header_fields_spec(n)[i],
    ) by {
        if i < 4 {
            assert(csv_clean("timestamp"@));
            assert(csv_clean("memory_used_mb"@));
            assert(csv_clean("memory_total_mb"@));
            assert(csv_clean("cpu_global_usage"@));
        } else {
            let k = (i - 4) as nat;
            assert(header_fields_spec(n)[i] == core_column_spec(k));
            assert(csv_clean("cpu_core_"@));
            lemma_dec_clean(k);
            lemma_clean_concat("cpu_core_"@, dec_spec(k));
        }
    }
}

/// The header line of a file with `N` core columns, and every data row whose
/// per-core texts are clean, carry exactly `4 + N` fields on the wire:
/// `3 + N` commas and a single closing newline each.
pub proof fn lemma_line_shapes(s: Sample, n: nat)
    requires
        s.cpu_core_usage@.len() == n,
        csv_clean(s.cpu_global_usage@),
        forall|i: int| 0 <= i < s.cpu_core_usage@.len() ==> csv_clean(
            (#[trigger] s.cpu_core_usage@[i])@,
        ),
    ensures
        crate::csvenc::count_char(record_line_spec(header_fields_spec(n)), ',') == 3 + n,
        crate::csvenc::count_char(record_line_spec(header_fields_spec(n)), '\n') == 1,
        crate::csvenc::count_char(record_line_spec(s.row_fields_spec()), ',') == 3 + n,
        crate::csvenc::count_char(record_line_spec(s.row_fields_spec()), '\n') == 1,
{
    lemma_header_fields_clean(n);
    lemma_record_line_counts(header_fields_spec(n));
    assert forall|i: int| 0 <= i < s.row_fields_spec().len() implies csv_clean(
        #[trigger] s.row_fields_spec()[i],
    ) by {
        if i == 0 {
            lemma_row_text_clean(s.timestamp);
        } else if i == 1 {
            lemma_dec_clean(s.memory_used_mb as nat);
        } else if i == 2 {
            lemma_dec_clean(s.memory_total_mb as nat);
        } else if i == 3 {
            assert(csv_clean(s.cpu_global_usage@));
        } else {
            assert(s.row_fields_spec()[i] == s.cpu_core_usage.deep_view()[i - 4]);
        }
    }
    lemma_record_line_counts(s.row_fields_spec());
}

} // verus!
