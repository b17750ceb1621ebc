//! Wall-clock instants at second precision, and their two fixed-width text
//! forms: the row timestamp and the colon-free stamp inside a log-file name.

use crate::text::lemma_pad2_injective;
use crate::text::lemma_pad4_injective;
use crate::text::pad2;
use crate::text::pad2_spec;
use crate::text::pad4;
use crate::text::pad4_spec;
use chrono::Datelike;
use chrono::Timelike;
use vstd::prelude::*;
use vstd::string::*;

verus! {

/// One wall-clock instant, second precision, as plain calendar fields
/// (local time; the clock supplies them).
#[derive(Clone, Copy, PartialEq, Eq, Structural, Debug)]
pub struct Timestamp {
    pub year: u32,
    pub month: u32,
    pub day: u32,
    pub hour: u32,
    pub minute: u32,
    pub second: u32,
}

/// `YYYY-MM-DD` for a date within rendering range.
pub open spec fn date_spec(y: int, mo: int, d: int) -> Seq<char> {
    pad4_spec(y) + seq!['-'] + pad2_spec(mo) + seq!['-'] + pad2_spec(d)
}

/// `HH<sep>MM<sep>SS`.
pub open spec fn time_spec(h: int, mi: int, s: int, sep: char) -> Seq<char> {
    pad2_spec(h) + seq![sep] + pad2_spec(mi) + seq![sep] + pad2_spec(s)
}

impl Timestamp {
    /// Field ranges under which the fixed-width rendering is faithful.
    pub open spec fn wf(self) -> bool {
        &&& self.year < 10000
        &&& 1 <= self.month <= 12
        &&& 1 <= self.day <= 31
        &&& self.hour < 24
        &&& self.minute < 60
        &&& self.second < 60
    }

    /// The timestamp field of a data row: `YYYY-MM-DDTHH:MM:SS`.
    pub open spec fn row_text_spec(self) -> Seq<char> {
        date_spec(self.year as int, self.month as int, self.day as int) + seq!['T'] + time_spec(
            self.hour as int,
            self.minute as int,
            self.second as int,
            ':',
        )
    }

    /// The filesystem-safe stamp: `YYYY-MM-DD_HH-MM-SS`.
    pub open spec fn file_stamp_spec(self) -> Seq<char> {
        date_spec(self.year as int, self.month as int, self.day as int) + seq!['_'] + time_spec(
            self.hour as int,
            self.minute as int,
            self.second as int,
            '-',
        )
    }

    /// The name of a log file opened at this instant.
    pub open spec fn file_name_spec(self) -> Seq<char> {
        "device_metrics_"@ + self.file_stamp_spec() + ".csv"@
    }

    /// Renders the row timestamp field.
    pub fn row_text(&self) -> (r: String)
        requires
            self.wf(),
        ensures
            r@ == self.row_text_spec(),
    {
        proof {
            reveal_strlit("-");
            reveal_strlit("T");
            reveal_strlit(":");
        }
        let mut r = pad4(self.year as u64);
        r.append("-");
        let mo = pad2(self.month as u64);
        r.append(mo.as_str());
        r.append("-");
        let d = pad2(self.day as u64);
        r.append(d.as_str());
        r.append("T");
        let h = pad2(self.hour as u64);
        r.append(h.as_str());
        r.append(":");
        let mi = pad2(self.minute as u64);
        r.append(mi.as_str());
        r.append(":");
        let s = pad2(self.second as u64);
        r.append(s.as_str());
        proof {
            assert(r@ =~= self.row_text_spec());
        }
        r
    }

    /// Renders the log-file name for a file opened at this instant.
    pub fn file_name(&self) -> (r: String)
        requires
            self.wf(),
        ensures
            r@ == self.file_name_spec(),
    {
        proof {
            reveal_strlit("device_metrics_");
            reveal_strlit(".csv");
            reveal_strlit("-");
            reveal_strlit("_");
        }
        let mut r = String::from_str("device_metrics_");
        let y = pad4(self.year as u64);
        r.append(y.as_str());
        r.append("-");
        let mo = pad2(self.month as u64);
        r.append(mo.as_str());
        r.append("-");
        let d = pad2(self.day as u64);
        r.append(d.as_str());
        r.append("_");
        let h = pad2(self.hour as u64);
        r.append(h.as_str());
        r.append("-");
        let mi = pad2(self.minute as u64);
        r.append(mi.as_str());
        r.append("-");
        let s = pad2(self.second as u64);
        r.append(s.as_str());
        r.append(".csv");
        proof {
            assert(r@ =~= self.file_name_spec());
        }
        r
    }

    /// Accepts or rejects one clock reading: the reading is accepted exactly
    /// when the year fits the four-digit rendering, and an accepted reading
    /// is carried over field for field.
    pub fn from_clock(
        year: i32,
        month: u32,
        day: u32,
        hour: u32,
        minute: u32,
        second: u32,
    ) -> (r: Option<Timestamp>)
        requires
            1 <= month <= 12,
            1 <= day <= 31,
            hour < 24,
            minute < 60,
            second < 60,
        ensures
            r is Some <==> 0 <= year < 10000,
            r is Some ==> r->Some_0 == (Timestamp {
                year: year as u32,
                month,
                day,
                hour,
                minute,
                second,
            }),
            r is Some ==> r->Some_0.wf(),
    {
        if 0 <= year && year < 10000 {
            Some(
                Timestamp {
                    year: year as u32,
                    month,
                    day,
                    hour,
                    minute,
                    second,
                },
            )
        } else {
            None
        }
    }

    /// Reads the wall clock. `None` only when the reported year falls outside
    /// `0..=9999`, which the four-digit rendering cannot carry; what is made
    /// of a reading is pinned by `from_clock`.
    pub fn now() -> (r: Option<Timestamp>)
        ensures
            r is Some ==> r->Some_0.wf(),
    {
        let (y, mo, d, h, mi, s) = read_local_clock();
        Timestamp::from_clock(y, mo, d, h, mi, s)
    }
}

/// Relies on chrono::Local::now for the current civil time, read out through
/// the chrono::Datelike and chrono::Timelike accessors, whose documentation
/// bounds month in 1..=12, day in 1..=31, hour in 0..=23, and minute and
/// second in 0..=59 (chrono keeps leap seconds in the nanosecond field).
/// Like any direct call of chrono::Local::now, this aborts the process when
/// the host clock reads before the Unix epoch or the timezone data is broken.
#[verifier::external_body]
fn read_local_clock() -> (r: (i32, u32, u32, u32, u32, u32))
    ensures
        1 <= r.1 <= 12,
        1 <= r.2 <= 31,
        r.3 < 24,
        r.4 < 60,
        r.5 < 60,
{
    let t = chrono::Local::now();
    (t.year(), t.month(), t.day(), t.hour(), t.minute(), t.second())
}

/// `YYYY-MM-DD` determines the date: the rendering is injective on the
/// in-range field values.
pub proof fn lemma_date_injective(y1: int, mo1: int, d1: int, y2: int, mo2: int, d2: int)
    requires
        0 <= y1 < 10000,
        0 <= y2 < 10000,
        0 <= mo1 < 100,
        0 <= mo2 < 100,
        0 <= d1 < 100,
        0 <= d2 < 100,
        date_spec(y1, mo1, d1) == date_spec(y2, mo2, d2),
    ensures
        y1 == y2,
        mo1 == mo2,
        d1 == d2,
{
    let a = date_spec(y1, mo1, d1);
    let b = date_spec(y2, mo2, d2);
    assert(pad4_spec(y1) =~= pad4_spec(y2)) by {
        assert(a[0] == pad4_spec(y1)[0] && b[0] == pad4_spec(y2)[0]);
        assert(a[1] == pad4_spec(y1)[1] && b[1] == pad4_spec(y2)[1]);
        assert(a[2] == pad4_spec(y1)[2] && b[2] == pad4_spec(y2)[2]);
        assert(a[3] == pad4_spec(y1)[3] && b[3] == pad4_spec(y2)[3]);
    }
    assert(pad2_spec(mo1) =~= pad2_spec(mo2)) by {
        assert(a[5] == pad2_spec(mo1)[0] && b[5] == pad2_spec(mo2)[0]);
        assert(a[6] == pad2_spec(mo1)[1] && b[6] == pad2_spec(mo2)[1]);
    }
    assert(pad2_spec(d1) =~= pad2_spec(d2)) by {
        assert(a[8] == pad2_spec(d1)[0] && b[8] == pad2_spec(d2)[0]);
        assert(a[9] == pad2_spec(d1)[1] && b[9] == pad2_spec(d2)[1]);
    }
    lemma_pad4_injective(y1, y2);
    lemma_pad2_injective(mo1, mo2);
    lemma_pad2_injective(d1, d2);
}

/// `HH<sep>MM<sep>SS` determines the time of day, for any separator.
pub proof fn lemma_time_injective(h1: int, mi1: int, s1: int, h2: int, mi2: int, s2: int, sep: char)
    requires
        0 <= h1 < 100,
        0 <= h2 < 100,
        0 <= mi1 < 100,
        0 <= mi2 < 100,
        0 <= s1 < 100,
        0 <= s2 < 100,
        time_spec(h1, mi1, s1, sep) == time_spec(h2, mi2, s2, sep),
    ensures
        h1 == h2,
        mi1 == mi2,
        s1 == s2,
{
    let a = time_spec(h1, mi1, s1, sep);
    let b = time_spec(h2, mi2, s2, sep);
    assert(pad2_spec(h1) =~= pad2_spec(h2)) by {
        assert(a[0] == pad2_spec(h1)[0] && b[0] == pad2_spec(h2)[0]);
        assert(a[1] == pad2_spec(h1)[1] && b[1] == pad2_spec(h2)[1]);
    }
    assert(pad2_spec(mi1) =~= pad2_spec(mi2)) by {
        assert(a[3] == pad2_spec(mi1)[0] && b[3] == pad2_spec(mi2)[0]);
        assert(a[4] == pad2_spec(mi1)[1] && b[4] == pad2_spec(mi2)[1]);
    }
    assert(pad2_spec(s1) =~= pad2_spec(s2)) by {
        assert(a[6] == pad2_spec(s1)[0] && b[6] == pad2_spec(s2)[0]);
        assert(a[7] == pad2_spec(s1)[1] && b[7] == pad2_spec(s2)[1]);
    }
    lemma_pad2_injective(h1, h2);
    lemma_pad2_injective(mi1, mi2);
    lemma_pad2_injective(s1, s2);
}

/// Distinct instants give distinct log-file names. Together with the rotation
/// schedule, which opens successive files at least one second apart, no file
/// of a run ever overwrites another.
pub proof fn lemma_file_name_injective(t1: Timestamp, t2: Timestamp)
    requires
        t1.wf(),
        t2.wf(),
        t1 != t2,
    ensures
        t1.file_name_spec() != t2.file_name_spec(),
{
    if t1.file_name_spec() == t2.file_name_spec() {
        reveal_strlit("device_metrics_");
        reveal_strlit(".csv");
        assert("device_metrics_"@.len() == 15);
        let a = t1.file_stamp_spec();
        let b = t2.file_stamp_spec();
        assert(a.len() == 19 && b.len() == 19);
        assert(a =~= b) by {
            assert forall|i: int| 0 <= i < 19 implies a[i] == b[i] by {
                assert(t1.file_name_spec()[15 + i] == a[i]);
                assert(t2.file_name_spec()[15 + i] == b[i]);
            }
        }
        let da = date_spec(t1.year as int, t1.month as int, t1.day as int);
        let db = date_spec(t2.year as int, t2.month as int, t2.day as int);
        let ta = time_spec(t1.hour as int, t1.minute as int, t1.second as int, '-');
        let tb = time_spec(t2.hour as int, t2.minute as int, t2.second as int, '-');
        assert(da =~= db) by {
            assert forall|i: int| 0 <= i < 10 implies da[i] == db[i] by {
                assert(a[i] == da[i]);
                assert(b[i] == db[i]);
            }
        }
        assert(ta =~= tb) by {
            assert forall|i: int| 0 <= i < 8 implies ta[i] == tb[i] by {
                assert(a[11 + i] == ta[i]);
                assert(b[11 + i] == tb[i]);
            }
        }
        lemma_date_injective(
            t1.year as int,
            t1.month as int,
            t1.day as int,
            t2.year as int,
            t2.month as int,
            t2.day as int,
        );
        lemma_time_injective(
            t1.hour as int,
            t1.minute as int,
            t1.second as int,
            t2.hour as int,
            t2.minute as int,
            t2.second as int,
            '-',
        );
        assert(t1 == t2);
        assert(false);
    }
}

} // verus!
