//! The comma-separated line encoding of one record: fields joined by commas
//! and closed by a single newline, together with the counting facts that make
//! a written line readable back as its fields.

use vstd::prelude::*;
use vstd::string::*;

verus! {

/// A field text is clean when it holds none of the characters that the
/// comma-separated format reserves. No field of this record schema ever
/// needs quoting, so clean fields are the only ones the logger writes.
pub open spec fn csv_clean(f: Seq<char>) -> bool {
    forall|i: int|
        0 <= i < f.len() ==> f[i] != ',' && f[i] != '"' && f[i] != '\n' && f[i] != '\r'
}

/// The fields after the first, each preceded by its separating comma.
pub open spec fn fields_tail_spec(fs: Seq<Seq<char>>) -> Seq<char>
    decreases fs.len(),
{
    if fs.len() == 0 {
        Seq::empty()
    } else {
        seq![','] + fs.first() + fields_tail_spec(fs.drop_first())
    }
}

/// One encoded record line: the fields joined by commas, closed by a newline.
pub open spec fn record_line_spec(fs: Seq<Seq<char>>) -> Seq<char> {
    if fs.len() == 0 {
        seq!['\n']
    } else {
        fs.first() + fields_tail_spec(fs.drop_first()) + seq!['\n']
    }
}

/// How often `c` occurs in `s`.
pub open spec fn count_char(s: Seq<char>, c: char) -> nat
    decreases s.len(),
{
    if s.len() == 0 {
        0
    } else {
        (if s.first() == c {
            1nat
        } else {
            0nat
        }) + count_char(s.drop_first(), c)
    }
}

proof fn lemma_fields_tail_push(fs: Seq<Seq<char>>, f: Seq<char>)
    ensures
        fields_tail_spec(fs.push(f)) == fields_tail_spec(fs) + seq![','] + f,
    decreases fs.len(),
{
    if fs.len() == 0 {
        assert(fs.push(f).first() == f);
        assert(fs.push(f).drop_first() =~= Seq::<Seq<char>>::empty());
        assert(fields_tail_spec(Seq::<Seq<char>>::empty()) =~= Seq::<char>::empty());
        assert(fields_tail_spec(fs.push(f)) =~= fields_tail_spec(fs) + seq![','] + f);
    } else {
        lemma_fields_tail_push(fs.drop_first(), f);
        assert(fs.push(f).drop_first() =~= fs.drop_first().push(f));
        assert(fields_tail_spec(fs.push(f)) =~= fields_tail_spec(fs) + seq![','] + f);
    }
}

/// Encodes one record as a line. The result is exactly the fields joined by
/// commas, closed by a newline.
pub fn encode_record(fields: &Vec<String>) -> (r: String)
    ensures
        r@ == record_line_spec(fields.deep_view()),
{
    proof {
        reveal_strlit(",");
        reveal_strlit("\n");
    }
    let ghost vs = fields.deep_view();
    if fields.len() == 0 {
        let r = String::from_str("\n");
        proof {
            assert(r@ =~= record_line_spec(vs));
        }
        return r;
    }
    let mut r = fields[0].clone();
    let mut i: usize = 1;
    while i < fields.len()
        invariant
            1 <= i <= vs.len(),
            vs == fields.deep_view(),
            vs.len() == fields@.len(),
            r@ == vs.first() + fields_tail_spec(vs.subrange(1, i as int)),
        decreases vs.len() - i,
    {
        r.append(",");
        r.append(fields[i].as_str());
        proof {
            reveal_strlit(",");
            assert(vs[i as int] == fields@[i as int]@);
            lemma_fields_tail_push(vs.subrange(1, i as int), vs[i as int]);
            assert(vs.subrange(1, i as int).push(vs[i as int]) =~= vs.subrange(1, i as int + 1));
            assert(r@ =~= vs.first() + fields_tail_spec(vs.subrange(1, i as int + 1)));
        }
        i = i + 1;
    }
    r.append("\n");
    proof {
        reveal_strlit("\n");
        assert(vs.subrange(1, vs.len() as int) =~= vs.drop_first());
        assert(r@ =~= record_line_spec(vs));
    }
    r
}

proof fn lemma_count_char_single(c: char, d: char)
    ensures
        count_char(seq![c], d) == (if c == d {
            1nat
        } else {
            0nat
        }),
{
    assert(count_char(Seq::<char>::empty(), d) == 0);
    assert(seq![c].first() == c);
    assert(seq![c].drop_first() =~= Seq::<char>::empty());
}

/// Occurrences distribute over concatenation.
pub proof fn lemma_count_char_concat(a: Seq<char>, b: Seq<char>, c: char)
    ensures
        count_char(a + b, c) == count_char(a, c) + count_char(b, c),
    decreases a.len(),
{
    if a.len() == 0 {
        assert(a + b =~= b);
    } else {
        lemma_count_char_concat(a.drop_first(), b, c);
        assert((a + b).drop_first() =~= a.drop_first() + b);
        assert((a + b).first() == a.first());
    }
}

/// A character that occurs nowhere in `s` has count zero.
pub proof fn lemma_count_char_absent(s: Seq<char>, c: char)
    requires
        forall|i: int| 0 <= i < s.len() ==> s[i] != c,
    ensures
        count_char(s, c) == 0,
    decreases s.len(),
{
    if s.len() > 0 {
        assert(forall|i: int| 0 <= i < s.drop_first().len() ==> s.drop_first()[i] != c);
        lemma_count_char_absent(s.drop_first(), c);
    }
}

proof fn lemma_fields_tail_counts(fs: Seq<Seq<char>>)
    requires
        forall|i: int| 0 <= i < fs.len() ==> csv_clean(#[trigger] fs[i]),
    ensures
        count_char(fields_tail_spec(fs), ',') == fs.len(),
        count_char(fields_tail_spec(fs), '\n') == 0,
    decreases fs.len(),
{
    if fs.len() > 0 {
        assert forall|i: int|
            0 <= i < fs.drop_first().len() implies csv_clean(#[trigger] fs.drop_first()[i]) by {
            assert(fs.drop_first()[i] == fs[i + 1]);
        }
        lemma_fields_tail_counts(fs.drop_first());
        assert(csv_clean(fs[0]));
        lemma_count_char_absent(fs.first(), ',');
        lemma_count_char_absent(fs.first(), '\n');
        lemma_count_char_single(',', ',');
        lemma_count_char_single(',', '\n');
        lemma_count_char_concat(seq![','], fs.first(), ',');
        lemma_count_char_concat(seq![','] + fs.first(), fields_tail_spec(fs.drop_first()), ',');
        lemma_count_char_concat(seq![','], fs.first(), '\n');
        lemma_count_char_concat(seq![','] + fs.first(), fields_tail_spec(fs.drop_first()), '\n');
    }
}

/// A line encoded from clean fields carries exactly one comma fewer than it
/// has fields, and exactly one newline, which stands at its end: the written
/// file keeps one line per record, and each line keeps its field count.
pub proof fn lemma_record_line_counts(fs: Seq<Seq<char>>)
    requires
        fs.len() >= 1,
        forall|i: int| 0 <= i < fs.len() ==> csv_clean(#[trigger] fs[i]),
    ensures
        count_char(record_line_spec(fs), ',') == fs.len() - 1,
        count_char(record_line_spec(fs), '\n') == 1,
        record_line_spec(fs).last() == '\n',
{
    assert forall|i: int|
        0 <= i < fs.drop_first().len() implies csv_clean(#[trigger] fs.drop_first()[i]) by {
        assert(fs.drop_first()[i] == fs[i + 1]);
    }
    lemma_fields_tail_counts(fs.drop_first());
    assert(csv_clean(fs[0]));
    lemma_count_char_absent(fs.first(), ',');
    lemma_count_char_absent(fs.first(), '\n');
    lemma_count_char_single('\n', ',');
    lemma_count_char_single('\n', '\n');
    lemma_count_char_concat(fs.first(), fields_tail_spec(fs.drop_first()), ',');
    lemma_count_char_concat(fs.first(), fields_tail_spec(fs.drop_first()), '\n');
    lemma_count_char_concat(fs.first() + fields_tail_spec(fs.drop_first()), seq!['\n'], ',');
    lemma_count_char_concat(fs.first() + fields_tail_spec(fs.drop_first()), seq!['\n'], '\n');
}

} // verus!
