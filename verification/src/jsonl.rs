use vstd::prelude::*;

verus! {

/// The line terminator of a JSON-lines file.
pub open spec fn newline() -> u8 {
    10u8
}

/// A JSON-lines document: each record followed by a newline, in order.
pub open spec fn spec_jsonl(records: Seq<Seq<u8>>) -> Seq<u8>
    decreases records.len(),
{
    if records.len() == 0 {
        Seq::empty()
    } else {
        spec_jsonl(records.drop_last()) + records.last() + seq![newline()]
    }
}

/// Whether a record can stand on a line of its own.
pub open spec fn single_line(record: Seq<u8>) -> bool {
    forall|i: int| 0 <= i < record.len() ==> record[i] != newline()
}

/// Position of the last newline in `s`, or -1 when there is none.
pub open spec fn last_newline(s: Seq<u8>) -> int
    decreases s.len(),
{
    if s.len() == 0 {
        -1
    } else if s.last() == newline() {
        s.len() - 1
    } else {
        last_newline(s.drop_last())
    }
}

/// The last newline, if any, lies inside the text.
pub proof fn lemma_last_newline_bounds(s: Seq<u8>)
    ensures
        -1 <= last_newline(s) < s.len(),
    decreases s.len(),
{
    if s.len() > 0 && s.last() != newline() {
        lemma_last_newline_bounds(s.drop_last());
    }
}

/// How a JSON-lines reader splits a document into records: every newline ends
/// a record, and text after the last newline is a final record.
pub open spec fn spec_split_lines(s: Seq<u8>) -> Seq<Seq<u8>>
    decreases s.len(),
{
    if s.len() == 0 {
        Seq::empty()
    } else {
        let body = if s.last() == newline() { s.drop_last() } else { s };
        let k = last_newline(body);
        proof {
            lemma_last_newline_bounds(body);
            lemma_last_newline_bounds(s.drop_last());
        }
        spec_split_lines(body.take(k + 1)).push(body.skip(k + 1))
    }
}

proof fn lemma_last_newline_skips_record(prefix: Seq<u8>, record: Seq<u8>)
    requires
        single_line(record),
    ensures
        last_newline(prefix + record) == last_newline(prefix),
    decreases record.len(),
{
    if record.len() == 0 {
        assert(prefix + record =~= prefix);
    } else {
        assert((prefix + record).drop_last() =~= prefix + record.drop_last());
        assert((prefix + record).last() == record.last());
        lemma_last_newline_skips_record(prefix, record.drop_last());
    }
}

proof fn lemma_jsonl_ends_with_newline(records: Seq<Seq<u8>>)
    ensures
        last_newline(spec_jsonl(records)) == spec_jsonl(records).len() - 1,
{
    if records.len() > 0 {
        let s = spec_jsonl(records);
        assert(s.last() == newline());
    }
}

/// Reading back a manifest gives exactly the records written into it, as long
/// as no record spans more than one line.
pub proof fn lemma_split_lines_of_jsonl(records: Seq<Seq<u8>>)
    requires
        forall|i: int| 0 <= i < records.len() ==> single_line(#[trigger] records[i]),
    ensures
        spec_split_lines(spec_jsonl(records)) == records,
    decreases records.len(),
{
    if records.len() > 0 {
        let prefix = records.drop_last();
        let record = records.last();
        let j = spec_jsonl(prefix);
        let s = spec_jsonl(records);
        assert(single_line(record));
        assert(s.drop_last() =~= j + record);
        lemma_last_newline_skips_record(j, record);
        lemma_jsonl_ends_with_newline(prefix);
        let body = j + record;
        assert(body.take(j.len() as int) =~= j);
        assert(body.skip(j.len() as int) =~= record);
        lemma_split_lines_of_jsonl(prefix);
        assert(records =~= prefix.push(record));
    }
}

/// Frames serialized manifest rows as a JSON-lines document: every row
/// followed by a newline, in order.
pub fn frame_manifest(records: &Vec<Vec<u8>>) -> (out: Vec<u8>)
    ensures
        out@ == spec_jsonl(records.deep_view()),
{
    let mut out: Vec<u8> = Vec::new();
    let ghost recs = records.deep_view();
    for i in 0..records.len()
        invariant
            recs == records.deep_view(),
            out@ == spec_jsonl(recs.take(i as int)),
    {
        let record = &records[i];
        let ghost start = out@;
        for j in 0..record.len()
            invariant
                out@ == start + record@.take(j as int),
        {
            out.push(record[j]);
            assert(out@ =~= start + record@.take(j + 1));
        }
        out.push(10u8);
        assert(recs[i as int] == record@);
        assert(recs.take(i + 1).drop_last() =~= recs.take(i as int));
        assert(record@.take(record.len() as int) =~= record@);
        assert(out@ =~= spec_jsonl(recs.take(i + 1)));
    }
    assert(recs.take(records.len() as int) =~= recs);
    out
}

} // verus!
