use vstd::prelude::*;

verus! {

/// How many stamped records the shared log queue holds before producers wait.
pub const LOG_QUEUE_CAPACITY: usize = 32768;

/// The four bytes, most significant first, of `n`.
pub open spec fn be_bytes(n: u32) -> Seq<u8> {
    seq![(n >> 24u32) as u8, (n >> 16u32) as u8, (n >> 8u32) as u8, n as u8]
}

/// The number that four bytes, most significant first, stand for.
pub open spec fn be_value(b0: u8, b1: u8, b2: u8, b3: u8) -> u32 {
    ((b0 as u32) << 24u32) | ((b1 as u32) << 16u32) | ((b2 as u32) << 8u32) | (b3 as u32)
}

/// One framed log record: its length in four bytes, then the record itself.
pub open spec fn frame_spec(record: Seq<u8>) -> Seq<u8> {
    be_bytes(record.len() as u32) + record
}

/// Records framed one after the other, as a guest writes them to its log channel.
pub open spec fn frames_spec(records: Seq<Seq<u8>>) -> Seq<u8>
    decreases records.len(),
{
    if records.len() == 0 {
        Seq::empty()
    } else {
        frame_spec(records[0]) + frames_spec(records.drop_first())
    }
}

/// The records that a log channel carried until it closed. A record cut short
/// by the close ends the sequence.
pub open spec fn decode_spec(b: Seq<u8>) -> Seq<Seq<u8>>
    decreases b.len(),
{
    if b.len() < 4 {
        Seq::empty()
    } else {
        let n = be_value(b[0], b[1], b[2], b[3]) as int;
        if b.len() - 4 < n {
            Seq::empty()
        } else {
            seq![b.subrange(4, 4 + n)] + decode_spec(b.subrange(4 + n, b.len() as int))
        }
    }
}

pub open spec fn views(v: Seq<Vec<u8>>) -> Seq<Seq<u8>> {
    v.map_values(|x: Vec<u8>| x@)
}

proof fn lemma_be_round_trip(n: u32)
    ensures
        be_value((n >> 24u32) as u8, (n >> 16u32) as u8, (n >> 8u32) as u8, n as u8) == n,
{
    assert(((((n >> 24u32) as u8) as u32) << 24u32) | ((((n >> 16u32) as u8) as u32) << 16u32) | ((((n
        >> 8u32) as u8) as u32) << 8u32) | ((n as u8) as u32) == n) by (bit_vector);
}

proof fn lemma_be_bytes_of_value(b0: u8, b1: u8, b2: u8, b3: u8)
    ensures
        be_bytes(be_value(b0, b1, b2, b3)) == seq![b0, b1, b2, b3],
{
    let v = be_value(b0, b1, b2, b3);
    assert((((((b0 as u32) << 24u32) | ((b1 as u32) << 16u32) | ((b2 as u32) << 8u32) | (b3 as u32))
        >> 24u32) as u8) == b0) by (bit_vector);
    assert((((((b0 as u32) << 24u32) | ((b1 as u32) << 16u32) | ((b2 as u32) << 8u32) | (b3 as u32))
        >> 16u32) as u8) == b1) by (bit_vector);
    assert((((((b0 as u32) << 24u32) | ((b1 as u32) << 16u32) | ((b2 as u32) << 8u32) | (b3 as u32))
        >> 8u32) as u8) == b2) by (bit_vector);
    assert(((((b0 as u32) << 24u32) | ((b1 as u32) << 16u32) | ((b2 as u32) << 8u32) | (b3 as u32))
        as u8) == b3) by (bit_vector);
    assert(be_bytes(v) =~= seq![b0, b1, b2, b3]);
}

/// Frames one record for the log channel.
pub fn encode_record(record: &Vec<u8>) -> (r: Vec<u8>)
    requires
        record.len() <= u32::MAX,
    ensures
        r@ == frame_spec(record@),
{
    let n = record.len() as u32;
    let mut out: Vec<u8> = Vec::new();
    out.push((n >> 24u32) as u8);
    out.push((n >> 16u32) as u8);
    out.push((n >> 8u32) as u8);
    out.push(n as u8);
    let mut i: usize = 0;
    while i < record.len()
        invariant
            i <= record.len(),
            out@ == be_bytes(n) + record@.subrange(0, i as int),
        decreases record.len() - i,
    {
        out.push(record[i]);
        i = i + 1;
        assert(record@.subrange(0, i as int) =~= record@.subrange(0, i - 1) + seq![record@[i - 1]]);
    }
    assert(record@.subrange(0, record.len() as int) =~= record@);
    out
}

/// Splits what a log channel carried into its records, in the order written.
pub fn decode_records(b: &Vec<u8>) -> (r: Vec<Vec<u8>>)
    ensures
        views(r@) == decode_spec(b@),
{
    let mut out: Vec<Vec<u8>> = Vec::new();
    let mut pos: usize = 0;
    let mut cut: bool = false;
    assert(b@.subrange(0, b.len() as int) =~= b@);
    assert(views(out@) + decode_spec(b@) =~= decode_spec(b@));
    while !cut && b.len() - pos >= 4
        invariant
            pos <= b.len(),
            views(out@) + decode_spec(b@.subrange(pos as int, b.len() as int)) == decode_spec(b@),
            cut ==> decode_spec(b@.subrange(pos as int, b.len() as int)) == Seq::<Seq<u8>>::empty(),
        decreases b.len() - pos + (if cut { 0int } else { 1int }),
    {
        let ghost rest = b@.subrange(pos as int, b.len() as int);
        let n = ((b[pos] as u32) << 24u32) | ((b[pos + 1] as u32) << 16u32) | ((b[pos + 2] as u32)
            << 8u32) | (b[pos + 3] as u32);
        assert(n == be_value(rest[0], rest[1], rest[2], rest[3]));
        if ((b.len() - pos - 4) as u64) < (n as u64) {
            assert(decode_spec(rest) =~= Seq::<Seq<u8>>::empty());
            cut = true;
        } else {
        let start = pos + 4;
        let end = start + n as usize;
        let mut rec: Vec<u8> = Vec::new();
        let mut i: usize = start;
        while i < end
            invariant
                start <= i <= end,
                end <= b.len(),
                rec@ == b@.subrange(start as int, i as int),
            decreases end - i,
        {
            rec.push(b[i]);
            i = i + 1;
            assert(b@.subrange(start as int, i as int) =~= b@.subrange(start as int, i - 1) + seq![b@[i - 1]]);
        }
        assert(rest.subrange(4, 4 + n as int) =~= rec@);
        assert(rest.subrange(4 + n as int, rest.len() as int) =~= b@.subrange(end as int, b.len() as int));
        assert(decode_spec(rest) == seq![rec@] + decode_spec(b@.subrange(end as int, b.len() as int)));
        let ghost before = out@;
        out.push(rec);
        assert(views(out@) =~= views(before) + seq![rec@]);
        assert(views(out@) + decode_spec(b@.subrange(end as int, b.len() as int)) =~= views(before)
            + decode_spec(rest));
        pos = end;
        }
    }
    if !cut {
        assert(decode_spec(b@.subrange(pos as int, b.len() as int)) =~= Seq::<Seq<u8>>::empty());
    }
    assert(views(out@) + Seq::<Seq<u8>>::empty() =~= views(out@));
    out
}

/// Copies `v[from..to]` into a new vector.
fn copy_range(v: &Vec<u8>, from: usize, to: usize) -> (r: Vec<u8>)
    requires
        from <= to <= v.len(),
    ensures
        r@ == v@.subrange(from as int, to as int),
{
    let mut out: Vec<u8> = Vec::new();
    let mut i: usize = from;
    while i < to
        invariant
            from <= i <= to,
            to <= v.len(),
            out@ == v@.subrange(from as int, i as int),
        decreases to - i,
    {
        out.push(v[i]);
        i = i + 1;
        assert(v@.subrange(from as int, i as int) =~= v@.subrange(from as int, i - 1) + seq![v@[i - 1]]);
    }
    out
}

/// Takes the first complete record off the front of what has been read from
/// a log channel so far; leaves the bytes alone when no record is complete yet.
pub fn take_record(buf: &mut Vec<u8>) -> (r: Option<Vec<u8>>)
    ensures
        r is None <==> decode_spec(old(buf)@).len() == 0,
        r is None ==> final(buf)@ == old(buf)@,
        r is Some ==> {
            &&& r->Some_0@ == decode_spec(old(buf)@)[0]
            &&& frame_spec(r->Some_0@) + final(buf)@ == old(buf)@
            &&& decode_spec(final(buf)@) == decode_spec(old(buf)@).drop_first()
        },
{
    if buf.len() < 4 {
        return None;
    }
    let n = ((buf[0] as u32) << 24u32) | ((buf[1] as u32) << 16u32) | ((buf[2] as u32) << 8u32) | (
    buf[3] as u32);
    if ((buf.len() - 4) as u64) < (n as u64) {
        return None;
    }
    let end = 4 + n as usize;
    let rec = copy_range(buf, 4, end);
    let rest = copy_range(buf, end, buf.len());
    proof {
        let b = old(buf)@;
        lemma_be_round_trip(n);
        assert(decode_spec(b) == seq![rec@] + decode_spec(rest@));
        assert(decode_spec(b).drop_first() =~= decode_spec(rest@));
        lemma_be_bytes_of_value(b[0], b[1], b[2], b[3]);
        assert(be_bytes(n) =~= b.subrange(0, 4));
        assert(frame_spec(rec@) + rest@ =~= b);
    }
    *buf = rest;
    Some(rec)
}

/// A log record tagged with the deployment that produced it.
pub struct LogItem {
    pub id: Vec<u8>,
    pub record: Vec<u8>,
}

impl LogItem {
    /// Tags `record` with the deployment identifier `id`.
    pub fn stamped(id: &Vec<u8>, record: Vec<u8>) -> (r: LogItem)
        ensures
            r.id@ == id@,
            r.record@ == record@,
    {
        LogItem { id: copy_range(id, 0, id.len()), record }
    }
}

/// Records decoded from the bytes read so far keep their place, in order,
/// once more bytes of the same channel arrive.
pub proof fn lemma_decode_prefix_stable(b: Seq<u8>, more: Seq<u8>)
    ensures
        decode_spec(b).len() <= decode_spec(b + more).len(),
        decode_spec(b + more).subrange(0, decode_spec(b).len() as int) == decode_spec(b),
    decreases b.len(),
{
    let bm = b + more;
    if b.len() < 4 {
        assert(decode_spec(bm).subrange(0, 0) =~= decode_spec(b));
    } else {
        assert(bm[0] == b[0] && bm[1] == b[1] && bm[2] == b[2] && bm[3] == b[3]);
        let n = be_value(b[0], b[1], b[2], b[3]) as int;
        if b.len() - 4 < n {
            assert(decode_spec(bm).subrange(0, 0) =~= decode_spec(b));
        } else {
            let tail = b.subrange(4 + n, b.len() as int);
            lemma_decode_prefix_stable(tail, more);
            assert(bm.subrange(4, 4 + n) =~= b.subrange(4, 4 + n));
            assert(bm.subrange(4 + n, bm.len() as int) =~= tail + more);
            let d = decode_spec(b);
            let dm = decode_spec(bm);
            assert(d == seq![b.subrange(4, 4 + n)] + decode_spec(tail));
            assert(dm == seq![b.subrange(4, 4 + n)] + decode_spec(tail + more));
            assert(dm.subrange(0, d.len() as int) =~= d);
        }
    }
}

/// Decoding a framed record followed by more bytes gives that record first.
proof fn lemma_decode_first(first: Seq<u8>, more: Seq<u8>)
    requires
        first.len() <= u32::MAX,
    ensures
        decode_spec(frame_spec(first) + more) == seq![first] + decode_spec(more),
{
    let b = frame_spec(first) + more;
    let n = first.len() as u32;
    lemma_be_round_trip(n);
    assert(b[0] == (n >> 24u32) as u8 && b[1] == (n >> 16u32) as u8);
    assert(b[2] == (n >> 8u32) as u8 && b[3] == n as u8);
    assert(b.subrange(4, 4 + first.len() as int) =~= first);
    assert(b.subrange(4 + first.len() as int, b.len() as int) =~= more);
}

/// Records framed one after the other decode to themselves, in order, ahead
/// of whatever the channel carries after them: taking records off the front
/// of a buffer as bytes arrive forwards exactly what the guest wrote.
pub proof fn lemma_decode_after_frames(records: Seq<Seq<u8>>, more: Seq<u8>)
    requires
        forall|i: int| 0 <= i < records.len() ==> #[trigger] records[i].len() <= u32::MAX,
    ensures
        decode_spec(frames_spec(records) + more) == records + decode_spec(more),
    decreases records.len(),
{
    if records.len() == 0 {
        assert(frames_spec(records) + more =~= more);
        assert(records + decode_spec(more) =~= decode_spec(more));
    } else {
        let tail = records.drop_first();
        assert forall|i: int| 0 <= i < tail.len() implies #[trigger] tail[i].len() <= u32::MAX by {
            assert(tail[i] == records[i + 1]);
        }
        lemma_decode_after_frames(tail, more);
        assert(frames_spec(records) == frame_spec(records[0]) + frames_spec(tail));
        assert(frames_spec(records) + more =~= frame_spec(records[0]) + (frames_spec(tail) + more));
        lemma_decode_first(records[0], frames_spec(tail) + more);
        assert(seq![records[0]] + (tail + decode_spec(more)) =~= records + decode_spec(more));
    }
}

/// Decoding what a guest wrote by framing records one after the other gives
/// back exactly those records, in their order.
pub proof fn lemma_frames_round_trip(records: Seq<Seq<u8>>)
    requires
        forall|i: int| 0 <= i < records.len() ==> #[trigger] records[i].len() <= u32::MAX,
    ensures
        decode_spec(frames_spec(records)) == records,
    decreases records.len(),
{
    if records.len() == 0 {
        assert(decode_spec(frames_spec(records)) =~= records);
    } else {
        let tail = records.drop_first();
        assert forall|i: int| 0 <= i < tail.len() implies #[trigger] tail[i].len() <= u32::MAX by {
            assert(tail[i] == records[i + 1]);
        }
        lemma_frames_round_trip(tail);
        assert(frames_spec(records) == frame_spec(records[0]) + frames_spec(tail));
        lemma_decode_first(records[0], frames_spec(tail));
        assert(seq![records[0]] + tail =~= records);
    }
}

} // verus!
